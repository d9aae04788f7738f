//! The AES block cipher, specified in FIPS 197.
//!
//! AES works on 128-bit blocks and supports key sizes of 128, 192 and 256
//! bits. It applies a series of rounds of substitutions and permutations to
//! the plaintext: each round substitutes bytes through the S-box (confusion),
//! shifts rows and mixes columns of the 4x4 column-major state matrix
//! (diffusion), and XORs the state with a round key derived from the
//! encryption key by the key expansion.

use vstd::prelude::*;
use crate::cipher::{BlockCipher, BlockDecrypt, BlockEncrypt};

verus! {

/// The substitution table defined in the AES specification, as a function
/// from input byte to substituted byte.
pub open spec fn spec_s_box(b: u8) -> u8 {
    match b {
        0u8 => 0x63, 1u8 => 0x7c, 2u8 => 0x77, 3u8 => 0x7b, 4u8 => 0xf2, 5u8 => 0x6b, 6u8 => 0x6f, 7u8 => 0xc5,
        8u8 => 0x30, 9u8 => 0x01, 10u8 => 0x67, 11u8 => 0x2b, 12u8 => 0xfe, 13u8 => 0xd7, 14u8 => 0xab, 15u8 => 0x76,
        16u8 => 0xca, 17u8 => 0x82, 18u8 => 0xc9, 19u8 => 0x7d, 20u8 => 0xfa, 21u8 => 0x59, 22u8 => 0x47, 23u8 => 0xf0,
        24u8 => 0xad, 25u8 => 0xd4, 26u8 => 0xa2, 27u8 => 0xaf, 28u8 => 0x9c, 29u8 => 0xa4, 30u8 => 0x72, 31u8 => 0xc0,
        32u8 => 0xb7, 33u8 => 0xfd, 34u8 => 0x93, 35u8 => 0x26, 36u8 => 0x36, 37u8 => 0x3f, 38u8 => 0xf7, 39u8 => 0xcc,
        40u8 => 0x34, 41u8 => 0xa5, 42u8 => 0xe5, 43u8 => 0xf1, 44u8 => 0x71, 45u8 => 0xd8, 46u8 => 0x31, 47u8 => 0x15,
        48u8 => 0x04, 49u8 => 0xc7, 50u8 => 0x23, 51u8 => 0xc3, 52u8 => 0x18, 53u8 => 0x96, 54u8 => 0x05, 55u8 => 0x9a,
        56u8 => 0x07, 57u8 => 0x12, 58u8 => 0x80, 59u8 => 0xe2, 60u8 => 0xeb, 61u8 => 0x27, 62u8 => 0xb2, 63u8 => 0x75,
        64u8 => 0x09, 65u8 => 0x83, 66u8 => 0x2c, 67u8 => 0x1a, 68u8 => 0x1b, 69u8 => 0x6e, 70u8 => 0x5a, 71u8 => 0xa0,
        72u8 => 0x52, 73u8 => 0x3b, 74u8 => 0xd6, 75u8 => 0xb3, 76u8 => 0x29, 77u8 => 0xe3, 78u8 => 0x2f, 79u8 => 0x84,
        80u8 => 0x53, 81u8 => 0xd1, 82u8 => 0x00, 83u8 => 0xed, 84u8 => 0x20, 85u8 => 0xfc, 86u8 => 0xb1, 87u8 => 0x5b,
        88u8 => 0x6a, 89u8 => 0xcb, 90u8 => 0xbe, 91u8 => 0x39, 92u8 => 0x4a, 93u8 => 0x4c, 94u8 => 0x58, 95u8 => 0xcf,
        96u8 => 0xd0, 97u8 => 0xef, 98u8 => 0xaa, 99u8 => 0xfb, 100u8 => 0x43, 101u8 => 0x4d, 102u8 => 0x33, 103u8 => 0x85,
        104u8 => 0x45, 105u8 => 0xf9, 106u8 => 0x02, 107u8 => 0x7f, 108u8 => 0x50, 109u8 => 0x3c, 110u8 => 0x9f, 111u8 => 0xa8,
        112u8 => 0x51, 113u8 => 0xa3, 114u8 => 0x40, 115u8 => 0x8f, 116u8 => 0x92, 117u8 => 0x9d, 118u8 => 0x38, 119u8 => 0xf5,
        120u8 => 0xbc, 121u8 => 0xb6, 122u8 => 0xda, 123u8 => 0x21, 124u8 => 0x10, 125u8 => 0xff, 126u8 => 0xf3, 127u8 => 0xd2,
        128u8 => 0xcd, 129u8 => 0x0c, 130u8 => 0x13, 131u8 => 0xec, 132u8 => 0x5f, 133u8 => 0x97, 134u8 => 0x44, 135u8 => 0x17,
        136u8 => 0xc4, 137u8 => 0xa7, 138u8 => 0x7e, 139u8 => 0x3d, 140u8 => 0x64, 141u8 => 0x5d, 142u8 => 0x19, 143u8 => 0x73,
        144u8 => 0x60, 145u8 => 0x81, 146u8 => 0x4f, 147u8 => 0xdc, 148u8 => 0x22, 149u8 => 0x2a, 150u8 => 0x90, 151u8 => 0x88,
        152u8 => 0x46, 153u8 => 0xee, 154u8 => 0xb8, 155u8 => 0x14, 156u8 => 0xde, 157u8 => 0x5e, 158u8 => 0x0b, 159u8 => 0xdb,
        160u8 => 0xe0, 161u8 => 0x32, 162u8 => 0x3a, 163u8 => 0x0a, 164u8 => 0x49, 165u8 => 0x06, 166u8 => 0x24, 167u8 => 0x5c,
        168u8 => 0xc2, 169u8 => 0xd3, 170u8 => 0xac, 171u8 => 0x62, 172u8 => 0x91, 173u8 => 0x95, 174u8 => 0xe4, 175u8 => 0x79,
        176u8 => 0xe7, 177u8 => 0xc8, 178u8 => 0x37, 179u8 => 0x6d, 180u8 => 0x8d, 181u8 => 0xd5, 182u8 => 0x4e, 183u8 => 0xa9,
        184u8 => 0x6c, 185u8 => 0x56, 186u8 => 0xf4, 187u8 => 0xea, 188u8 => 0x65, 189u8 => 0x7a, 190u8 => 0xae, 191u8 => 0x08,
        192u8 => 0xba, 193u8 => 0x78, 194u8 => 0x25, 195u8 => 0x2e, 196u8 => 0x1c, 197u8 => 0xa6, 198u8 => 0xb4, 199u8 => 0xc6,
        200u8 => 0xe8, 201u8 => 0xdd, 202u8 => 0x74, 203u8 => 0x1f, 204u8 => 0x4b, 205u8 => 0xbd, 206u8 => 0x8b, 207u8 => 0x8a,
        208u8 => 0x70, 209u8 => 0x3e, 210u8 => 0xb5, 211u8 => 0x66, 212u8 => 0x48, 213u8 => 0x03, 214u8 => 0xf6, 215u8 => 0x0e,
        216u8 => 0x61, 217u8 => 0x35, 218u8 => 0x57, 219u8 => 0xb9, 220u8 => 0x86, 221u8 => 0xc1, 222u8 => 0x1d, 223u8 => 0x9e,
        224u8 => 0xe1, 225u8 => 0xf8, 226u8 => 0x98, 227u8 => 0x11, 228u8 => 0x69, 229u8 => 0xd9, 230u8 => 0x8e, 231u8 => 0x94,
        232u8 => 0x9b, 233u8 => 0x1e, 234u8 => 0x87, 235u8 => 0xe9, 236u8 => 0xce, 237u8 => 0x55, 238u8 => 0x28, 239u8 => 0xdf,
        240u8 => 0x8c, 241u8 => 0xa1, 242u8 => 0x89, 243u8 => 0x0d, 244u8 => 0xbf, 245u8 => 0xe6, 246u8 => 0x42, 247u8 => 0x68,
        248u8 => 0x41, 249u8 => 0x99, 250u8 => 0x2d, 251u8 => 0x0f, 252u8 => 0xb0, 253u8 => 0x54, 254u8 => 0xbb, 255u8 => 0x16,
    }
}

/// Inverse of the [substitution table](spec_s_box).
pub open spec fn spec_inv_s_box(b: u8) -> u8 {
    match b {
        0u8 => 0x52, 1u8 => 0x09, 2u8 => 0x6a, 3u8 => 0xd5, 4u8 => 0x30, 5u8 => 0x36, 6u8 => 0xa5, 7u8 => 0x38,
        8u8 => 0xbf, 9u8 => 0x40, 10u8 => 0xa3, 11u8 => 0x9e, 12u8 => 0x81, 13u8 => 0xf3, 14u8 => 0xd7, 15u8 => 0xfb,
        16u8 => 0x7c, 17u8 => 0xe3, 18u8 => 0x39, 19u8 => 0x82, 20u8 => 0x9b, 21u8 => 0x2f, 22u8 => 0xff, 23u8 => 0x87,
        24u8 => 0x34, 25u8 => 0x8e, 26u8 => 0x43, 27u8 => 0x44, 28u8 => 0xc4, 29u8 => 0xde, 30u8 => 0xe9, 31u8 => 0xcb,
        32u8 => 0x54, 33u8 => 0x7b, 34u8 => 0x94, 35u8 => 0x32, 36u8 => 0xa6, 37u8 => 0xc2, 38u8 => 0x23, 39u8 => 0x3d,
        40u8 => 0xee, 41u8 => 0x4c, 42u8 => 0x95, 43u8 => 0x0b, 44u8 => 0x42, 45u8 => 0xfa, 46u8 => 0xc3, 47u8 => 0x4e,
        48u8 => 0x08, 49u8 => 0x2e, 50u8 => 0xa1, 51u8 => 0x66, 52u8 => 0x28, 53u8 => 0xd9, 54u8 => 0x24, 55u8 => 0xb2,
        56u8 => 0x76, 57u8 => 0x5b, 58u8 => 0xa2, 59u8 => 0x49, 60u8 => 0x6d, 61u8 => 0x8b, 62u8 => 0xd1, 63u8 => 0x25,
        64u8 => 0x72, 65u8 => 0xf8, 66u8 => 0xf6, 67u8 => 0x64, 68u8 => 0x86, 69u8 => 0x68, 70u8 => 0x98, 71u8 => 0x16,
        72u8 => 0xd4, 73u8 => 0xa4, 74u8 => 0x5c, 75u8 => 0xcc, 76u8 => 0x5d, 77u8 => 0x65, 78u8 => 0xb6, 79u8 => 0x92,
        80u8 => 0x6c, 81u8 => 0x70, 82u8 => 0x48, 83u8 => 0x50, 84u8 => 0xfd, 85u8 => 0xed, 86u8 => 0xb9, 87u8 => 0xda,
        88u8 => 0x5e, 89u8 => 0x15, 90u8 => 0x46, 91u8 => 0x57, 92u8 => 0xa7, 93u8 => 0x8d, 94u8 => 0x9d, 95u8 => 0x84,
        96u8 => 0x90, 97u8 => 0xd8, 98u8 => 0xab, 99u8 => 0x00, 100u8 => 0x8c, 101u8 => 0xbc, 102u8 => 0xd3, 103u8 => 0x0a,
        104u8 => 0xf7, 105u8 => 0xe4, 106u8 => 0x58, 107u8 => 0x05, 108u8 => 0xb8, 109u8 => 0xb3, 110u8 => 0x45, 111u8 => 0x06,
        112u8 => 0xd0, 113u8 => 0x2c, 114u8 => 0x1e, 115u8 => 0x8f, 116u8 => 0xca, 117u8 => 0x3f, 118u8 => 0x0f, 119u8 => 0x02,
        120u8 => 0xc1, 121u8 => 0xaf, 122u8 => 0xbd, 123u8 => 0x03, 124u8 => 0x01, 125u8 => 0x13, 126u8 => 0x8a, 127u8 => 0x6b,
        128u8 => 0x3a, 129u8 => 0x91, 130u8 => 0x11, 131u8 => 0x41, 132u8 => 0x4f, 133u8 => 0x67, 134u8 => 0xdc, 135u8 => 0xea,
        136u8 => 0x97, 137u8 => 0xf2, 138u8 => 0xcf, 139u8 => 0xce, 140u8 => 0xf0, 141u8 => 0xb4, 142u8 => 0xe6, 143u8 => 0x73,
        144u8 => 0x96, 145u8 => 0xac, 146u8 => 0x74, 147u8 => 0x22, 148u8 => 0xe7, 149u8 => 0xad, 150u8 => 0x35, 151u8 => 0x85,
        152u8 => 0xe2, 153u8 => 0xf9, 154u8 => 0x37, 155u8 => 0xe8, 156u8 => 0x1c, 157u8 => 0x75, 158u8 => 0xdf, 159u8 => 0x6e,
        160u8 => 0x47, 161u8 => 0xf1, 162u8 => 0x1a, 163u8 => 0x71, 164u8 => 0x1d, 165u8 => 0x29, 166u8 => 0xc5, 167u8 => 0x89,
        168u8 => 0x6f, 169u8 => 0xb7, 170u8 => 0x62, 171u8 => 0x0e, 172u8 => 0xaa, 173u8 => 0x18, 174u8 => 0xbe, 175u8 => 0x1b,
        176u8 => 0xfc, 177u8 => 0x56, 178u8 => 0x3e, 179u8 => 0x4b, 180u8 => 0xc6, 181u8 => 0xd2, 182u8 => 0x79, 183u8 => 0x20,
        184u8 => 0x9a, 185u8 => 0xdb, 186u8 => 0xc0, 187u8 => 0xfe, 188u8 => 0x78, 189u8 => 0xcd, 190u8 => 0x5a, 191u8 => 0xf4,
        192u8 => 0x1f, 193u8 => 0xdd, 194u8 => 0xa8, 195u8 => 0x33, 196u8 => 0x88, 197u8 => 0x07, 198u8 => 0xc7, 199u8 => 0x31,
        200u8 => 0xb1, 201u8 => 0x12, 202u8 => 0x10, 203u8 => 0x59, 204u8 => 0x27, 205u8 => 0x80, 206u8 => 0xec, 207u8 => 0x5f,
        208u8 => 0x60, 209u8 => 0x51, 210u8 => 0x7f, 211u8 => 0xa9, 212u8 => 0x19, 213u8 => 0xb5, 214u8 => 0x4a, 215u8 => 0x0d,
        216u8 => 0x2d, 217u8 => 0xe5, 218u8 => 0x7a, 219u8 => 0x9f, 220u8 => 0x93, 221u8 => 0xc9, 222u8 => 0x9c, 223u8 => 0xef,
        224u8 => 0xa0, 225u8 => 0xe0, 226u8 => 0x3b, 227u8 => 0x4d, 228u8 => 0xae, 229u8 => 0x2a, 230u8 => 0xf5, 231u8 => 0xb0,
        232u8 => 0xc8, 233u8 => 0xeb, 234u8 => 0xbb, 235u8 => 0x3c, 236u8 => 0x83, 237u8 => 0x53, 238u8 => 0x99, 239u8 => 0x61,
        240u8 => 0x17, 241u8 => 0x2b, 242u8 => 0x04, 243u8 => 0x7e, 244u8 => 0xba, 245u8 => 0x77, 246u8 => 0xd6, 247u8 => 0x26,
        248u8 => 0xe1, 249u8 => 0x69, 250u8 => 0x14, 251u8 => 0x63, 252u8 => 0x55, 253u8 => 0x21, 254u8 => 0x0c, 255u8 => 0x7d,
    }
}

/// Look up a byte in the S-box.
pub fn s_box(b: u8) -> (r: u8)
    ensures
        r == spec_s_box(b),
{
    match b {
        0u8 => 0x63, 1u8 => 0x7c, 2u8 => 0x77, 3u8 => 0x7b, 4u8 => 0xf2, 5u8 => 0x6b, 6u8 => 0x6f, 7u8 => 0xc5,
        8u8 => 0x30, 9u8 => 0x01, 10u8 => 0x67, 11u8 => 0x2b, 12u8 => 0xfe, 13u8 => 0xd7, 14u8 => 0xab, 15u8 => 0x76,
        16u8 => 0xca, 17u8 => 0x82, 18u8 => 0xc9, 19u8 => 0x7d, 20u8 => 0xfa, 21u8 => 0x59, 22u8 => 0x47, 23u8 => 0xf0,
        24u8 => 0xad, 25u8 => 0xd4, 26u8 => 0xa2, 27u8 => 0xaf, 28u8 => 0x9c, 29u8 => 0xa4, 30u8 => 0x72, 31u8 => 0xc0,
        32u8 => 0xb7, 33u8 => 0xfd, 34u8 => 0x93, 35u8 => 0x26, 36u8 => 0x36, 37u8 => 0x3f, 38u8 => 0xf7, 39u8 => 0xcc,
        40u8 => 0x34, 41u8 => 0xa5, 42u8 => 0xe5, 43u8 => 0xf1, 44u8 => 0x71, 45u8 => 0xd8, 46u8 => 0x31, 47u8 => 0x15,
        48u8 => 0x04, 49u8 => 0xc7, 50u8 => 0x23, 51u8 => 0xc3, 52u8 => 0x18, 53u8 => 0x96, 54u8 => 0x05, 55u8 => 0x9a,
        56u8 => 0x07, 57u8 => 0x12, 58u8 => 0x80, 59u8 => 0xe2, 60u8 => 0xeb, 61u8 => 0x27, 62u8 => 0xb2, 63u8 => 0x75,
        64u8 => 0x09, 65u8 => 0x83, 66u8 => 0x2c, 67u8 => 0x1a, 68u8 => 0x1b, 69u8 => 0x6e, 70u8 => 0x5a, 71u8 => 0xa0,
        72u8 => 0x52, 73u8 => 0x3b, 74u8 => 0xd6, 75u8 => 0xb3, 76u8 => 0x29, 77u8 => 0xe3, 78u8 => 0x2f, 79u8 => 0x84,
        80u8 => 0x53, 81u8 => 0xd1, 82u8 => 0x00, 83u8 => 0xed, 84u8 => 0x20, 85u8 => 0xfc, 86u8 => 0xb1, 87u8 => 0x5b,
        88u8 => 0x6a, 89u8 => 0xcb, 90u8 => 0xbe, 91u8 => 0x39, 92u8 => 0x4a, 93u8 => 0x4c, 94u8 => 0x58, 95u8 => 0xcf,
        96u8 => 0xd0, 97u8 => 0xef, 98u8 => 0xaa, 99u8 => 0xfb, 100u8 => 0x43, 101u8 => 0x4d, 102u8 => 0x33, 103u8 => 0x85,
        104u8 => 0x45, 105u8 => 0xf9, 106u8 => 0x02, 107u8 => 0x7f, 108u8 => 0x50, 109u8 => 0x3c, 110u8 => 0x9f, 111u8 => 0xa8,
        112u8 => 0x51, 113u8 => 0xa3, 114u8 => 0x40, 115u8 => 0x8f, 116u8 => 0x92, 117u8 => 0x9d, 118u8 => 0x38, 119u8 => 0xf5,
        120u8 => 0xbc, 121u8 => 0xb6, 122u8 => 0xda, 123u8 => 0x21, 124u8 => 0x10, 125u8 => 0xff, 126u8 => 0xf3, 127u8 => 0xd2,
        128u8 => 0xcd, 129u8 => 0x0c, 130u8 => 0x13, 131u8 => 0xec, 132u8 => 0x5f, 133u8 => 0x97, 134u8 => 0x44, 135u8 => 0x17,
        136u8 => 0xc4, 137u8 => 0xa7, 138u8 => 0x7e, 139u8 => 0x3d, 140u8 => 0x64, 141u8 => 0x5d, 142u8 => 0x19, 143u8 => 0x73,
        144u8 => 0x60, 145u8 => 0x81, 146u8 => 0x4f, 147u8 => 0xdc, 148u8 => 0x22, 149u8 => 0x2a, 150u8 => 0x90, 151u8 => 0x88,
        152u8 => 0x46, 153u8 => 0xee, 154u8 => 0xb8, 155u8 => 0x14, 156u8 => 0xde, 157u8 => 0x5e, 158u8 => 0x0b, 159u8 => 0xdb,
        160u8 => 0xe0, 161u8 => 0x32, 162u8 => 0x3a, 163u8 => 0x0a, 164u8 => 0x49, 165u8 => 0x06, 166u8 => 0x24, 167u8 => 0x5c,
        168u8 => 0xc2, 169u8 => 0xd3, 170u8 => 0xac, 171u8 => 0x62, 172u8 => 0x91, 173u8 => 0x95, 174u8 => 0xe4, 175u8 => 0x79,
        176u8 => 0xe7, 177u8 => 0xc8, 178u8 => 0x37, 179u8 => 0x6d, 180u8 => 0x8d, 181u8 => 0xd5, 182u8 => 0x4e, 183u8 => 0xa9,
        184u8 => 0x6c, 185u8 => 0x56, 186u8 => 0xf4, 187u8 => 0xea, 188u8 => 0x65, 189u8 => 0x7a, 190u8 => 0xae, 191u8 => 0x08,
        192u8 => 0xba, 193u8 => 0x78, 194u8 => 0x25, 195u8 => 0x2e, 196u8 => 0x1c, 197u8 => 0xa6, 198u8 => 0xb4, 199u8 => 0xc6,
        200u8 => 0xe8, 201u8 => 0xdd, 202u8 => 0x74, 203u8 => 0x1f, 204u8 => 0x4b, 205u8 => 0xbd, 206u8 => 0x8b, 207u8 => 0x8a,
        208u8 => 0x70, 209u8 => 0x3e, 210u8 => 0xb5, 211u8 => 0x66, 212u8 => 0x48, 213u8 => 0x03, 214u8 => 0xf6, 215u8 => 0x0e,
        216u8 => 0x61, 217u8 => 0x35, 218u8 => 0x57, 219u8 => 0xb9, 220u8 => 0x86, 221u8 => 0xc1, 222u8 => 0x1d, 223u8 => 0x9e,
        224u8 => 0xe1, 225u8 => 0xf8, 226u8 => 0x98, 227u8 => 0x11, 228u8 => 0x69, 229u8 => 0xd9, 230u8 => 0x8e, 231u8 => 0x94,
        232u8 => 0x9b, 233u8 => 0x1e, 234u8 => 0x87, 235u8 => 0xe9, 236u8 => 0xce, 237u8 => 0x55, 238u8 => 0x28, 239u8 => 0xdf,
        240u8 => 0x8c, 241u8 => 0xa1, 242u8 => 0x89, 243u8 => 0x0d, 244u8 => 0xbf, 245u8 => 0xe6, 246u8 => 0x42, 247u8 => 0x68,
        248u8 => 0x41, 249u8 => 0x99, 250u8 => 0x2d, 251u8 => 0x0f, 252u8 => 0xb0, 253u8 => 0x54, 254u8 => 0xbb, 255u8 => 0x16,
    }
}

/// Look up a byte in the inverse S-box.
pub fn inv_s_box(b: u8) -> (r: u8)
    ensures
        r == spec_inv_s_box(b),
{
    match b {
        0u8 => 0x52, 1u8 => 0x09, 2u8 => 0x6a, 3u8 => 0xd5, 4u8 => 0x30, 5u8 => 0x36, 6u8 => 0xa5, 7u8 => 0x38,
        8u8 => 0xbf, 9u8 => 0x40, 10u8 => 0xa3, 11u8 => 0x9e, 12u8 => 0x81, 13u8 => 0xf3, 14u8 => 0xd7, 15u8 => 0xfb,
        16u8 => 0x7c, 17u8 => 0xe3, 18u8 => 0x39, 19u8 => 0x82, 20u8 => 0x9b, 21u8 => 0x2f, 22u8 => 0xff, 23u8 => 0x87,
        24u8 => 0x34, 25u8 => 0x8e, 26u8 => 0x43, 27u8 => 0x44, 28u8 => 0xc4, 29u8 => 0xde, 30u8 => 0xe9, 31u8 => 0xcb,
        32u8 => 0x54, 33u8 => 0x7b, 34u8 => 0x94, 35u8 => 0x32, 36u8 => 0xa6, 37u8 => 0xc2, 38u8 => 0x23, 39u8 => 0x3d,
        40u8 => 0xee, 41u8 => 0x4c, 42u8 => 0x95, 43u8 => 0x0b, 44u8 => 0x42, 45u8 => 0xfa, 46u8 => 0xc3, 47u8 => 0x4e,
        48u8 => 0x08, 49u8 => 0x2e, 50u8 => 0xa1, 51u8 => 0x66, 52u8 => 0x28, 53u8 => 0xd9, 54u8 => 0x24, 55u8 => 0xb2,
        56u8 => 0x76, 57u8 => 0x5b, 58u8 => 0xa2, 59u8 => 0x49, 60u8 => 0x6d, 61u8 => 0x8b, 62u8 => 0xd1, 63u8 => 0x25,
        64u8 => 0x72, 65u8 => 0xf8, 66u8 => 0xf6, 67u8 => 0x64, 68u8 => 0x86, 69u8 => 0x68, 70u8 => 0x98, 71u8 => 0x16,
        72u8 => 0xd4, 73u8 => 0xa4, 74u8 => 0x5c, 75u8 => 0xcc, 76u8 => 0x5d, 77u8 => 0x65, 78u8 => 0xb6, 79u8 => 0x92,
        80u8 => 0x6c, 81u8 => 0x70, 82u8 => 0x48, 83u8 => 0x50, 84u8 => 0xfd, 85u8 => 0xed, 86u8 => 0xb9, 87u8 => 0xda,
        88u8 => 0x5e, 89u8 => 0x15, 90u8 => 0x46, 91u8 => 0x57, 92u8 => 0xa7, 93u8 => 0x8d, 94u8 => 0x9d, 95u8 => 0x84,
        96u8 => 0x90, 97u8 => 0xd8, 98u8 => 0xab, 99u8 => 0x00, 100u8 => 0x8c, 101u8 => 0xbc, 102u8 => 0xd3, 103u8 => 0x0a,
        104u8 => 0xf7, 105u8 => 0xe4, 106u8 => 0x58, 107u8 => 0x05, 108u8 => 0xb8, 109u8 => 0xb3, 110u8 => 0x45, 111u8 => 0x06,
        112u8 => 0xd0, 113u8 => 0x2c, 114u8 => 0x1e, 115u8 => 0x8f, 116u8 => 0xca, 117u8 => 0x3f, 118u8 => 0x0f, 119u8 => 0x02,
        120u8 => 0xc1, 121u8 => 0xaf, 122u8 => 0xbd, 123u8 => 0x03, 124u8 => 0x01, 125u8 => 0x13, 126u8 => 0x8a, 127u8 => 0x6b,
        128u8 => 0x3a, 129u8 => 0x91, 130u8 => 0x11, 131u8 => 0x41, 132u8 => 0x4f, 133u8 => 0x67, 134u8 => 0xdc, 135u8 => 0xea,
        136u8 => 0x97, 137u8 => 0xf2, 138u8 => 0xcf, 139u8 => 0xce, 140u8 => 0xf0, 141u8 => 0xb4, 142u8 => 0xe6, 143u8 => 0x73,
        144u8 => 0x96, 145u8 => 0xac, 146u8 => 0x74, 147u8 => 0x22, 148u8 => 0xe7, 149u8 => 0xad, 150u8 => 0x35, 151u8 => 0x85,
        152u8 => 0xe2, 153u8 => 0xf9, 154u8 => 0x37, 155u8 => 0xe8, 156u8 => 0x1c, 157u8 => 0x75, 158u8 => 0xdf, 159u8 => 0x6e,
        160u8 => 0x47, 161u8 => 0xf1, 162u8 => 0x1a, 163u8 => 0x71, 164u8 => 0x1d, 165u8 => 0x29, 166u8 => 0xc5, 167u8 => 0x89,
        168u8 => 0x6f, 169u8 => 0xb7, 170u8 => 0x62, 171u8 => 0x0e, 172u8 => 0xaa, 173u8 => 0x18, 174u8 => 0xbe, 175u8 => 0x1b,
        176u8 => 0xfc, 177u8 => 0x56, 178u8 => 0x3e, 179u8 => 0x4b, 180u8 => 0xc6, 181u8 => 0xd2, 182u8 => 0x79, 183u8 => 0x20,
        184u8 => 0x9a, 185u8 => 0xdb, 186u8 => 0xc0, 187u8 => 0xfe, 188u8 => 0x78, 189u8 => 0xcd, 190u8 => 0x5a, 191u8 => 0xf4,
        192u8 => 0x1f, 193u8 => 0xdd, 194u8 => 0xa8, 195u8 => 0x33, 196u8 => 0x88, 197u8 => 0x07, 198u8 => 0xc7, 199u8 => 0x31,
        200u8 => 0xb1, 201u8 => 0x12, 202u8 => 0x10, 203u8 => 0x59, 204u8 => 0x27, 205u8 => 0x80, 206u8 => 0xec, 207u8 => 0x5f,
        208u8 => 0x60, 209u8 => 0x51, 210u8 => 0x7f, 211u8 => 0xa9, 212u8 => 0x19, 213u8 => 0xb5, 214u8 => 0x4a, 215u8 => 0x0d,
        216u8 => 0x2d, 217u8 => 0xe5, 218u8 => 0x7a, 219u8 => 0x9f, 220u8 => 0x93, 221u8 => 0xc9, 222u8 => 0x9c, 223u8 => 0xef,
        224u8 => 0xa0, 225u8 => 0xe0, 226u8 => 0x3b, 227u8 => 0x4d, 228u8 => 0xae, 229u8 => 0x2a, 230u8 => 0xf5, 231u8 => 0xb0,
        232u8 => 0xc8, 233u8 => 0xeb, 234u8 => 0xbb, 235u8 => 0x3c, 236u8 => 0x83, 237u8 => 0x53, 238u8 => 0x99, 239u8 => 0x61,
        240u8 => 0x17, 241u8 => 0x2b, 242u8 => 0x04, 243u8 => 0x7e, 244u8 => 0xba, 245u8 => 0x77, 246u8 => 0xd6, 247u8 => 0x26,
        248u8 => 0xe1, 249u8 => 0x69, 250u8 => 0x14, 251u8 => 0x63, 252u8 => 0x55, 253u8 => 0x21, 254u8 => 0x0c, 255u8 => 0x7d,
    }
}

/// The round constant word array, defined in the AES specification. Only the
/// first byte of each round-constant word is non-zero, so only it is tabled.
pub open spec fn spec_rcon(i: int) -> u8 {
    if i == 0 { 0x00 } else if i == 1 { 0x01 } else if i == 2 { 0x02 } else if i == 3 { 0x04 }
    else if i == 4 { 0x08 } else if i == 5 { 0x10 } else if i == 6 { 0x20 } else if i == 7 { 0x40 }
    else if i == 8 { 0x80 } else if i == 9 { 0x1b } else if i == 10 { 0x36 } else if i == 11 { 0x6c }
    else if i == 12 { 0xd8 } else if i == 13 { 0xab } else if i == 14 { 0x4d } else { 0x00 }
}

/// Look up a round constant.
pub fn rcon(i: usize) -> (r: u8)
    ensures
        r == spec_rcon(i as int),
{
    match i {
        0usize => 0x00, 1usize => 0x01, 2usize => 0x02, 3usize => 0x04,
        4usize => 0x08, 5usize => 0x10, 6usize => 0x20, 7usize => 0x40,
        8usize => 0x80, 9usize => 0x1b, 10usize => 0x36, 11usize => 0x6c,
        12usize => 0xd8, 13usize => 0xab, 14usize => 0x4d,
        _ => 0x00,
    }
}

/// Multiplication by 0x02 in the Galois field GF(2^8): a left shift, with a
/// reduction by the AES polynomial 0x1b when the high bit falls off. Every
/// other multiplication the cipher needs is a combination of doublings and
/// XOR, because multiplication distributes over GF(2^8) addition (XOR).
pub open spec fn spec_times_02(b: u8) -> u8 {
    if b & 0x80 != 0 {
        ((b << 1) ^ 0x1b) as u8
    } else {
        (b << 1) as u8
    }
}

/// Multiplication by 0x03 in GF(2^8): `0x03 = 0x02 ^ 0x01`.
pub open spec fn spec_times_03(b: u8) -> u8 {
    spec_times_02(b) ^ b
}

/// Multiplication by 0x04 in GF(2^8): two doublings.
pub open spec fn spec_times_04(b: u8) -> u8 {
    spec_times_02(spec_times_02(b))
}

/// Multiplication by 0x08 in GF(2^8): three doublings.
pub open spec fn spec_times_08(b: u8) -> u8 {
    spec_times_02(spec_times_04(b))
}

/// Multiplication by 0x09 in GF(2^8): `0x09 = 0x08 ^ 0x01`.
pub open spec fn spec_times_09(b: u8) -> u8 {
    spec_times_08(b) ^ b
}

/// Multiplication by 0x0b in GF(2^8): `0x0b = 0x08 ^ 0x03`.
pub open spec fn spec_times_0b(b: u8) -> u8 {
    spec_times_08(b) ^ spec_times_03(b)
}

/// Multiplication by 0x0d in GF(2^8): `0x0d = 0x08 ^ 0x04 ^ 0x01`.
pub open spec fn spec_times_0d(b: u8) -> u8 {
    spec_times_08(b) ^ spec_times_04(b) ^ b
}

/// Multiplication by 0x0e in GF(2^8): `0x0e = 0x08 ^ 0x04 ^ 0x02`.
pub open spec fn spec_times_0e(b: u8) -> u8 {
    spec_times_08(b) ^ spec_times_04(b) ^ spec_times_02(b)
}

/// Multiply `b` by 0x02 in the Galois field GF(2^8).
pub fn times_02(b: u8) -> (r: u8)
    ensures
        r == spec_times_02(b),
{
    let mut r = b << 1;
    if b & 0x80 != 0 {
        r = r ^ 0x1b;
    }
    r
}

/// Multiply `b` by 0x03 in the Galois field GF(2^8).
pub fn times_03(b: u8) -> (r: u8)
    ensures
        r == spec_times_03(b),
{
    times_02(b) ^ b
}

/// Multiply `b` by 0x04 in the Galois field GF(2^8).
pub fn times_04(b: u8) -> (r: u8)
    ensures
        r == spec_times_04(b),
{
    times_02(times_02(b))
}

/// Multiply `b` by 0x08 in the Galois field GF(2^8).
pub fn times_08(b: u8) -> (r: u8)
    ensures
        r == spec_times_08(b),
{
    times_02(times_04(b))
}

/// Multiply `b` by 0x09 in the Galois field GF(2^8).
pub fn times_09(b: u8) -> (r: u8)
    ensures
        r == spec_times_09(b),
{
    times_08(b) ^ b
}

/// Multiply `b` by 0x0b in the Galois field GF(2^8).
pub fn times_0b(b: u8) -> (r: u8)
    ensures
        r == spec_times_0b(b),
{
    times_08(b) ^ times_03(b)
}

/// Multiply `b` by 0x0d in the Galois field GF(2^8).
pub fn times_0d(b: u8) -> (r: u8)
    ensures
        r == spec_times_0d(b),
{
    times_08(b) ^ times_04(b) ^ b
}

/// Multiply `b` by 0x0e in the Galois field GF(2^8).
pub fn times_0e(b: u8) -> (r: u8)
    ensures
        r == spec_times_0e(b),
{
    times_08(b) ^ times_04(b) ^ times_02(b)
}

/// The SubBytes transformation: replace each byte with its S-box image.
pub open spec fn spec_sub_bytes(s: Seq<u8>) -> Seq<u8> {
    Seq::new(s.len(), |i: int| spec_s_box(s[i]))
}

/// The InvSubBytes transformation, inverse of [SubBytes](spec_sub_bytes).
pub open spec fn spec_inv_sub_bytes(s: Seq<u8>) -> Seq<u8> {
    Seq::new(s.len(), |i: int| spec_inv_s_box(s[i]))
}

/// The SubBytes transformation defined in the AES specification.
///
/// Replaces each byte in the input with the corresponding byte from the
/// S-box.
#[verifier::loop_isolation(false)]
pub fn sub_bytes(bytes: &mut Vec<u8>)
    ensures
        final(bytes)@ == spec_sub_bytes(old(bytes)@),
{
    let n = bytes.len();
    let mut i: usize = 0;
    while i < n
        invariant
            i <= n,
            bytes@.len() == n,
            forall|j: int| 0 <= j < i ==> bytes@[j] == spec_s_box(old(bytes)@[j]),
            forall|j: int| i <= j < n ==> bytes@[j] == old(bytes)@[j],
        decreases n - i,
    {
        let b = s_box(bytes[i]);
        bytes[i] = b;
        i = i + 1;
    }
    assert(bytes@ =~= spec_sub_bytes(old(bytes)@));
}

/// The InvSubBytes transformation defined in the AES specification.
///
/// Replaces each byte in the input with the corresponding byte from the
/// inverse S-box. Inverse of [SubBytes](sub_bytes).
#[verifier::loop_isolation(false)]
pub fn inv_sub_bytes(bytes: &mut Vec<u8>)
    ensures
        final(bytes)@ == spec_inv_sub_bytes(old(bytes)@),
{
    let n = bytes.len();
    let mut i: usize = 0;
    while i < n
        invariant
            i <= n,
            bytes@.len() == n,
            forall|j: int| 0 <= j < i ==> bytes@[j] == spec_inv_s_box(old(bytes)@[j]),
            forall|j: int| i <= j < n ==> bytes@[j] == old(bytes)@[j],
        decreases n - i,
    {
        let b = inv_s_box(bytes[i]);
        bytes[i] = b;
        i = i + 1;
    }
    assert(bytes@ =~= spec_inv_sub_bytes(old(bytes)@));
}

/// Where byte `i` of the state comes from under ShiftRows: the state is
/// column-major, and row `r` is rotated left by `r` columns.
pub open spec fn spec_shift_src(i: int) -> int {
    let r = i % 4;
    let c = i / 4;
    4 * ((c + r) % 4) + r
}

/// Where byte `i` of the state comes from under InvShiftRows: row `r` is
/// rotated right by `r` columns.
pub open spec fn spec_inv_shift_src(i: int) -> int {
    let r = i % 4;
    let c = i / 4;
    4 * ((c + 4 - r) % 4) + r
}

/// The ShiftRows transformation: rotate row `r` of the column-major state
/// left by `r` columns.
pub open spec fn spec_shift_rows(s: Seq<u8>) -> Seq<u8> {
    Seq::new(16, |i: int| s[spec_shift_src(i)])
}

/// The InvShiftRows transformation, inverse of [ShiftRows](spec_shift_rows).
pub open spec fn spec_inv_shift_rows(s: Seq<u8>) -> Seq<u8> {
    Seq::new(16, |i: int| s[spec_inv_shift_src(i)])
}

/// The ShiftRows transformation defined in the AES specification.
///
/// Rotates all rows by a certain offset, except the first one.
#[verifier::loop_isolation(false)]
pub fn shift_rows(state: &mut Vec<u8>)
    requires
        old(state)@.len() == 16,
    ensures
        final(state)@ == spec_shift_rows(old(state)@),
{
    let copy = vstd::slice::slice_to_vec(state.as_slice());
    let mut i: usize = 0;
    while i < 16
        invariant
            i <= 16,
            state@.len() == 16,
            copy@ == old(state)@,
            forall|j: int| 0 <= j < i ==> state@[j] == old(state)@[spec_shift_src(j)],
            forall|j: int| i <= j < 16 ==> state@[j] == old(state)@[j],
        decreases 16 - i,
    {
        let r = i % 4;
        let c = i / 4;
        let b = copy[4 * ((c + r) % 4) + r];
        state[i] = b;
        i = i + 1;
    }
    assert(state@ =~= spec_shift_rows(old(state)@));
}

/// The InvShiftRows transformation defined in the AES specification.
///
/// Rotates all rows by a certain offset, except the first one, in the
/// opposite direction of [ShiftRows](shift_rows).
#[verifier::loop_isolation(false)]
pub fn inv_shift_rows(state: &mut Vec<u8>)
    requires
        old(state)@.len() == 16,
    ensures
        final(state)@ == spec_inv_shift_rows(old(state)@),
{
    let copy = vstd::slice::slice_to_vec(state.as_slice());
    let mut i: usize = 0;
    while i < 16
        invariant
            i <= 16,
            state@.len() == 16,
            copy@ == old(state)@,
            forall|j: int| 0 <= j < i ==> state@[j] == old(state)@[spec_inv_shift_src(j)],
            forall|j: int| i <= j < 16 ==> state@[j] == old(state)@[j],
        decreases 16 - i,
    {
        let r = i % 4;
        let c = i / 4;
        let b = copy[4 * ((c + 4 - r) % 4) + r];
        state[i] = b;
        i = i + 1;
    }
    assert(state@ =~= spec_inv_shift_rows(old(state)@));
}

/// One byte of the MixColumns image: each column of the state is multiplied
/// by the fixed matrix of GF(2^8) constants 02, 03, 01, 01 (rotated per row).
pub open spec fn spec_mix_byte(s: Seq<u8>, i: int) -> u8 {
    let base = 4 * (i / 4);
    let s0 = s[base];
    let s1 = s[base + 1];
    let s2 = s[base + 2];
    let s3 = s[base + 3];
    if i % 4 == 0 {
        spec_times_02(s0) ^ spec_times_03(s1) ^ s2 ^ s3
    } else if i % 4 == 1 {
        s0 ^ spec_times_02(s1) ^ spec_times_03(s2) ^ s3
    } else if i % 4 == 2 {
        s0 ^ s1 ^ spec_times_02(s2) ^ spec_times_03(s3)
    } else {
        spec_times_03(s0) ^ s1 ^ s2 ^ spec_times_02(s3)
    }
}

/// The MixColumns transformation: multiply each column by a fixed matrix
/// over GF(2^8).
pub open spec fn spec_mix_columns(s: Seq<u8>) -> Seq<u8> {
    Seq::new(16, |i: int| spec_mix_byte(s, i))
}

/// One byte of the InvMixColumns image, using the inverse matrix of GF(2^8)
/// constants 0e, 0b, 0d, 09 (rotated per row).
pub open spec fn spec_inv_mix_byte(s: Seq<u8>, i: int) -> u8 {
    let base = 4 * (i / 4);
    let s0 = s[base];
    let s1 = s[base + 1];
    let s2 = s[base + 2];
    let s3 = s[base + 3];
    if i % 4 == 0 {
        spec_times_0e(s0) ^ spec_times_0b(s1) ^ spec_times_0d(s2) ^ spec_times_09(s3)
    } else if i % 4 == 1 {
        spec_times_09(s0) ^ spec_times_0e(s1) ^ spec_times_0b(s2) ^ spec_times_0d(s3)
    } else if i % 4 == 2 {
        spec_times_0d(s0) ^ spec_times_09(s1) ^ spec_times_0e(s2) ^ spec_times_0b(s3)
    } else {
        spec_times_0b(s0) ^ spec_times_0d(s1) ^ spec_times_09(s2) ^ spec_times_0e(s3)
    }
}

/// The InvMixColumns transformation, inverse of [MixColumns](spec_mix_columns).
pub open spec fn spec_inv_mix_columns(s: Seq<u8>) -> Seq<u8> {
    Seq::new(16, |i: int| spec_inv_mix_byte(s, i))
}

/// The MixColumns transformation defined in the AES specification.
///
/// Multiplies each column of the state array (a column vector of GF(2^8)
/// polynomials) by a fixed matrix, mixing the elements of the column
/// together. The multiplications are carried out via [`times_02`] and related
/// functions.
#[verifier::loop_isolation(false)]
pub fn mix_columns(state: &mut Vec<u8>)
    requires
        old(state)@.len() == 16,
    ensures
        final(state)@ == spec_mix_columns(old(state)@),
{
    let copy = vstd::slice::slice_to_vec(state.as_slice());
    let mut c: usize = 0;
    while c < 4
        invariant
            c <= 4,
            state@.len() == 16,
            copy@ == old(state)@,
            forall|j: int| 0 <= j < 4 * c ==> state@[j] == spec_mix_byte(old(state)@, j),
            forall|j: int| 4 * c <= j < 16 ==> state@[j] == old(state)@[j],
        decreases 4 - c,
    {
        let s0 = copy[4 * c];
        let s1 = copy[4 * c + 1];
        let s2 = copy[4 * c + 2];
        let s3 = copy[4 * c + 3];
        let b0 = times_02(s0) ^ times_03(s1) ^ s2 ^ s3;
        let b1 = s0 ^ times_02(s1) ^ times_03(s2) ^ s3;
        let b2 = s0 ^ s1 ^ times_02(s2) ^ times_03(s3);
        let b3 = times_03(s0) ^ s1 ^ s2 ^ times_02(s3);
        state[4 * c] = b0;
        state[4 * c + 1] = b1;
        state[4 * c + 2] = b2;
        state[4 * c + 3] = b3;
        c = c + 1;
    }
    assert(state@ =~= spec_mix_columns(old(state)@));
}

/// The InvMixColumns transformation defined in the AES specification.
///
/// Multiplies the state array by the inverse matrix of that used in
/// [MixColumns](mix_columns).
#[verifier::loop_isolation(false)]
pub fn inv_mix_columns(state: &mut Vec<u8>)
    requires
        old(state)@.len() == 16,
    ensures
        final(state)@ == spec_inv_mix_columns(old(state)@),
{
    let copy = vstd::slice::slice_to_vec(state.as_slice());
    let mut c: usize = 0;
    while c < 4
        invariant
            c <= 4,
            state@.len() == 16,
            copy@ == old(state)@,
            forall|j: int| 0 <= j < 4 * c ==> state@[j] == spec_inv_mix_byte(old(state)@, j),
            forall|j: int| 4 * c <= j < 16 ==> state@[j] == old(state)@[j],
        decreases 4 - c,
    {
        let s0 = copy[4 * c];
        let s1 = copy[4 * c + 1];
        let s2 = copy[4 * c + 2];
        let s3 = copy[4 * c + 3];
        let b0 = times_0e(s0) ^ times_0b(s1) ^ times_0d(s2) ^ times_09(s3);
        let b1 = times_09(s0) ^ times_0e(s1) ^ times_0b(s2) ^ times_0d(s3);
        let b2 = times_0d(s0) ^ times_09(s1) ^ times_0e(s2) ^ times_0b(s3);
        let b3 = times_0b(s0) ^ times_0d(s1) ^ times_09(s2) ^ times_0e(s3);
        state[4 * c] = b0;
        state[4 * c + 1] = b1;
        state[4 * c + 2] = b2;
        state[4 * c + 3] = b3;
        c = c + 1;
    }
    assert(state@ =~= spec_inv_mix_columns(old(state)@));
}

/// The AddRoundKey transformation: XOR each byte of the state with the
/// corresponding byte of round key `round` of the key schedule `w`.
pub open spec fn spec_add_round_key(s: Seq<u8>, w: Seq<u8>, round: int) -> Seq<u8> {
    Seq::new(s.len(), |i: int| s[i] ^ w[16 * round + i])
}

/// The AddRoundKey transformation defined in the AES specification.
///
/// XORs bytes in the state with the corresponding bytes in the round key.
#[verifier::loop_isolation(false)]
pub fn add_round_key(state: &mut Vec<u8>, w: &[u8], round: usize)
    requires
        old(state)@.len() == 16,
        w@.len() >= 16 * (round + 1),
    ensures
        final(state)@ == spec_add_round_key(old(state)@, w@, round as int),
{
    let wl = w.len();
    assert(16 * round + 16 <= wl);
    let mut i: usize = 0;
    while i < 16
        invariant
            i <= 16,
            state@.len() == 16,
            forall|j: int| 0 <= j < i ==> state@[j] == (old(state)@[j] ^ w@[16 * round + j]),
            forall|j: int| i <= j < 16 ==> state@[j] == old(state)@[j],
        decreases 16 - i,
    {
        let b = state[i] ^ w[16 * round + i];
        state[i] = b;
        i = i + 1;
    }
    assert(state@ =~= spec_add_round_key(old(state)@, w@, round as int));
}

/// The RotWord function defined in the AES specification: rotate a four-byte
/// word left by one position.
pub open spec fn spec_rot_word(s: Seq<u8>) -> Seq<u8> {
    Seq::new(4, |i: int| s[(i + 1) % 4])
}

/// The RotWord function defined in the AES specification.
///
/// Rotates the byte array left by one index.
pub fn rot_word(word: &mut Vec<u8>)
    requires
        old(word)@.len() == 4,
    ensures
        final(word)@ == spec_rot_word(old(word)@),
{
    let first = word[0];
    let b1 = word[1];
    let b2 = word[2];
    let b3 = word[3];
    word[0] = b1;
    word[1] = b2;
    word[2] = b3;
    word[3] = first;
    assert(word@ =~= spec_rot_word(old(word)@));
}

/// The number of words in the cipher key: 4, 6 or 8.
pub open spec fn spec_nk(key: Seq<u8>) -> nat {
    key.len() / 4
}

/// The number of rounds: 10, 12 or 14, depending on the key size.
pub open spec fn spec_nr(key: Seq<u8>) -> nat {
    spec_nk(key) + 6
}

/// Word `i` of the expanded key schedule. The first `nk` words are the key
/// itself; each later word is the XOR of the word `nk` back with the previous
/// word, the latter first rotated, substituted and mixed with a round
/// constant whenever `i` is a multiple of `nk` (and substituted alone in the
/// middle of each 256-bit key stretch).
pub open spec fn spec_key_word(key: Seq<u8>, i: nat) -> Seq<u8>
    decreases i,
{
    let nk = spec_nk(key);
    if nk == 0 {
        Seq::empty()
    } else if i < nk {
        key.subrange(4 * i as int, 4 * i as int + 4)
    } else {
        let prev = spec_key_word(key, (i - 1) as nat);
        let back = spec_key_word(key, (i - nk) as nat);
        let temp = if i % nk == 0 {
            let t = spec_sub_bytes(spec_rot_word(prev));
            t.update(0, t[0] ^ spec_rcon(i as int / nk as int))
        } else if nk > 6 && i % nk == 4 {
            spec_sub_bytes(prev)
        } else {
            prev
        };
        Seq::new(4, |j: int| back[j] ^ temp[j])
    }
}

/// The full key schedule: `4 * (nr + 1)` words laid out as bytes.
pub open spec fn spec_key_expansion(key: Seq<u8>) -> Seq<u8> {
    Seq::new(16 * (spec_nr(key) + 1), |j: int| spec_key_word(key, (j / 4) as nat)[j % 4])
}

/// The KeyExpansion routine defined in the AES specification.
///
/// Expands the key into a longer key schedule. A different part of the key
/// schedule is used each round for the [AddRoundKey](add_round_key)
/// transformation.
#[verifier::loop_isolation(false)]
pub fn key_expansion(key: &[u8]) -> (w: Vec<u8>)
    requires
        key@.len() == 16 || key@.len() == 24 || key@.len() == 32,
    ensures
        w@ == spec_key_expansion(key@),
        w@.len() == 16 * (spec_nr(key@) + 1),
{
    let nk = key.len() / 4;
    let nr = nk + 6;
    let total_words = 4 * (nr + 1);
    let mut w: Vec<u8> = Vec::new();
    let mut i: usize = 0;
    while i < key.len()
        invariant
            i <= key@.len(),
            w@.len() == i,
            forall|j: int| 0 <= j < i ==> w@[j] == key@[j],
        decreases key@.len() - i,
    {
        w.push(key[i]);
        i = i + 1;
    }
    assert forall|jj: int| 0 <= jj < nk implies #[trigger] w@.subrange(4 * jj, 4 * jj + 4)
        == spec_key_word(key@, jj as nat) by {
        assert(w@.subrange(4 * jj, 4 * jj + 4) =~= key@.subrange(4 * jj, 4 * jj + 4));
    }
    let mut iw: usize = nk;
    while iw < total_words
        invariant
            nk <= iw <= total_words,
            w@.len() == 4 * iw,
            forall|jj: int| 0 <= jj < iw ==> #[trigger] w@.subrange(4 * jj, 4 * jj + 4)
                == spec_key_word(key@, jj as nat),
        decreases total_words - iw,
    {
        let ghost w_before = w@;
        let mut temp: Vec<u8> = Vec::new();
        temp.push(w[4 * (iw - 1)]);
        temp.push(w[4 * (iw - 1) + 1]);
        temp.push(w[4 * (iw - 1) + 2]);
        temp.push(w[4 * (iw - 1) + 3]);
        assert(temp@ =~= w@.subrange(4 * ((iw - 1) as int), 4 * ((iw - 1) as int) + 4));
        assert(w@.subrange(4 * ((iw - 1) as int), 4 * ((iw - 1) as int) + 4)
            == spec_key_word(key@, (iw - 1) as nat));
        assert(temp@ == spec_key_word(key@, (iw - 1) as nat));
        if iw % nk == 0 {
            rot_word(&mut temp);
            sub_bytes(&mut temp);
            let t0 = temp[0] ^ rcon(iw / nk);
            temp[0] = t0;
            proof {
                let t = spec_sub_bytes(spec_rot_word(spec_key_word(key@, (iw - 1) as nat)));
                assert(temp@ =~= t.update(0, t[0] ^ spec_rcon(iw as int / nk as int)));
            }
        } else if nk > 6 && iw % nk == 4 {
            sub_bytes(&mut temp);
        }
        let b0 = w[4 * (iw - nk)] ^ temp[0];
        let b1 = w[4 * (iw - nk) + 1] ^ temp[1];
        let b2 = w[4 * (iw - nk) + 2] ^ temp[2];
        let b3 = w[4 * (iw - nk) + 3] ^ temp[3];
        w.push(b0);
        w.push(b1);
        w.push(b2);
        w.push(b3);
        proof {
            let back = spec_key_word(key@, (iw - nk) as nat);
            assert(back == w_before.subrange(4 * (iw - nk), 4 * (iw - nk) + 4));
            assert(w@.subrange(4 * (iw as int), 4 * (iw as int) + 4)
                =~= spec_key_word(key@, iw as nat));
            assert forall|jj: int| 0 <= jj < iw + 1 implies #[trigger] w@.subrange(
                4 * jj,
                4 * jj + 4,
            ) == spec_key_word(key@, jj as nat) by {
                if jj < iw {
                    assert(w@.subrange(4 * jj, 4 * jj + 4)
                        =~= w_before.subrange(4 * jj, 4 * jj + 4));
                }
            }
        }
        iw = iw + 1;
    }
    assert(w@ =~= spec_key_expansion(key@)) by {
        assert forall|j: int| 0 <= j < 16 * (spec_nr(key@) + 1) implies w@[j]
            == spec_key_word(key@, (j / 4) as nat)[j % 4] by {
            let jj = j / 4;
            assert(w@.subrange(4 * jj, 4 * jj + 4) == spec_key_word(key@, jj as nat));
            assert(w@.subrange(4 * jj, 4 * jj + 4)[j % 4] == w@[j]);
        }
    }
    w
}

/// One middle encryption round: SubBytes, ShiftRows, MixColumns, AddRoundKey.
pub open spec fn spec_enc_round(s: Seq<u8>, w: Seq<u8>, r: int) -> Seq<u8> {
    spec_add_round_key(spec_mix_columns(spec_shift_rows(spec_sub_bytes(s))), w, r)
}

/// The first `r` middle encryption rounds applied to `s`.
pub open spec fn spec_enc_rounds(s: Seq<u8>, w: Seq<u8>, r: nat) -> Seq<u8>
    decreases r,
{
    if r == 0 {
        s
    } else {
        spec_enc_round(spec_enc_rounds(s, w, (r - 1) as nat), w, r as int)
    }
}

/// The AES encryption of one 16-byte block: an initial AddRoundKey, `nr - 1`
/// middle rounds, and a final round that omits MixColumns.
pub open spec fn spec_aes_encrypt(data: Seq<u8>, key: Seq<u8>) -> Seq<u8> {
    let w = spec_key_expansion(key);
    let nr = spec_nr(key);
    let mid = spec_enc_rounds(spec_add_round_key(data, w, 0), w, (nr - 1) as nat);
    spec_add_round_key(spec_shift_rows(spec_sub_bytes(mid)), w, nr as int)
}

/// One decryption round: InvShiftRows, InvSubBytes, AddRoundKey,
/// InvMixColumns.
pub open spec fn spec_dec_round(s: Seq<u8>, w: Seq<u8>, r: int) -> Seq<u8> {
    spec_inv_mix_columns(spec_add_round_key(spec_inv_sub_bytes(spec_inv_shift_rows(s)), w, r))
}

/// The decryption rounds for round keys `r` down to `1` applied to `s`.
pub open spec fn spec_dec_rounds(s: Seq<u8>, w: Seq<u8>, r: nat) -> Seq<u8>
    decreases r,
{
    if r == 0 {
        s
    } else {
        spec_dec_rounds(spec_dec_round(s, w, r as int), w, (r - 1) as nat)
    }
}

/// The AES decryption of one 16-byte block: the encryption steps inverted,
/// in reverse order.
pub open spec fn spec_aes_decrypt(data: Seq<u8>, key: Seq<u8>) -> Seq<u8> {
    let w = spec_key_expansion(key);
    let nr = spec_nr(key);
    let mid = spec_dec_rounds(spec_add_round_key(data, w, nr as int), w, (nr - 1) as nat);
    spec_add_round_key(spec_inv_sub_bytes(spec_inv_shift_rows(mid)), w, 0)
}

/// AES encryption routine defined in the AES specification.
///
/// Applies the [SubBytes](sub_bytes), [ShiftRows](shift_rows),
/// [MixColumns](mix_columns), and [AddRoundKey](add_round_key)
/// transformations to the internal state in each round, and returns the
/// resulting state as the ciphertext. The initial state is simply the
/// plaintext block. The encryption key is expanded into round keys using the
/// [KeyExpansion](key_expansion) routine.
#[verifier::loop_isolation(false)]
pub fn encrypt(data: &[u8], key: &[u8]) -> (r: Vec<u8>)
    requires
        data@.len() == 16,
        key@.len() == 16 || key@.len() == 24 || key@.len() == 32,
    ensures
        r@ == spec_aes_encrypt(data@, key@),
        r@.len() == 16,
{
    let nr = key.len() / 4 + 6;
    let mut state = vstd::slice::slice_to_vec(data);
    let w = key_expansion(key);
    add_round_key(&mut state, w.as_slice(), 0);
    let ghost s0 = state@;
    let mut round: usize = 1;
    while round < nr
        invariant
            1 <= round <= nr,
            state@.len() == 16,
            state@ == spec_enc_rounds(s0, w@, (round - 1) as nat),
        decreases nr - round,
    {
        sub_bytes(&mut state);
        shift_rows(&mut state);
        mix_columns(&mut state);
        add_round_key(&mut state, w.as_slice(), round);
        round = round + 1;
    }
    sub_bytes(&mut state);
    shift_rows(&mut state);
    add_round_key(&mut state, w.as_slice(), nr);
    state
}

/// AES decryption routine defined in the AES specification.
///
/// Applies the [InvSubBytes](inv_sub_bytes), [InvShiftRows](inv_shift_rows),
/// [InvMixColumns](inv_mix_columns), and [AddRoundKey](add_round_key)
/// transformations to the internal state in each round, and returns the
/// resulting state as the plaintext. The operations are applied in the
/// opposite order from [encryption](encrypt).
#[verifier::loop_isolation(false)]
pub fn decrypt(data: &[u8], key: &[u8]) -> (r: Vec<u8>)
    requires
        data@.len() == 16,
        key@.len() == 16 || key@.len() == 24 || key@.len() == 32,
    ensures
        r@ == spec_aes_decrypt(data@, key@),
        r@.len() == 16,
{
    let nr = key.len() / 4 + 6;
    let mut state = vstd::slice::slice_to_vec(data);
    let w = key_expansion(key);
    add_round_key(&mut state, w.as_slice(), nr);
    let ghost s0 = state@;
    let mut round: usize = nr - 1;
    while round >= 1
        invariant
            0 <= round <= nr - 1,
            state@.len() == 16,
            spec_dec_rounds(state@, w@, round as nat) == spec_dec_rounds(s0, w@, (nr - 1) as nat),
        decreases round,
    {
        inv_shift_rows(&mut state);
        inv_sub_bytes(&mut state);
        add_round_key(&mut state, w.as_slice(), round);
        inv_mix_columns(&mut state);
        round = round - 1;
    }
    inv_shift_rows(&mut state);
    inv_sub_bytes(&mut state);
    add_round_key(&mut state, w.as_slice(), 0);
    state
}

/// The encryption rounds preserve the 16-byte state length.
proof fn lemma_enc_rounds_len(s: Seq<u8>, w: Seq<u8>, r: nat)
    requires
        s.len() == 16,
    ensures
        spec_enc_rounds(s, w, r).len() == 16,
    decreases r,
{
    if r > 0 {
        lemma_enc_rounds_len(s, w, (r - 1) as nat);
    }
}

/// The encryption of a block is again a 16-byte block.
pub proof fn lemma_aes_encrypt_len(data: Seq<u8>, key: Seq<u8>)
    requires
        data.len() == 16,
    ensures
        spec_aes_encrypt(data, key).len() == 16,
{
    let w = spec_key_expansion(key);
    lemma_enc_rounds_len(spec_add_round_key(data, w, 0), w, (spec_nr(key) - 1) as nat);
}

/// The inverse S-box inverts the S-box on every byte.
#[verifier::rlimit(100)]
#[verifier::spinoff_prover]
pub proof fn lemma_s_box_inverse()
    ensures
        forall|b: u8| #[trigger] spec_inv_s_box(spec_s_box(b)) == b,
{
    assert(forall|b: u8| #[trigger] spec_inv_s_box(spec_s_box(b)) == b) by (bit_vector);
}

/// InvSubBytes inverts SubBytes.
pub proof fn lemma_sub_bytes_inverse(s: Seq<u8>)
    ensures
        spec_inv_sub_bytes(spec_sub_bytes(s)) == s,
{
    lemma_s_box_inverse();
    assert(spec_inv_sub_bytes(spec_sub_bytes(s)) =~= s);
}

/// InvShiftRows inverts ShiftRows.
pub proof fn lemma_shift_rows_inverse(s: Seq<u8>)
    requires
        s.len() == 16,
    ensures
        spec_inv_shift_rows(spec_shift_rows(s)) == s,
{
    assert forall|i: int| 0 <= i < 16 implies spec_inv_shift_rows(spec_shift_rows(s))[i] == s[i] by {
        assert(0 <= spec_inv_shift_src(i) < 16 && spec_shift_src(spec_inv_shift_src(i)) == i);
    }
    assert(spec_inv_shift_rows(spec_shift_rows(s)) =~= s);
}

/// Adding the same round key twice gives the state back: XOR cancels itself.
pub proof fn lemma_add_round_key_inverse(s: Seq<u8>, w: Seq<u8>, r: int)
    ensures
        spec_add_round_key(spec_add_round_key(s, w, r), w, r) == s,
{
    assert forall|i: int| 0 <= i < s.len() implies spec_add_round_key(
        spec_add_round_key(s, w, r),
        w,
        r,
    )[i] == s[i] by {
        let a = s[i];
        let k = w[16 * r + i];
        assert((a ^ k) ^ k == a) by (bit_vector);
    }
    assert(spec_add_round_key(spec_add_round_key(s, w, r), w, r) =~= s);
}


/// Branch-free form of [`spec_times_02`], with the conditional reduction
/// expressed as a multiplication by the high bit; the bit-vector solver
/// handles this form far more cheaply.
spec fn spec_gf_double(b: u8) -> u8 {
    (((b << 1) as u8) ^ ((((b >> 7) & 1) * 0x1b) as u8)) as u8
}

spec fn spec_gf_03(b: u8) -> u8 {
    spec_gf_double(b) ^ b
}

spec fn spec_gf_04(b: u8) -> u8 {
    spec_gf_double(spec_gf_double(b))
}

spec fn spec_gf_08(b: u8) -> u8 {
    spec_gf_double(spec_gf_04(b))
}

spec fn spec_gf_09(b: u8) -> u8 {
    spec_gf_08(b) ^ b
}

spec fn spec_gf_0b(b: u8) -> u8 {
    spec_gf_08(b) ^ spec_gf_03(b)
}

spec fn spec_gf_0d(b: u8) -> u8 {
    spec_gf_08(b) ^ spec_gf_04(b) ^ b
}

spec fn spec_gf_0e(b: u8) -> u8 {
    spec_gf_08(b) ^ spec_gf_04(b) ^ spec_gf_double(b)
}

/// The GF(2^8) multiplications agree with their branch-free forms.
proof fn lemma_gf_bridge()
    by (bit_vector)
    ensures
        forall|b: u8| #[trigger] spec_times_02(b) == spec_gf_double(b),
        forall|b: u8| #[trigger] spec_times_03(b) == spec_gf_03(b),
        forall|b: u8| #[trigger] spec_times_09(b) == spec_gf_09(b),
        forall|b: u8| #[trigger] spec_times_0b(b) == spec_gf_0b(b),
        forall|b: u8| #[trigger] spec_times_0d(b) == spec_gf_0d(b),
        forall|b: u8| #[trigger] spec_times_0e(b) == spec_gf_0e(b),
{
}

/// Row 0 of the product of the InvMixColumns and MixColumns matrices: the
/// convolution of the coefficients 0e, 0b, 0d, 09 with 02, 03, 01, 01 is 01.
#[verifier::rlimit(100)]
#[verifier::spinoff_prover]
proof fn lemma_gf_mix_row0(s0: u8, s1: u8, s2: u8, s3: u8)
    by (bit_vector)
    ensures
        spec_gf_0e(spec_gf_double(s0) ^ spec_gf_03(s1) ^ s2 ^ s3) ^ spec_gf_0b(
            s0 ^ spec_gf_double(s1) ^ spec_gf_03(s2) ^ s3,
        ) ^ spec_gf_0d(s0 ^ s1 ^ spec_gf_double(s2) ^ spec_gf_03(s3)) ^ spec_gf_09(
            spec_gf_03(s0) ^ s1 ^ s2 ^ spec_gf_double(s3),
        ) == s0,
{
}

/// Row 1 of the matrix product.
#[verifier::rlimit(100)]
#[verifier::spinoff_prover]
proof fn lemma_gf_mix_row1(s0: u8, s1: u8, s2: u8, s3: u8)
    by (bit_vector)
    ensures
        spec_gf_09(spec_gf_double(s0) ^ spec_gf_03(s1) ^ s2 ^ s3) ^ spec_gf_0e(
            s0 ^ spec_gf_double(s1) ^ spec_gf_03(s2) ^ s3,
        ) ^ spec_gf_0b(s0 ^ s1 ^ spec_gf_double(s2) ^ spec_gf_03(s3)) ^ spec_gf_0d(
            spec_gf_03(s0) ^ s1 ^ s2 ^ spec_gf_double(s3),
        ) == s1,
{
}

/// Row 2 of the matrix product.
#[verifier::rlimit(100)]
#[verifier::spinoff_prover]
proof fn lemma_gf_mix_row2(s0: u8, s1: u8, s2: u8, s3: u8)
    by (bit_vector)
    ensures
        spec_gf_0d(spec_gf_double(s0) ^ spec_gf_03(s1) ^ s2 ^ s3) ^ spec_gf_09(
            s0 ^ spec_gf_double(s1) ^ spec_gf_03(s2) ^ s3,
        ) ^ spec_gf_0e(s0 ^ s1 ^ spec_gf_double(s2) ^ spec_gf_03(s3)) ^ spec_gf_0b(
            spec_gf_03(s0) ^ s1 ^ s2 ^ spec_gf_double(s3),
        ) == s2,
{
}

/// Row 3 of the matrix product.
#[verifier::rlimit(100)]
#[verifier::spinoff_prover]
proof fn lemma_gf_mix_row3(s0: u8, s1: u8, s2: u8, s3: u8)
    by (bit_vector)
    ensures
        spec_gf_0b(spec_gf_double(s0) ^ spec_gf_03(s1) ^ s2 ^ s3) ^ spec_gf_0d(
            s0 ^ spec_gf_double(s1) ^ spec_gf_03(s2) ^ s3,
        ) ^ spec_gf_09(s0 ^ s1 ^ spec_gf_double(s2) ^ spec_gf_03(s3)) ^ spec_gf_0e(
            spec_gf_03(s0) ^ s1 ^ s2 ^ spec_gf_double(s3),
        ) == s3,
{
}

/// InvMixColumns inverts MixColumns: the two GF(2^8) matrices multiply to
/// the identity, checked column-wise on the four rotations of the rows.
#[verifier::rlimit(100)]
#[verifier::spinoff_prover]
pub proof fn lemma_mix_columns_inverse(s: Seq<u8>)
    requires
        s.len() == 16,
    ensures
        spec_inv_mix_columns(spec_mix_columns(s)) == s,
{
    assert forall|i: int| 0 <= i < 16 implies spec_inv_mix_columns(spec_mix_columns(s))[i]
        == s[i] by {
        let base = 4 * (i / 4);
        assert(0 <= base && base + 3 < 16);
        let s0 = s[base];
        let s1 = s[base + 1];
        let s2 = s[base + 2];
        let s3 = s[base + 3];
        let m = spec_mix_columns(s);
        assert(m[base] == spec_mix_byte(s, base));
        assert(m[base + 1] == spec_mix_byte(s, base + 1));
        assert(m[base + 2] == spec_mix_byte(s, base + 2));
        assert(m[base + 3] == spec_mix_byte(s, base + 3));
        assert(4 * ((base + 1) / 4) == base && 4 * ((base + 2) / 4) == base && 4 * ((base + 3) / 4)
            == base);
        let m0 = spec_times_02(s0) ^ spec_times_03(s1) ^ s2 ^ s3;
        let m1 = s0 ^ spec_times_02(s1) ^ spec_times_03(s2) ^ s3;
        let m2 = s0 ^ s1 ^ spec_times_02(s2) ^ spec_times_03(s3);
        let m3 = spec_times_03(s0) ^ s1 ^ s2 ^ spec_times_02(s3);
        lemma_gf_bridge();
        let g0 = spec_gf_double(s0) ^ spec_gf_03(s1) ^ s2 ^ s3;
        let g1 = s0 ^ spec_gf_double(s1) ^ spec_gf_03(s2) ^ s3;
        let g2 = s0 ^ s1 ^ spec_gf_double(s2) ^ spec_gf_03(s3);
        let g3 = spec_gf_03(s0) ^ s1 ^ s2 ^ spec_gf_double(s3);
        assert(m0 == g0 && m1 == g1 && m2 == g2 && m3 == g3);
        if i % 4 == 0 {
            lemma_gf_mix_row0(s0, s1, s2, s3);
            assert(spec_times_0e(m0) ^ spec_times_0b(m1) ^ spec_times_0d(m2) ^ spec_times_09(m3)
                == spec_gf_0e(g0) ^ spec_gf_0b(g1) ^ spec_gf_0d(g2) ^ spec_gf_09(g3));
        } else if i % 4 == 1 {
            lemma_gf_mix_row1(s0, s1, s2, s3);
            assert(spec_times_09(m0) ^ spec_times_0e(m1) ^ spec_times_0b(m2) ^ spec_times_0d(m3)
                == spec_gf_09(g0) ^ spec_gf_0e(g1) ^ spec_gf_0b(g2) ^ spec_gf_0d(g3));
        } else if i % 4 == 2 {
            lemma_gf_mix_row2(s0, s1, s2, s3);
            assert(spec_times_0d(m0) ^ spec_times_09(m1) ^ spec_times_0e(m2) ^ spec_times_0b(m3)
                == spec_gf_0d(g0) ^ spec_gf_09(g1) ^ spec_gf_0e(g2) ^ spec_gf_0b(g3));
        } else {
            lemma_gf_mix_row3(s0, s1, s2, s3);
            assert(spec_times_0b(m0) ^ spec_times_0d(m1) ^ spec_times_09(m2) ^ spec_times_0e(m3)
                == spec_gf_0b(g0) ^ spec_gf_0d(g1) ^ spec_gf_09(g2) ^ spec_gf_0e(g3));
        }
    }
    assert(spec_inv_mix_columns(spec_mix_columns(s)) =~= s);
}

/// Running the decryption rounds over the encryption rounds' output peels
/// them all off: what remains is the state before the first middle round,
/// still wearing the final SubBytes and ShiftRows.
proof fn lemma_dec_rounds_undo(s: Seq<u8>, w: Seq<u8>, r: nat)
    requires
        s.len() == 16,
    ensures
        spec_dec_rounds(spec_shift_rows(spec_sub_bytes(spec_enc_rounds(s, w, r))), w, r)
            == spec_shift_rows(spec_sub_bytes(s)),
    decreases r,
{
    if r > 0 {
        let prev = spec_enc_rounds(s, w, (r - 1) as nat);
        lemma_enc_rounds_len(s, w, (r - 1) as nat);
        let cur = spec_enc_rounds(s, w, r);
        lemma_enc_rounds_len(s, w, r);
        let x = spec_shift_rows(spec_sub_bytes(cur));
        lemma_shift_rows_inverse(spec_sub_bytes(cur));
        lemma_sub_bytes_inverse(cur);
        lemma_add_round_key_inverse(
            spec_mix_columns(spec_shift_rows(spec_sub_bytes(prev))),
            w,
            r as int,
        );
        lemma_mix_columns_inverse(spec_shift_rows(spec_sub_bytes(prev)));
        assert(spec_dec_round(x, w, r as int) == spec_shift_rows(spec_sub_bytes(prev)));
        lemma_dec_rounds_undo(s, w, (r - 1) as nat);
    }
}

/// AES decryption inverts AES encryption for every block and every supported
/// key size.
pub proof fn lemma_aes_round_trip(data: Seq<u8>, key: Seq<u8>)
    requires
        data.len() == 16,
        key.len() == 16 || key.len() == 24 || key.len() == 32,
    ensures
        spec_aes_decrypt(spec_aes_encrypt(data, key), key) == data,
{
    let w = spec_key_expansion(key);
    let nr = spec_nr(key);
    let s0 = spec_add_round_key(data, w, 0);
    let mid = spec_enc_rounds(s0, w, (nr - 1) as nat);
    lemma_enc_rounds_len(s0, w, (nr - 1) as nat);
    lemma_add_round_key_inverse(spec_shift_rows(spec_sub_bytes(mid)), w, nr as int);
    lemma_dec_rounds_undo(s0, w, (nr - 1) as nat);
    lemma_shift_rows_inverse(spec_sub_bytes(s0));
    lemma_sub_bytes_inverse(s0);
    lemma_add_round_key_inverse(data, w, 0);
}

/// The [AES block cipher](self) with 128-bit keys.
#[derive(Debug, Clone, Copy, PartialEq, Eq)]
pub struct Aes128;

/// The [AES block cipher](self) with 192-bit keys.
#[derive(Debug, Clone, Copy, PartialEq, Eq)]
pub struct Aes192;

/// The [AES block cipher](self) with 256-bit keys.
#[derive(Debug, Clone, Copy, PartialEq, Eq)]
pub struct Aes256;

impl Default for Aes128 {
    fn default() -> (r: Self)
        ensures
            r == Aes128,
    {
        Aes128
    }
}

impl Default for Aes192 {
    fn default() -> (r: Self)
        ensures
            r == Aes192,
    {
        Aes192
    }
}

impl Default for Aes256 {
    fn default() -> (r: Self)
        ensures
            r == Aes256,
    {
        Aes256
    }
}

impl BlockEncrypt for Aes128 {
    open spec fn spec_block_size(&self) -> nat {
        16
    }

    open spec fn spec_key_size(&self) -> nat {
        16
    }

    fn block_size(&self) -> (r: usize) {
        16
    }

    fn key_size(&self) -> (r: usize) {
        16
    }

    open spec fn spec_encrypt_block(&self, block: Seq<u8>, key: Seq<u8>) -> Seq<u8> {
        spec_aes_encrypt(block, key)
    }

    proof fn lemma_encrypt_len(&self, block: Seq<u8>, key: Seq<u8>) {
        lemma_aes_encrypt_len(block, key);
    }

    fn encrypt_block(&self, block: &[u8], key: &[u8]) -> (r: Vec<u8>) {
        encrypt(block, key)
    }
}

impl BlockDecrypt for Aes128 {
    open spec fn spec_decrypt_block(&self, block: Seq<u8>, key: Seq<u8>) -> Seq<u8> {
        spec_aes_decrypt(block, key)
    }

    proof fn lemma_decrypt_len(&self, block: Seq<u8>, key: Seq<u8>) {
    }

    fn decrypt_block(&self, block: &[u8], key: &[u8]) -> (r: Vec<u8>) {
        decrypt(block, key)
    }
}

impl BlockCipher for Aes128 {
    proof fn lemma_block_round_trip(&self, block: Seq<u8>, key: Seq<u8>) {
        lemma_aes_round_trip(block, key);
    }
}

impl BlockEncrypt for Aes192 {
    open spec fn spec_block_size(&self) -> nat {
        16
    }

    open spec fn spec_key_size(&self) -> nat {
        24
    }

    fn block_size(&self) -> (r: usize) {
        16
    }

    fn key_size(&self) -> (r: usize) {
        24
    }

    open spec fn spec_encrypt_block(&self, block: Seq<u8>, key: Seq<u8>) -> Seq<u8> {
        spec_aes_encrypt(block, key)
    }

    proof fn lemma_encrypt_len(&self, block: Seq<u8>, key: Seq<u8>) {
        lemma_aes_encrypt_len(block, key);
    }

    fn encrypt_block(&self, block: &[u8], key: &[u8]) -> (r: Vec<u8>) {
        encrypt(block, key)
    }
}

impl BlockDecrypt for Aes192 {
    open spec fn spec_decrypt_block(&self, block: Seq<u8>, key: Seq<u8>) -> Seq<u8> {
        spec_aes_decrypt(block, key)
    }

    proof fn lemma_decrypt_len(&self, block: Seq<u8>, key: Seq<u8>) {
    }

    fn decrypt_block(&self, block: &[u8], key: &[u8]) -> (r: Vec<u8>) {
        decrypt(block, key)
    }
}

impl BlockCipher for Aes192 {
    proof fn lemma_block_round_trip(&self, block: Seq<u8>, key: Seq<u8>) {
        lemma_aes_round_trip(block, key);
    }
}

impl BlockEncrypt for Aes256 {
    open spec fn spec_block_size(&self) -> nat {
        16
    }

    open spec fn spec_key_size(&self) -> nat {
        32
    }

    fn block_size(&self) -> (r: usize) {
        16
    }

    fn key_size(&self) -> (r: usize) {
        32
    }

    open spec fn spec_encrypt_block(&self, block: Seq<u8>, key: Seq<u8>) -> Seq<u8> {
        spec_aes_encrypt(block, key)
    }

    proof fn lemma_encrypt_len(&self, block: Seq<u8>, key: Seq<u8>) {
        lemma_aes_encrypt_len(block, key);
    }

    fn encrypt_block(&self, block: &[u8], key: &[u8]) -> (r: Vec<u8>) {
        encrypt(block, key)
    }
}

impl BlockDecrypt for Aes256 {
    open spec fn spec_decrypt_block(&self, block: Seq<u8>, key: Seq<u8>) -> Seq<u8> {
        spec_aes_decrypt(block, key)
    }

    proof fn lemma_decrypt_len(&self, block: Seq<u8>, key: Seq<u8>) {
    }

    fn decrypt_block(&self, block: &[u8], key: &[u8]) -> (r: Vec<u8>) {
        decrypt(block, key)
    }
}

impl BlockCipher for Aes256 {
    proof fn lemma_block_round_trip(&self, block: Seq<u8>, key: Seq<u8>) {
        lemma_aes_round_trip(block, key);
    }
}

} // verus!
