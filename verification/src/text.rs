//! Wrapper types that tell plaintext and ciphertext apart.
//!
//! The wrappers exist for type safety only: they carry no data beyond the
//! wrapped bytes, and there is no implicit conversion between them, so a
//! caller cannot hand a ciphertext where a plaintext is expected without
//! saying so.

use vstd::prelude::*;

verus! {

/// Unencrypted data.
#[derive(Debug, Clone, Copy, PartialEq, Eq)]
pub struct Plaintext<T>(pub T);

/// Encrypted data.
#[derive(Debug, Clone, Copy, PartialEq, Eq)]
pub struct Ciphertext<T>(pub T);

} // verus!
