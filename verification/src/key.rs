//! A wrapper type that marks key material.

use vstd::prelude::*;

verus! {

/// A symmetric key used for encryption and decryption. The wrapper exists
/// for type safety only: it keeps key bytes from being confused with data.
#[derive(Debug, Clone, Copy, PartialEq, Eq)]
pub struct Key<T>(pub T);

} // verus!
