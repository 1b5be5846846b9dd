//! The ways in which a contribution ends early.

use vstd::prelude::*;

verus! {

/// The five vectors of an accumulator, in the order in which a file holds
/// them.
#[derive(Clone, Copy, Debug, PartialEq, Eq, Structural)]
pub enum Vector {
    /// Powers of the secret exponent on the generator of the first group.
    TauG1,
    /// Powers of the secret exponent on the generator of the second group.
    TauG2,
    /// The first-group powers weighted by the first auxiliary secret.
    AlphaG1,
    /// The first-group powers weighted by the second auxiliary secret.
    BetaG1,
    /// The second auxiliary secret alone on the generator of the second group.
    BetaG2,
}

/// Why a contribution was given up. Each is final: nothing is retried, and
/// nothing is published after it.
#[derive(Clone, Copy, Debug, PartialEq, Eq, Structural)]
pub enum Error {
    /// A file, or a buffer that came back, has `actual` bytes where the
    /// parameters call for `expected`.
    SizeMismatch { expected: u64, actual: u64 },
    /// Element `index` of `vector` is malformed or outside its subgroup.
    InvalidGroupElement { vector: Vector, index: usize },
    /// The challenge is stored compressed, and no digest is defined for a
    /// compressed challenge.
    UnsupportedEncoding,
    /// A file could not be created, opened, read or written.
    IoFailure,
    /// The entropy source gave out, or no key could be derived from it.
    EntropyFailure,
}

} // verus!
