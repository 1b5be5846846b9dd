//! Ceremony parameters and the byte lengths of the files that follow from them.

use vstd::prelude::*;

verus! {

/// Width in bytes of a transcript digest, and so of the header of every file.
pub const DIGEST_LEN: usize = 64;

/// The two byte layouts in which an accumulator is stored.
#[derive(Clone, Copy, PartialEq, Eq, Debug, Structural)]
pub enum Encoding {
    /// The smallest valid encoding of each element.
    Compressed,
    /// Raw coordinates: larger, cheaper to decode.
    Uncompressed,
}

/// The byte sizes that are fixed when a ceremony starts.
///
/// `accumulator_size` is the length of an uncompressed accumulator with its
/// digest header, `contribution_size` the length of a compressed accumulator
/// with its digest header and the public commitment behind it, and
/// `public_key_size` the length of the public commitment alone.
#[derive(Clone, Copy, Debug, PartialEq, Eq)]
pub struct Parameters {
    accumulator_size: usize,
    contribution_size: usize,
    public_key_size: usize,
}

/// Whether three sizes can belong to one ceremony: each accumulator has room
/// for its digest header, the contribution has room for the commitment as
/// well, and no file is longer than the longest buffer that the machine can
/// hold.
pub open spec fn sizes_fit(
    accumulator_size: int,
    contribution_size: int,
    public_key_size: int,
) -> bool {
    &&& DIGEST_LEN <= accumulator_size
    &&& DIGEST_LEN + public_key_size <= contribution_size
    &&& accumulator_size + public_key_size <= isize::MAX
    &&& contribution_size <= isize::MAX
}

impl Parameters {
    /// Every value of this type holds sizes that fit.
    #[verifier::type_invariant]
    pub open spec fn wf(&self) -> bool {
        sizes_fit(
            self.spec_accumulator_size() as int,
            self.spec_contribution_size() as int,
            self.spec_public_key_size() as int,
        )
    }

    pub closed spec fn spec_accumulator_size(&self) -> usize {
        self.accumulator_size
    }

    pub closed spec fn spec_contribution_size(&self) -> usize {
        self.contribution_size
    }

    pub closed spec fn spec_public_key_size(&self) -> usize {
        self.public_key_size
    }

    /// Length of the digest header and the accumulator in `encoding`, without
    /// a commitment.
    pub open spec fn accumulator_len(&self, encoding: Encoding) -> int {
        match encoding {
            Encoding::Uncompressed => self.spec_accumulator_size() as int,
            Encoding::Compressed => self.spec_contribution_size() - self.spec_public_key_size(),
        }
    }

    /// Exact length of a file: the accumulator in `encoding` and, for a
    /// response, the public commitment behind it.
    pub open spec fn spec_size_of(&self, encoding: Encoding, include_commitment: bool) -> int {
        self.accumulator_len(encoding) + if include_commitment {
            self.spec_public_key_size() as int
        } else {
            0
        }
    }

    /// Length of the challenge that a contribution starts from. An
    /// uncompressed challenge is a bare accumulator; a compressed one is an
    /// earlier response, commitment included.
    pub open spec fn spec_challenge_size(&self, encoding: Encoding) -> int {
        self.spec_size_of(encoding, encoding is Compressed)
    }

    /// Takes the three sizes of a ceremony, or refuses them when they do not
    /// fit.
    pub fn new(
        accumulator_size: usize,
        contribution_size: usize,
        public_key_size: usize,
    ) -> (out: Option<Parameters>)
        ensures
            out is Some <==> sizes_fit(
                accumulator_size as int,
                contribution_size as int,
                public_key_size as int,
            ),
            out matches Some(p) ==> ({
                &&& p.wf()
                &&& p.spec_accumulator_size() == accumulator_size
                &&& p.spec_contribution_size() == contribution_size
                &&& p.spec_public_key_size() == public_key_size
            }),
    {
        let longest: usize = isize::MAX as usize;
        if accumulator_size < DIGEST_LEN || accumulator_size > longest || public_key_size > longest
            - accumulator_size {
            return None;
        }
        if contribution_size < DIGEST_LEN || contribution_size > longest || contribution_size
            - DIGEST_LEN < public_key_size {
            return None;
        }
        Some(Parameters { accumulator_size, contribution_size, public_key_size })
    }

    /// Length of an uncompressed accumulator with its digest header.
    pub fn accumulator_size(&self) -> (size: usize)
        ensures
            size == self.spec_accumulator_size(),
    {
        self.accumulator_size
    }

    /// Length of a compressed accumulator with its digest header and the
    /// public commitment.
    pub fn contribution_size(&self) -> (size: usize)
        ensures
            size == self.spec_contribution_size(),
    {
        self.contribution_size
    }

    /// Length of the public commitment.
    pub fn public_key_size(&self) -> (size: usize)
        ensures
            size == self.spec_public_key_size(),
    {
        self.public_key_size
    }

    /// The exact byte length that a file must have.
    pub fn size_of(&self, encoding: Encoding, include_commitment: bool) -> (len: usize)
        ensures
            len == self.spec_size_of(encoding, include_commitment),
            self.wf(),
    {
        proof {
            use_type_invariant(self);
        }
        match encoding {
            Encoding::Uncompressed => if include_commitment {
                self.accumulator_size + self.public_key_size
            } else {
                self.accumulator_size
            },
            Encoding::Compressed => if include_commitment {
                self.contribution_size
            } else {
                self.contribution_size - self.public_key_size
            },
        }
    }

    /// The exact byte length of the challenge that a contribution starts
    /// from.
    pub fn challenge_size(&self, encoding: Encoding) -> (len: usize)
        ensures
            len == self.spec_challenge_size(encoding),
            self.wf(),
    {
        match encoding {
            Encoding::Uncompressed => self.size_of(encoding, false),
            Encoding::Compressed => self.size_of(encoding, true),
        }
    }
}

} // verus!
