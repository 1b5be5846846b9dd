//! Transcript digests: the BLAKE2b-512 image of a file's bytes.

use crate::parameters::DIGEST_LEN;
use vstd::prelude::*;
use vstd::string::StringExecFns;

verus! {

/// What unkeyed BLAKE2b-512 makes of a byte string.
pub uninterp spec fn blake2b_512(data: Seq<u8>) -> Seq<u8>;

/// The digest of `data`, byte by byte. BLAKE2b-512 yields `DIGEST_LEN` bytes;
/// taking them by index makes that length part of the definition.
pub open spec fn digest_of(data: Seq<u8>) -> Seq<u8> {
    Seq::new(DIGEST_LEN as nat, |i: int| blake2b_512(data)[i])
}

/// The digest of no input at all, which stands at the head of the first
/// challenge of a ceremony, where no earlier file exists.
pub open spec fn blank_digest() -> Seq<u8> {
    digest_of(Seq::empty())
}

/// The sixteen digits of the hexadecimal rendering, in the order of their
/// values.
pub open spec fn hex_digits() -> Seq<char> {
    seq!['0', '1', '2', '3', '4', '5', '6', '7', '8', '9', 'a', 'b', 'c', 'd', 'e', 'f']
}

/// The hexadecimal rendering of `bytes`: two digits for each byte, the high
/// half first.
pub open spec fn hex_of(bytes: Seq<u8>) -> Seq<char> {
    Seq::new(
        2 * bytes.len(),
        |i: int|
            if i % 2 == 0 {
                hex_digits()[bytes[i / 2] as int / 16]
            } else {
                hex_digits()[bytes[i / 2] as int % 16]
            },
    )
}

/// A transcript digest.
#[derive(Clone, Copy, Debug, PartialEq, Eq)]
pub struct Digest {
    pub bytes: [u8; DIGEST_LEN],
}

/// Calls `Digest::digest` of the crate `blake2` on the type `Blake2b512`,
/// which feeds `data` to a fresh hasher without key, salt or personalisation
/// and returns the 64 bytes that it finalises to. Believed, not proved: that
/// those bytes are a function of the bytes of `data` alone, the one that is
/// named `blake2b_512` here.
#[verifier::external_body]
fn blake2b(data: &[u8]) -> (out: [u8; DIGEST_LEN])
    ensures
        out@ == blake2b_512(data@),
{
    <blake2::Blake2b512 as blake2::Digest>::digest(data).into()
}

fn hex_digit(value: u8) -> (out: &'static str)
    requires
        value < 16,
    ensures
        out@ == seq![hex_digits()[value as int]],
{
    proof {
        reveal_strlit("0");
        reveal_strlit("1");
        reveal_strlit("2");
        reveal_strlit("3");
        reveal_strlit("4");
        reveal_strlit("5");
        reveal_strlit("6");
        reveal_strlit("7");
        reveal_strlit("8");
        reveal_strlit("9");
        reveal_strlit("a");
        reveal_strlit("b");
        reveal_strlit("c");
        reveal_strlit("d");
        reveal_strlit("e");
        reveal_strlit("f");
    }
    let out = match value {
        0 => "0",
        1 => "1",
        2 => "2",
        3 => "3",
        4 => "4",
        5 => "5",
        6 => "6",
        7 => "7",
        8 => "8",
        9 => "9",
        10 => "a",
        11 => "b",
        12 => "c",
        13 => "d",
        14 => "e",
        _ => "f",
    };
    out
}

impl View for Digest {
    type V = Seq<u8>;

    open spec fn view(&self) -> Seq<u8> {
        self.bytes@
    }
}

impl Digest {
    /// Computes the digest of `data`.
    pub fn of(data: &[u8]) -> (digest: Digest)
        ensures
            digest@ == digest_of(data@),
    {
        let bytes = blake2b(data);
        Digest { bytes }
    }

    /// The digest that heads the first challenge of a ceremony.
    pub fn blank() -> (digest: Digest)
        ensures
            digest@ == blank_digest(),
    {
        let nothing: Vec<u8> = Vec::new();
        let digest = Digest::of(nothing.as_slice());
        digest
    }

    /// Reads a digest from exactly `DIGEST_LEN` bytes, as a sidecar file
    /// holds them.
    pub fn from_bytes(bytes: &[u8]) -> (out: Option<Digest>)
        ensures
            out is Some <==> bytes@.len() == DIGEST_LEN,
            out matches Some(digest) ==> digest@ == bytes@,
    {
        if bytes.len() != DIGEST_LEN {
            return None;
        }
        let mut copy = [0u8; DIGEST_LEN];
        let mut i: usize = 0;
        while i < DIGEST_LEN
            invariant
                i <= DIGEST_LEN,
                bytes@.len() == DIGEST_LEN,
                forall|j: int| 0 <= j < i ==> copy@[j] == bytes@[j],
            decreases DIGEST_LEN - i,
        {
            copy[i] = bytes[i];
            i += 1;
        }
        Some(Digest { bytes: copy })
    }

    /// Renders the digest for the operator to compare: `2 * DIGEST_LEN`
    /// lower-case hexadecimal digits.
    pub fn to_hex(&self) -> (out: String)
        ensures
            out@ == hex_of(self@),
            out@.len() == 2 * DIGEST_LEN,
    {
        let mut out = String::new();
        let mut i: usize = 0;
        while i < DIGEST_LEN
            invariant
                i <= DIGEST_LEN,
                out@.len() == 2 * i,
                forall|j: int| 0 <= j < 2 * i ==> out@[j] == hex_of(self@)[j],
            decreases DIGEST_LEN - i,
        {
            let byte = self.bytes[i];
            out.append(hex_digit(byte / 16));
            out.append(hex_digit(byte % 16));
            i += 1;
        }
        out
    }

    /// Whether two digests are the same `DIGEST_LEN` bytes.
    pub fn same(&self, other: &Digest) -> (equal: bool)
        ensures
            equal <==> self@ == other@,
    {
        let mut i: usize = 0;
        while i < DIGEST_LEN
            invariant
                i <= DIGEST_LEN,
                forall|j: int| 0 <= j < i ==> self@[j] == other@[j],
            decreases DIGEST_LEN - i,
        {
            if self.bytes[i] != other.bytes[i] {
                return false;
            }
            i += 1;
        }
        assert(self@ =~= other@);
        true
    }
}

/// The digest is a function of the bytes alone: two files with the same
/// bytes have the same digest, so computing it again over unchanged bytes
/// gives the digest that was recorded. It always has `DIGEST_LEN` bytes.
pub proof fn lemma_same_bytes_same_digest(first: Seq<u8>, second: Seq<u8>)
    requires
        first =~= second,
    ensures
        digest_of(first) == digest_of(second),
        digest_of(first).len() == DIGEST_LEN,
{
}

} // verus!
