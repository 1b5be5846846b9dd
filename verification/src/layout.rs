//! The fixed layout of a state file: a digest header, then the accumulator,
//! then (in a response) the public commitment.

use crate::digest::{digest_of, blank_digest, Digest};
use crate::error::Error;
use crate::parameters::DIGEST_LEN;
use vstd::prelude::*;

verus! {

/// `len` zero bytes.
pub open spec fn zeros(len: nat) -> Seq<u8> {
    Seq::new(len, |i: int| 0u8)
}

/// `bytes` with `digest` written over its head. The length stays; a buffer
/// shorter than the digest takes as much of it as it can hold.
pub open spec fn with_header(bytes: Seq<u8>, digest: Seq<u8>) -> Seq<u8> {
    Seq::new(
        bytes.len(),
        |i: int|
            if i < digest.len() {
                digest[i]
            } else {
                bytes[i]
            },
    )
}

/// The digest that a file carries at its head.
pub open spec fn header_of(file: Seq<u8>) -> Seq<u8> {
    file.subrange(0, DIGEST_LEN as int)
}

/// Whether `file` is a link behind `predecessor` in the hash chain: its
/// header is the digest of all of `predecessor`.
pub open spec fn follows(file: Seq<u8>, predecessor: Seq<u8>) -> bool {
    file.len() >= DIGEST_LEN && header_of(file) == digest_of(predecessor)
}

/// Whether `file` opens a hash chain: its header is the blank digest.
pub open spec fn opens_chain(file: Seq<u8>) -> bool {
    file.len() >= DIGEST_LEN && header_of(file) == blank_digest()
}

/// The error for `actual` bytes where `expected` are called for.
pub open spec fn size_mismatch(expected: int, actual: int) -> Error {
    Error::SizeMismatch { expected: expected as u64, actual: actual as u64 }
}

/// Writes `digest` over the head of `buffer`.
pub fn stamp(buffer: &mut Vec<u8>, digest: &Digest)
    ensures
        final(buffer)@ == with_header(old(buffer)@, digest@),
{
    let ghost before = buffer@;
    let mut i: usize = 0;
    while i < DIGEST_LEN && i < buffer.len()
        invariant
            i <= DIGEST_LEN,
            buffer@.len() == before.len(),
            forall|j: int| 0 <= j < i ==> buffer@[j] == digest@[j],
            forall|j: int| i <= j < before.len() ==> buffer@[j] == before[j],
        decreases DIGEST_LEN - i,
    {
        buffer.set(i, digest.bytes[i]);
        i += 1;
    }
}

/// A buffer of `len` bytes that holds `digest` at its head and zeros behind.
/// No buffer is longer than `isize::MAX` bytes.
pub fn fresh(len: usize, digest: &Digest) -> (buffer: Vec<u8>)
    requires
        len <= isize::MAX,
    ensures
        buffer@ == with_header(zeros(len as nat), digest@),
{
    let mut buffer = vec![0u8; len];
    stamp(&mut buffer, digest);
    buffer
}

/// Reads the digest at the head of `file`, if the file is long enough to
/// have one.
pub fn header(file: &[u8]) -> (out: Option<Digest>)
    ensures
        out is Some <==> file@.len() >= DIGEST_LEN,
        out matches Some(digest) ==> digest@ == header_of(file@),
{
    if file.len() < DIGEST_LEN {
        return None;
    }
    let mut bytes = [0u8; DIGEST_LEN];
    let mut i: usize = 0;
    while i < DIGEST_LEN
        invariant
            i <= DIGEST_LEN,
            file@.len() >= DIGEST_LEN,
            forall|j: int| 0 <= j < i ==> bytes@[j] == file@[j],
        decreases DIGEST_LEN - i,
    {
        bytes[i] = file[i];
        i += 1;
    }
    Some(Digest { bytes })
}

/// Compares the length of a file, or of a buffer that came back, with the
/// length that the parameters call for.
pub fn check_length(expected: usize, actual: u64) -> (out: Result<(), Error>)
    ensures
        out is Ok <==> actual == expected,
        out is Err ==> out == Err::<(), Error>(size_mismatch(expected as int, actual as int)),
{
    if actual == expected as u64 {
        Ok(())
    } else {
        Err(Error::SizeMismatch { expected: expected as u64, actual })
    }
}

/// Whether `file` carries the digest of `predecessor` at its head.
pub fn is_successor(file: &[u8], predecessor: &[u8]) -> (linked: bool)
    ensures
        linked <==> follows(file@, predecessor@),
{
    match header(file) {
        Some(found) => found.same(&Digest::of(predecessor)),
        None => false,
    }
}

/// Whether `file` carries the blank digest at its head.
pub fn is_first(file: &[u8]) -> (first: bool)
    ensures
        first <==> opens_chain(file@),
{
    match header(file) {
        Some(found) => found.same(&Digest::blank()),
        None => false,
    }
}

/// Whether `sidecar` holds the digest of `file`, so that the file is the
/// one that the sidecar was written for.
pub fn matches_sidecar(file: &[u8], sidecar: &[u8]) -> (matched: bool)
    ensures
        matched <==> sidecar@ == digest_of(file@),
{
    match Digest::from_bytes(sidecar) {
        Some(recorded) => recorded.same(&Digest::of(file)),
        None => false,
    }
}

} // verus!
