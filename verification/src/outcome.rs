//! What the driver reports back after it has carried out a request.

use crate::error::Vector;
use vstd::prelude::*;

verus! {

/// The outcome of the one request that is pending. An operation asks for one
/// thing at a time; whatever is reported that does not answer that request
/// counts as its failure.
pub enum Outcome<'a> {
    /// The request was carried out and there is nothing to hand back.
    Done,
    /// A file was opened; this is its length on disk.
    Length(u64),
    /// A file was mapped or read; these are all of its bytes.
    Contents(&'a [u8]),
    /// A buffer that was handed out comes back, filled in.
    Buffer(Vec<u8>),
    /// The transformation met element `index` of `vector` and found it
    /// malformed or outside its subgroup.
    Rejected { vector: Vector, index: usize },
    /// The request could not be carried out.
    Failed,
}

/// An outcome as plain values.
pub enum OutcomeView {
    Done,
    Length(u64),
    Contents(Seq<u8>),
    Buffer(Seq<u8>),
    Rejected { vector: Vector, index: usize },
    Failed,
}

impl<'a> View for Outcome<'a> {
    type V = OutcomeView;

    open spec fn view(&self) -> OutcomeView {
        match *self {
            Outcome::Done => OutcomeView::Done,
            Outcome::Length(len) => OutcomeView::Length(len),
            Outcome::Contents(bytes) => OutcomeView::Contents(bytes@),
            Outcome::Buffer(bytes) => OutcomeView::Buffer(bytes@),
            Outcome::Rejected { vector, index } => OutcomeView::Rejected { vector, index },
            Outcome::Failed => OutcomeView::Failed,
        }
    }
}

} // verus!
