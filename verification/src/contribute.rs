//! One contribution: from a challenge to the response and the digests of
//! both.
//!
//! The contribution is a state machine. It asks its driver for one thing at
//! a time (an [`Action`]) and is told how that went (an
//! [`Outcome`](crate::outcome::Outcome)); from the two it decides what comes
//! next. The driver owns the files, the entropy and the curve arithmetic; the
//! machine owns the order of the steps, the lengths, the digests and the
//! verdict.

use crate::digest::{digest_of, Digest};
use crate::error::Error;
use crate::layout::{
    check_length, follows, fresh, header_of, size_mismatch, stamp, with_header, zeros,
};
use crate::outcome::{Outcome, OutcomeView};
use crate::parameters::{Encoding, Parameters};
use vstd::prelude::*;

verus! {

/// What the driver is asked to do next.
#[derive(Debug, PartialEq, Eq)]
pub enum Action {
    /// Open the challenge file for reading and report its length.
    OpenChallenge,
    /// Map the challenge file read-only and report its contents.
    MapChallenge,
    /// Show this digest of the challenge to the operator and write it to the
    /// challenge's sidecar file.
    StoreChallengeDigest(Digest),
    /// Derive the key pair of this contribution from the entropy source,
    /// bound to this digest.
    DeriveKey(Digest),
    /// Transform the challenge, stored in `input`, under the secret key into
    /// `buffer`, stored in `output`, and hand the buffer back.
    Transform { buffer: Vec<u8>, input: Encoding, output: Encoding },
    /// Write the public key behind the accumulator in `buffer`, stored in
    /// `encoding`, and hand the buffer back.
    AppendCommitment { buffer: Vec<u8>, encoding: Encoding },
    /// Write these bytes, and nothing else, to a fresh response file.
    PersistResponse(Vec<u8>),
    /// Read the response file back from disk and report its contents.
    ReadResponse,
    /// Show this digest of the response to the operator and write it to the
    /// response's sidecar file.
    StoreResponseDigest(Digest),
    /// The contribution is complete.
    Finish,
    /// The contribution is given up for this reason.
    Abort(Error),
}

/// An action as plain values.
pub enum ActionView {
    OpenChallenge,
    MapChallenge,
    StoreChallengeDigest(Seq<u8>),
    DeriveKey(Seq<u8>),
    Transform { buffer: Seq<u8>, input: Encoding, output: Encoding },
    AppendCommitment { buffer: Seq<u8>, encoding: Encoding },
    PersistResponse(Seq<u8>),
    ReadResponse,
    StoreResponseDigest(Seq<u8>),
    Finish,
    Abort(Error),
}

impl View for Action {
    type V = ActionView;

    open spec fn view(&self) -> ActionView {
        match *self {
            Action::OpenChallenge => ActionView::OpenChallenge,
            Action::MapChallenge => ActionView::MapChallenge,
            Action::StoreChallengeDigest(digest) => ActionView::StoreChallengeDigest(digest@),
            Action::DeriveKey(digest) => ActionView::DeriveKey(digest@),
            Action::Transform { buffer, input, output } => ActionView::Transform {
                buffer: buffer@,
                input,
                output,
            },
            Action::AppendCommitment { buffer, encoding } => ActionView::AppendCommitment {
                buffer: buffer@,
                encoding,
            },
            Action::PersistResponse(bytes) => ActionView::PersistResponse(bytes@),
            Action::ReadResponse => ActionView::ReadResponse,
            Action::StoreResponseDigest(digest) => ActionView::StoreResponseDigest(digest@),
            Action::Finish => ActionView::Finish,
            Action::Abort(error) => ActionView::Abort(error),
        }
    }
}

/// Which request is pending. Each phase is named after the request whose
/// outcome it waits for; the digest that some of them carry is the digest of
/// the challenge.
pub enum PhaseView {
    Opening,
    Mapping,
    StoringChallengeDigest(Seq<u8>),
    DerivingKey(Seq<u8>),
    Transforming(Seq<u8>),
    Committing(Seq<u8>),
    Persisting,
    Rehashing,
    StoringResponseDigest,
    Finished,
    Failed(Error),
}

/// A contribution as plain values.
pub struct StateView {
    pub params: Parameters,
    pub input: Encoding,
    pub output: Encoding,
    pub phase: PhaseView,
}

enum Phase {
    Opening,
    Mapping,
    StoringChallengeDigest(Digest),
    DerivingKey(Digest),
    Transforming(Digest),
    Committing(Digest),
    Persisting,
    Rehashing,
    StoringResponseDigest,
    Finished,
    Failed(Error),
}

/// A contribution under way.
pub struct State {
    params: Parameters,
    input: Encoding,
    output: Encoding,
    phase: Phase,
}

impl View for Phase {
    type V = PhaseView;

    closed spec fn view(&self) -> PhaseView {
        match *self {
            Phase::Opening => PhaseView::Opening,
            Phase::Mapping => PhaseView::Mapping,
            Phase::StoringChallengeDigest(digest) => PhaseView::StoringChallengeDigest(digest@),
            Phase::DerivingKey(digest) => PhaseView::DerivingKey(digest@),
            Phase::Transforming(digest) => PhaseView::Transforming(digest@),
            Phase::Committing(digest) => PhaseView::Committing(digest@),
            Phase::Persisting => PhaseView::Persisting,
            Phase::Rehashing => PhaseView::Rehashing,
            Phase::StoringResponseDigest => PhaseView::StoringResponseDigest,
            Phase::Finished => PhaseView::Finished,
            Phase::Failed(error) => PhaseView::Failed(error),
        }
    }
}

impl View for State {
    type V = StateView;

    closed spec fn view(&self) -> StateView {
        StateView {
            params: self.params,
            input: self.input,
            output: self.output,
            phase: self.phase@,
        }
    }
}

impl StateView {
    /// Length that the challenge must have.
    pub open spec fn challenge_len(self) -> int {
        self.params.spec_challenge_size(self.input)
    }

    /// Length that the response must have: the accumulator as it is written
    /// and the public commitment behind it.
    pub open spec fn response_len(self) -> int {
        self.params.spec_size_of(self.output, true)
    }

    /// This contribution in another phase, with the request that the phase
    /// waits for.
    pub open spec fn proceed(self, phase: PhaseView, action: ActionView) -> (StateView, ActionView) {
        (StateView { phase, ..self }, action)
    }

    /// This contribution given up.
    pub open spec fn fail(self, error: Error) -> (StateView, ActionView) {
        (StateView { phase: PhaseView::Failed(error), ..self }, ActionView::Abort(error))
    }
}

/// A contribution before its first step.
pub open spec fn initial(params: Parameters, input: Encoding, output: Encoding) -> (
    StateView,
    ActionView,
) {
    (StateView { params, input, output, phase: PhaseView::Opening }, ActionView::OpenChallenge)
}

/// The step that a contribution takes on the outcome of its pending request:
/// the state it is in afterwards, and what it asks for next.
///
/// A request that was answered as expected leads to the next one. Any other
/// outcome ends the contribution, with the error that belongs to the request
/// that failed. A contribution that has ended stays as it is.
pub open spec fn step(s: StateView, outcome: OutcomeView) -> (StateView, ActionView) {
    match s.phase {
        PhaseView::Opening => match outcome {
            OutcomeView::Length(len) => if len == s.challenge_len() {
                s.proceed(PhaseView::Mapping, ActionView::MapChallenge)
            } else {
                s.fail(size_mismatch(s.challenge_len(), len as int))
            },
            _ => s.fail(Error::IoFailure),
        },
        PhaseView::Mapping => match outcome {
            OutcomeView::Contents(challenge) => if challenge.len() != s.challenge_len() {
                s.fail(size_mismatch(s.challenge_len(), challenge.len() as int))
            } else if s.input is Compressed {
                s.fail(Error::UnsupportedEncoding)
            } else {
                s.proceed(
                    PhaseView::StoringChallengeDigest(digest_of(challenge)),
                    ActionView::StoreChallengeDigest(digest_of(challenge)),
                )
            },
            _ => s.fail(Error::IoFailure),
        },
        PhaseView::StoringChallengeDigest(digest) => match outcome {
            OutcomeView::Done => s.proceed(
                PhaseView::DerivingKey(digest),
                ActionView::DeriveKey(digest),
            ),
            _ => s.fail(Error::IoFailure),
        },
        PhaseView::DerivingKey(digest) => match outcome {
            OutcomeView::Done => s.proceed(
                PhaseView::Transforming(digest),
                ActionView::Transform {
                    buffer: with_header(zeros(s.response_len() as nat), digest),
                    input: s.input,
                    output: s.output,
                },
            ),
            _ => s.fail(Error::EntropyFailure),
        },
        PhaseView::Transforming(digest) => match outcome {
            OutcomeView::Buffer(buffer) => if buffer.len() == s.response_len() {
                s.proceed(
                    PhaseView::Committing(digest),
                    ActionView::AppendCommitment { buffer, encoding: s.output },
                )
            } else {
                s.fail(size_mismatch(s.response_len(), buffer.len() as int))
            },
            OutcomeView::Rejected { vector, index } => s.fail(
                Error::InvalidGroupElement { vector, index },
            ),
            _ => s.fail(Error::IoFailure),
        },
        PhaseView::Committing(digest) => match outcome {
            OutcomeView::Buffer(buffer) => if buffer.len() == s.response_len() {
                s.proceed(
                    PhaseView::Persisting,
                    ActionView::PersistResponse(with_header(buffer, digest)),
                )
            } else {
                s.fail(size_mismatch(s.response_len(), buffer.len() as int))
            },
            _ => s.fail(Error::IoFailure),
        },
        PhaseView::Persisting => match outcome {
            OutcomeView::Done => s.proceed(PhaseView::Rehashing, ActionView::ReadResponse),
            _ => s.fail(Error::IoFailure),
        },
        PhaseView::Rehashing => match outcome {
            OutcomeView::Contents(response) => if response.len() == s.response_len() {
                s.proceed(
                    PhaseView::StoringResponseDigest,
                    ActionView::StoreResponseDigest(digest_of(response)),
                )
            } else {
                s.fail(size_mismatch(s.response_len(), response.len() as int))
            },
            _ => s.fail(Error::IoFailure),
        },
        PhaseView::StoringResponseDigest => match outcome {
            OutcomeView::Done => s.proceed(PhaseView::Finished, ActionView::Finish),
            _ => s.fail(Error::IoFailure),
        },
        PhaseView::Finished => (s, ActionView::Finish),
        PhaseView::Failed(error) => (s, ActionView::Abort(error)),
    }
}

impl State {
    /// Sets a contribution up: the challenge is stored in `input`, the
    /// response will be written in `output`. The first request is to open
    /// the challenge.
    pub fn start(params: Parameters, input: Encoding, output: Encoding) -> (out: (State, Action))
        ensures
            (out.0@, out.1@) == initial(params, input, output),
    {
        (State { params, input, output, phase: Phase::Opening }, Action::OpenChallenge)
    }

    fn proceed(self, phase: Phase, action: Action) -> (out: (State, Action))
        ensures
            (out.0@, out.1@) == self@.proceed(phase@, action@),
    {
        (State { params: self.params, input: self.input, output: self.output, phase }, action)
    }

    fn fail(self, error: Error) -> (out: (State, Action))
        ensures
            (out.0@, out.1@) == self@.fail(error),
    {
        self.proceed(Phase::Failed(error), Action::Abort(error))
    }
}

/// Advances a contribution by the outcome of its pending request.
pub fn contribute(state: State, outcome: Outcome<'_>) -> (out: (State, Action))
    ensures
        (out.0@, out.1@) == step(state@, outcome@),
{
    let challenge_len = state.params.challenge_size(state.input);
    let response_len = state.params.size_of(state.output, true);
    match state.phase {
        Phase::Opening => match outcome {
            Outcome::Length(len) => match check_length(challenge_len, len) {
                Ok(()) => state.proceed(Phase::Mapping, Action::MapChallenge),
                Err(error) => state.fail(error),
            },
            _ => state.fail(Error::IoFailure),
        },
        Phase::Mapping => match outcome {
            Outcome::Contents(challenge) => match check_length(
                challenge_len,
                challenge.len() as u64,
            ) {
                Ok(()) => match state.input {
                    Encoding::Compressed => state.fail(Error::UnsupportedEncoding),
                    Encoding::Uncompressed => {
                        let digest = Digest::of(challenge);
                        state.proceed(
                            Phase::StoringChallengeDigest(digest),
                            Action::StoreChallengeDigest(digest),
                        )
                    },
                },
                Err(error) => state.fail(error),
            },
            _ => state.fail(Error::IoFailure),
        },
        Phase::StoringChallengeDigest(digest) => match outcome {
            Outcome::Done => state.proceed(Phase::DerivingKey(digest), Action::DeriveKey(digest)),
            _ => state.fail(Error::IoFailure),
        },
        Phase::DerivingKey(digest) => match outcome {
            Outcome::Done => {
                let buffer = fresh(response_len, &digest);
                let input = state.input;
                let output = state.output;
                state.proceed(
                    Phase::Transforming(digest),
                    Action::Transform { buffer, input, output },
                )
            },
            _ => state.fail(Error::EntropyFailure),
        },
        Phase::Transforming(digest) => match outcome {
            Outcome::Buffer(buffer) => match check_length(response_len, buffer.len() as u64) {
                Ok(()) => {
                    let encoding = state.output;
                    state.proceed(
                        Phase::Committing(digest),
                        Action::AppendCommitment { buffer, encoding },
                    )
                },
                Err(error) => state.fail(error),
            },
            Outcome::Rejected { vector, index } => state.fail(
                Error::InvalidGroupElement { vector, index },
            ),
            _ => state.fail(Error::IoFailure),
        },
        Phase::Committing(digest) => match outcome {
            Outcome::Buffer(buffer) => match check_length(response_len, buffer.len() as u64) {
                Ok(()) => {
                    let mut response = buffer;
                    stamp(&mut response, &digest);
                    state.proceed(Phase::Persisting, Action::PersistResponse(response))
                },
                Err(error) => state.fail(error),
            },
            _ => state.fail(Error::IoFailure),
        },
        Phase::Persisting => match outcome {
            Outcome::Done => state.proceed(Phase::Rehashing, Action::ReadResponse),
            _ => state.fail(Error::IoFailure),
        },
        Phase::Rehashing => match outcome {
            Outcome::Contents(response) => match check_length(
                response_len,
                response.len() as u64,
            ) {
                Ok(()) => {
                    let digest = Digest::of(response);
                    state.proceed(
                        Phase::StoringResponseDigest,
                        Action::StoreResponseDigest(digest),
                    )
                },
                Err(error) => state.fail(error),
            },
            _ => state.fail(Error::IoFailure),
        },
        Phase::StoringResponseDigest => match outcome {
            Outcome::Done => state.proceed(Phase::Finished, Action::Finish),
            _ => state.fail(Error::IoFailure),
        },
        Phase::Finished => (state, Action::Finish),
        Phase::Failed(error) => (state, Action::Abort(error)),
    }
}

/// The state of a contribution, and the request that is pending, after the
/// driver has reported `outcomes` one after the other from the start.
pub open spec fn run(
    params: Parameters,
    input: Encoding,
    output: Encoding,
    outcomes: Seq<OutcomeView>,
) -> (StateView, ActionView)
    decreases outcomes.len(),
{
    if outcomes.len() == 0 {
        initial(params, input, output)
    } else {
        step(run(params, input, output, outcomes.drop_last()).0, outcomes.last())
    }
}

/// The first two outcomes were a challenge of the right length, stored
/// uncompressed, and `digest` is the digest of that challenge.
spec fn hashed(s: StateView, outcomes: Seq<OutcomeView>, digest: Seq<u8>) -> bool {
    &&& outcomes.len() >= 2
    &&& outcomes[0] matches OutcomeView::Length(len)
    &&& len == s.challenge_len()
    &&& outcomes[1] matches OutcomeView::Contents(challenge)
    &&& challenge.len() == s.challenge_len()
    &&& s.input is Uncompressed
    &&& digest == digest_of(challenge)
}

/// What each phase says about the outcomes that led to it and about the
/// request that is pending in it.
spec fn on_course(s: StateView, action: ActionView, outcomes: Seq<OutcomeView>) -> bool {
    match s.phase {
        PhaseView::Opening => outcomes.len() == 0 && action == ActionView::OpenChallenge,
        PhaseView::Mapping => {
            &&& outcomes.len() == 1
            &&& outcomes[0] matches OutcomeView::Length(len)
            &&& len == s.challenge_len()
            &&& action == ActionView::MapChallenge
        },
        PhaseView::StoringChallengeDigest(digest) => {
            &&& outcomes.len() == 2
            &&& hashed(s, outcomes, digest)
            &&& action == ActionView::StoreChallengeDigest(digest)
        },
        PhaseView::DerivingKey(digest) => {
            &&& outcomes.len() == 3
            &&& hashed(s, outcomes, digest)
            &&& outcomes[2] is Done
            &&& action == ActionView::DeriveKey(digest)
        },
        PhaseView::Transforming(digest) => {
            &&& outcomes.len() == 4
            &&& hashed(s, outcomes, digest)
            &&& outcomes[2] is Done
            &&& outcomes[3] is Done
            &&& action == (ActionView::Transform {
                buffer: with_header(zeros(s.response_len() as nat), digest),
                input: s.input,
                output: s.output,
            })
        },
        PhaseView::Committing(digest) => {
            &&& outcomes.len() == 5
            &&& hashed(s, outcomes, digest)
            &&& outcomes[2] is Done
            &&& outcomes[3] is Done
            &&& outcomes[4] matches OutcomeView::Buffer(buffer)
            &&& buffer.len() == s.response_len()
            &&& action == (ActionView::AppendCommitment { buffer, encoding: s.output })
        },
        PhaseView::Persisting => {
            &&& outcomes.len() == 6
            &&& outcomes[1] matches OutcomeView::Contents(challenge)
            &&& hashed(s, outcomes, digest_of(challenge))
            &&& outcomes[2] is Done
            &&& outcomes[3] is Done
            &&& outcomes[4] matches OutcomeView::Buffer(transformed)
            &&& transformed.len() == s.response_len()
            &&& outcomes[5] matches OutcomeView::Buffer(buffer)
            &&& buffer.len() == s.response_len()
            &&& action == ActionView::PersistResponse(with_header(buffer, digest_of(challenge)))
        },
        PhaseView::Rehashing => outcomes.len() == 7 && action == ActionView::ReadResponse,
        PhaseView::StoringResponseDigest => {
            &&& outcomes.len() == 8
            &&& outcomes[7] matches OutcomeView::Contents(response)
            &&& response.len() == s.response_len()
            &&& action == ActionView::StoreResponseDigest(digest_of(response))
        },
        PhaseView::Finished => outcomes.len() >= 9 && action == ActionView::Finish,
        PhaseView::Failed(error) => outcomes.len() >= 1 && action == ActionView::Abort(error),
    }
}

/// Every run is on course, and keeps the parameters and encodings it was
/// started with.
proof fn lemma_run_on_course(
    params: Parameters,
    input: Encoding,
    output: Encoding,
    outcomes: Seq<OutcomeView>,
)
    ensures
        ({
            let (s, action) = run(params, input, output, outcomes);
            &&& s.params == params
            &&& s.input == input
            &&& s.output == output
            &&& on_course(s, action, outcomes)
        }),
    decreases outcomes.len(),
{
    if outcomes.len() > 0 {
        let earlier = outcomes.drop_last();
        lemma_run_on_course(params, input, output, earlier);
    }
}

/// A response is handed over for writing at one point only: in answer to the
/// sixth outcome, when a challenge of the right length was opened and mapped,
/// its digest stored, a key derived, the accumulator transformed and the
/// commitment appended. Whatever went wrong before that point, nothing is
/// written.
pub proof fn lemma_response_needs_every_step(
    params: Parameters,
    input: Encoding,
    output: Encoding,
    outcomes: Seq<OutcomeView>,
)
    requires
        run(params, input, output, outcomes).1 is PersistResponse,
    ensures
        outcomes.len() == 6,
        outcomes[0] matches OutcomeView::Length(len) && len == params.spec_challenge_size(input),
        outcomes[1] matches OutcomeView::Contents(challenge) && challenge.len()
            == params.spec_challenge_size(input),
        input is Uncompressed,
        outcomes[2] is Done,
        outcomes[3] is Done,
        outcomes[4] is Buffer,
        outcomes[5] is Buffer,
{
    lemma_run_on_course(params, input, output, outcomes);
}

/// The response that is handed over for writing is as long as the
/// accumulator in the encoding of the response and the public commitment
/// together.
pub proof fn lemma_response_length(
    params: Parameters,
    input: Encoding,
    output: Encoding,
    outcomes: Seq<OutcomeView>,
)
    requires
        run(params, input, output, outcomes).1 is PersistResponse,
    ensures
        run(params, input, output, outcomes).1 matches ActionView::PersistResponse(response)
            && response.len() == params.accumulator_len(output) + params.spec_public_key_size(),
{
    lemma_run_on_course(params, input, output, outcomes);
}

/// The response that is handed over for writing carries at its head the
/// digest of the challenge that was mapped; what the transformation left in
/// those bytes does not matter. Behind the header it is the buffer that came
/// back with the commitment.
pub proof fn lemma_response_follows_challenge(
    params: Parameters,
    input: Encoding,
    output: Encoding,
    outcomes: Seq<OutcomeView>,
)
    requires
        params.wf(),
        run(params, input, output, outcomes).1 is PersistResponse,
    ensures
        outcomes.len() == 6,
        ({
            &&& run(params, input, output, outcomes).1 matches ActionView::PersistResponse(response)
            &&& outcomes[1] matches OutcomeView::Contents(challenge)
            &&& outcomes[5] matches OutcomeView::Buffer(buffer)
            &&& follows(response, challenge)
            &&& response == with_header(buffer, digest_of(challenge))
        }),
{
    lemma_run_on_course(params, input, output, outcomes);
    let response = run(params, input, output, outcomes).1->PersistResponse_0;
    let challenge = outcomes[1]->Contents_0;
    assert(header_of(response) =~= digest_of(challenge));
}

/// Each digest that is handed over for a sidecar file is the digest of the
/// bytes that were reported just before: of the challenge as it was mapped,
/// of the response as it was read back from disk.
pub proof fn lemma_sidecar_holds_digest_of_file(
    params: Parameters,
    input: Encoding,
    output: Encoding,
    outcomes: Seq<OutcomeView>,
)
    ensures
        run(params, input, output, outcomes).1 matches ActionView::StoreChallengeDigest(digest)
            ==> ({
            &&& outcomes.len() == 2
            &&& outcomes[1] matches OutcomeView::Contents(challenge)
            &&& digest == digest_of(challenge)
        }),
        run(params, input, output, outcomes).1 matches ActionView::StoreResponseDigest(digest)
            ==> ({
            &&& outcomes.len() == 8
            &&& outcomes[7] matches OutcomeView::Contents(response)
            &&& digest == digest_of(response)
            &&& response.len() == params.spec_size_of(output, true)
        }),
{
    lemma_run_on_course(params, input, output, outcomes);
}

/// A contribution that was given up stays given up, for the same reason,
/// whatever is reported afterwards.
pub proof fn lemma_abort_is_final(
    params: Parameters,
    input: Encoding,
    output: Encoding,
    outcomes: Seq<OutcomeView>,
    k: int,
    error: Error,
)
    requires
        0 <= k <= outcomes.len(),
        run(params, input, output, outcomes.take(k)).1 == ActionView::Abort(error),
    ensures
        run(params, input, output, outcomes).1 == ActionView::Abort(error),
    decreases outcomes.len(),
{
    if k == outcomes.len() {
        assert(outcomes.take(k) =~= outcomes);
    } else {
        let earlier = outcomes.drop_last();
        assert(earlier.take(k) =~= outcomes.take(k));
        lemma_abort_is_final(params, input, output, earlier, k, error);
        lemma_run_on_course(params, input, output, earlier);
    }
}

/// A challenge file whose length is not the one that the parameters call for
/// ends the contribution at its first step with `SizeMismatch`, and no later
/// report changes that: from the first outcome on, every request is the same
/// refusal, and so no response is handed over for writing.
pub proof fn lemma_wrong_length_is_refused(
    params: Parameters,
    input: Encoding,
    output: Encoding,
    outcomes: Seq<OutcomeView>,
)
    requires
        outcomes.len() >= 1,
        outcomes[0] matches OutcomeView::Length(len) && len != params.spec_challenge_size(input),
    ensures
        forall|k: int|
            1 <= k <= outcomes.len() ==> (#[trigger] run(
                params,
                input,
                output,
                outcomes.take(k),
            )).1 == ActionView::Abort(
                size_mismatch(params.spec_challenge_size(input), outcomes[0]->Length_0 as int),
            ),
{
    let error = size_mismatch(params.spec_challenge_size(input), outcomes[0]->Length_0 as int);
    assert forall|k: int| 1 <= k <= outcomes.len() implies (#[trigger] run(
        params,
        input,
        output,
        outcomes.take(k),
    )).1 == ActionView::Abort(error) by {
        let first = outcomes.take(k).take(1);
        assert(run(params, input, output, first.drop_last()) == initial(params, input, output));
        lemma_abort_is_final(params, input, output, outcomes.take(k), 1, error);
    }
}

/// When the transformation rejects an element, the contribution is given up
/// and stays so, and at no point of the run, before or after, is a response
/// handed over for writing. Where the transformation had been asked for, the
/// error names the vector and the index that the transformation named.
pub proof fn lemma_rejected_element_is_fatal(
    params: Parameters,
    input: Encoding,
    output: Encoding,
    outcomes: Seq<OutcomeView>,
)
    requires
        outcomes.len() >= 5,
        outcomes[4] is Rejected,
    ensures
        run(params, input, output, outcomes).1 is Abort,
        forall|k: int|
            0 <= k <= outcomes.len() ==> !(#[trigger] run(
                params,
                input,
                output,
                outcomes.take(k),
            ).1 is PersistResponse),
        run(params, input, output, outcomes.take(4)).0.phase is Transforming ==> ({
            &&& outcomes[4] matches OutcomeView::Rejected { vector, index }
            &&& run(params, input, output, outcomes).1 == ActionView::Abort(
                Error::InvalidGroupElement { vector, index },
            )
        }),
{
    let upto = outcomes.take(5);
    assert(upto.drop_last() =~= outcomes.take(4));
    lemma_run_on_course(params, input, output, outcomes.take(4));
    lemma_run_on_course(params, input, output, upto);
    let error = run(params, input, output, upto).1->Abort_0;
    lemma_abort_is_final(params, input, output, outcomes, 5, error);
    assert forall|k: int| 0 <= k <= outcomes.len() implies !(#[trigger] run(
        params,
        input,
        output,
        outcomes.take(k),
    ).1 is PersistResponse) by {
        lemma_run_on_course(params, input, output, outcomes.take(k));
    }
}

/// One more outcome takes the run one step further.
proof fn lemma_run_push(
    params: Parameters,
    input: Encoding,
    output: Encoding,
    outcomes: Seq<OutcomeView>,
    next: OutcomeView,
)
    ensures
        run(params, input, output, outcomes.push(next)) == step(
            run(params, input, output, outcomes).0,
            next,
        ),
{
    assert(outcomes.push(next).drop_last() =~= outcomes);
}

/// When every request is answered as expected, the contribution takes its
/// nine steps and ends complete: an uncompressed challenge of the right
/// length, both sidecar files written, a key derived, and three times bytes
/// of the length of the response (from the transformation, with the
/// commitment, and read back from disk).
pub proof fn lemma_answered_run_completes(
    params: Parameters,
    output: Encoding,
    challenge: Seq<u8>,
    transformed: Seq<u8>,
    committed: Seq<u8>,
    response: Seq<u8>,
)
    requires
        challenge.len() == params.spec_challenge_size(Encoding::Uncompressed),
        transformed.len() == params.spec_size_of(output, true),
        committed.len() == params.spec_size_of(output, true),
        response.len() == params.spec_size_of(output, true),
    ensures
        run(
            params,
            Encoding::Uncompressed,
            output,
            seq![
                OutcomeView::Length(challenge.len() as u64),
                OutcomeView::Contents(challenge),
                OutcomeView::Done,
                OutcomeView::Done,
                OutcomeView::Buffer(transformed),
                OutcomeView::Buffer(committed),
                OutcomeView::Done,
                OutcomeView::Contents(response),
                OutcomeView::Done,
            ],
        ).1 == ActionView::Finish,
{
    let input = Encoding::Uncompressed;
    let o0 = Seq::<OutcomeView>::empty();
    let o1 = o0.push(OutcomeView::Length(challenge.len() as u64));
    let o2 = o1.push(OutcomeView::Contents(challenge));
    let o3 = o2.push(OutcomeView::Done);
    let o4 = o3.push(OutcomeView::Done);
    let o5 = o4.push(OutcomeView::Buffer(transformed));
    let o6 = o5.push(OutcomeView::Buffer(committed));
    let o7 = o6.push(OutcomeView::Done);
    let o8 = o7.push(OutcomeView::Contents(response));
    let o9 = o8.push(OutcomeView::Done);
    lemma_run_push(params, input, output, o0, OutcomeView::Length(challenge.len() as u64));
    lemma_run_push(params, input, output, o1, OutcomeView::Contents(challenge));
    lemma_run_push(params, input, output, o2, OutcomeView::Done);
    lemma_run_push(params, input, output, o3, OutcomeView::Done);
    lemma_run_push(params, input, output, o4, OutcomeView::Buffer(transformed));
    lemma_run_push(params, input, output, o5, OutcomeView::Buffer(committed));
    lemma_run_push(params, input, output, o6, OutcomeView::Done);
    lemma_run_push(params, input, output, o7, OutcomeView::Contents(response));
    lemma_run_push(params, input, output, o8, OutcomeView::Done);
    assert(o9 =~= seq![
        OutcomeView::Length(challenge.len() as u64),
        OutcomeView::Contents(challenge),
        OutcomeView::Done,
        OutcomeView::Done,
        OutcomeView::Buffer(transformed),
        OutcomeView::Buffer(committed),
        OutcomeView::Done,
        OutcomeView::Contents(response),
        OutcomeView::Done,
    ]);
}

} // verus!
