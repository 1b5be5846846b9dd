//! The first challenge of a ceremony: an accumulator to which nobody has
//! contributed yet, behind the blank digest.
//!
//! Like a contribution, the making of the first challenge is a state machine
//! that asks its driver for one thing at a time and decides from the outcome
//! what comes next.

use crate::digest::{blank_digest, digest_of, Digest};
use crate::error::Error;
use crate::layout::{
    check_length, fresh, header_of, opens_chain, size_mismatch, stamp, with_header, zeros,
};
use crate::outcome::{Outcome, OutcomeView};
use crate::parameters::{Encoding, Parameters};
use vstd::prelude::*;

verus! {

/// What the driver is asked to do next.
#[derive(Debug, PartialEq, Eq)]
pub enum Action {
    /// Create the challenge file, which must not exist yet, and give it
    /// `len` bytes.
    CreateChallenge { len: u64 },
    /// Write this digest, the blank one, at the head of the file and show it
    /// to the operator.
    WriteHeader(Digest),
    /// Fill `buffer` with the accumulator that every ceremony starts from,
    /// stored in `encoding`, and hand the buffer back.
    Initialize { buffer: Vec<u8>, encoding: Encoding },
    /// Write these bytes, and nothing else, to the challenge file.
    PersistChallenge(Vec<u8>),
    /// Read the challenge file back from disk and report its contents.
    ReadChallenge,
    /// Show this digest of the challenge to the operator and write it to the
    /// challenge's sidecar file.
    StoreDigest(Digest),
    /// The challenge is complete.
    Finish,
    /// The challenge is given up for this reason.
    Abort(Error),
}

/// An action as plain values.
pub enum ActionView {
    CreateChallenge { len: u64 },
    WriteHeader(Seq<u8>),
    Initialize { buffer: Seq<u8>, encoding: Encoding },
    PersistChallenge(Seq<u8>),
    ReadChallenge,
    StoreDigest(Seq<u8>),
    Finish,
    Abort(Error),
}

impl View for Action {
    type V = ActionView;

    open spec fn view(&self) -> ActionView {
        match *self {
            Action::CreateChallenge { len } => ActionView::CreateChallenge { len },
            Action::WriteHeader(digest) => ActionView::WriteHeader(digest@),
            Action::Initialize { buffer, encoding } => ActionView::Initialize {
                buffer: buffer@,
                encoding,
            },
            Action::PersistChallenge(bytes) => ActionView::PersistChallenge(bytes@),
            Action::ReadChallenge => ActionView::ReadChallenge,
            Action::StoreDigest(digest) => ActionView::StoreDigest(digest@),
            Action::Finish => ActionView::Finish,
            Action::Abort(error) => ActionView::Abort(error),
        }
    }
}

/// Which request is pending. Each phase is named after the request whose
/// outcome it waits for.
#[derive(Clone, Copy, Debug, PartialEq, Eq, Structural)]
pub enum Phase {
    Creating,
    WritingHeader,
    Initializing,
    Persisting,
    Rehashing,
    StoringDigest,
    Finished,
    Failed(Error),
}

/// The making of a first challenge as plain values.
pub struct StateView {
    pub params: Parameters,
    pub encoding: Encoding,
    pub phase: Phase,
}

/// A first challenge in the making.
pub struct State {
    params: Parameters,
    encoding: Encoding,
    phase: Phase,
}

impl View for State {
    type V = StateView;

    closed spec fn view(&self) -> StateView {
        StateView { params: self.params, encoding: self.encoding, phase: self.phase }
    }
}

impl StateView {
    /// Length that the challenge must have: the accumulator as it is stored,
    /// without a commitment.
    pub open spec fn challenge_len(self) -> int {
        self.params.spec_size_of(self.encoding, false)
    }

    /// This state in another phase, with the request that the phase waits
    /// for.
    pub open spec fn proceed(self, phase: Phase, action: ActionView) -> (StateView, ActionView) {
        (StateView { phase, ..self }, action)
    }

    /// This challenge given up.
    pub open spec fn fail(self, error: Error) -> (StateView, ActionView) {
        (StateView { phase: Phase::Failed(error), ..self }, ActionView::Abort(error))
    }
}

/// The making of a first challenge before its first step.
pub open spec fn initial(params: Parameters, encoding: Encoding) -> (StateView, ActionView) {
    let s = StateView { params, encoding, phase: Phase::Creating };
    (s, ActionView::CreateChallenge { len: s.challenge_len() as u64 })
}

/// The step that is taken on the outcome of the pending request: the state
/// afterwards, and what is asked for next.
///
/// A request that was answered as expected leads to the next one. Any other
/// outcome ends the making of the challenge: with `SizeMismatch` where a
/// buffer or the file came back with another length than the challenge has,
/// with `IoFailure` in every other case. What has ended stays as it is.
pub open spec fn step(s: StateView, outcome: OutcomeView) -> (StateView, ActionView) {
    match s.phase {
        Phase::Creating => match outcome {
            OutcomeView::Done => s.proceed(
                Phase::WritingHeader,
                ActionView::WriteHeader(blank_digest()),
            ),
            _ => s.fail(Error::IoFailure),
        },
        Phase::WritingHeader => match outcome {
            OutcomeView::Done => s.proceed(
                Phase::Initializing,
                ActionView::Initialize {
                    buffer: with_header(zeros(s.challenge_len() as nat), blank_digest()),
                    encoding: s.encoding,
                },
            ),
            _ => s.fail(Error::IoFailure),
        },
        Phase::Initializing => match outcome {
            OutcomeView::Buffer(buffer) => if buffer.len() == s.challenge_len() {
                s.proceed(
                    Phase::Persisting,
                    ActionView::PersistChallenge(with_header(buffer, blank_digest())),
                )
            } else {
                s.fail(size_mismatch(s.challenge_len(), buffer.len() as int))
            },
            _ => s.fail(Error::IoFailure),
        },
        Phase::Persisting => match outcome {
            OutcomeView::Done => s.proceed(Phase::Rehashing, ActionView::ReadChallenge),
            _ => s.fail(Error::IoFailure),
        },
        Phase::Rehashing => match outcome {
            OutcomeView::Contents(challenge) => if challenge.len() == s.challenge_len() {
                s.proceed(Phase::StoringDigest, ActionView::StoreDigest(digest_of(challenge)))
            } else {
                s.fail(size_mismatch(s.challenge_len(), challenge.len() as int))
            },
            _ => s.fail(Error::IoFailure),
        },
        Phase::StoringDigest => match outcome {
            OutcomeView::Done => s.proceed(Phase::Finished, ActionView::Finish),
            _ => s.fail(Error::IoFailure),
        },
        Phase::Finished => (s, ActionView::Finish),
        Phase::Failed(error) => (s, ActionView::Abort(error)),
    }
}

impl State {
    /// Sets the making of a first challenge up, to be stored in `encoding`.
    /// The first request is to create the file.
    pub fn start(params: Parameters, encoding: Encoding) -> (out: (State, Action))
        ensures
            (out.0@, out.1@) == initial(params, encoding),
    {
        let len = params.size_of(encoding, false);
        (
            State { params, encoding, phase: Phase::Creating },
            Action::CreateChallenge { len: len as u64 },
        )
    }

    fn proceed(self, phase: Phase, action: Action) -> (out: (State, Action))
        ensures
            (out.0@, out.1@) == self@.proceed(phase, action@),
    {
        (State { params: self.params, encoding: self.encoding, phase }, action)
    }

    fn fail(self, error: Error) -> (out: (State, Action))
        ensures
            (out.0@, out.1@) == self@.fail(error),
    {
        self.proceed(Phase::Failed(error), Action::Abort(error))
    }
}

/// Advances the making of a first challenge by the outcome of its pending
/// request.
pub fn new_challenge(state: State, outcome: Outcome<'_>) -> (out: (State, Action))
    ensures
        (out.0@, out.1@) == step(state@, outcome@),
{
    let challenge_len = state.params.size_of(state.encoding, false);
    match state.phase {
        Phase::Creating => match outcome {
            Outcome::Done => state.proceed(Phase::WritingHeader, Action::WriteHeader(Digest::blank())),
            _ => state.fail(Error::IoFailure),
        },
        Phase::WritingHeader => match outcome {
            Outcome::Done => {
                let buffer = fresh(challenge_len, &Digest::blank());
                let encoding = state.encoding;
                state.proceed(Phase::Initializing, Action::Initialize { buffer, encoding })
            },
            _ => state.fail(Error::IoFailure),
        },
        Phase::Initializing => match outcome {
            Outcome::Buffer(buffer) => match check_length(challenge_len, buffer.len() as u64) {
                Ok(()) => {
                    let mut challenge = buffer;
                    stamp(&mut challenge, &Digest::blank());
                    state.proceed(Phase::Persisting, Action::PersistChallenge(challenge))
                },
                Err(error) => state.fail(error),
            },
            _ => state.fail(Error::IoFailure),
        },
        Phase::Persisting => match outcome {
            Outcome::Done => state.proceed(Phase::Rehashing, Action::ReadChallenge),
            _ => state.fail(Error::IoFailure),
        },
        Phase::Rehashing => match outcome {
            Outcome::Contents(challenge) => match check_length(
                challenge_len,
                challenge.len() as u64,
            ) {
                Ok(()) => state.proceed(
                    Phase::StoringDigest,
                    Action::StoreDigest(Digest::of(challenge)),
                ),
                Err(error) => state.fail(error),
            },
            _ => state.fail(Error::IoFailure),
        },
        Phase::StoringDigest => match outcome {
            Outcome::Done => state.proceed(Phase::Finished, Action::Finish),
            _ => state.fail(Error::IoFailure),
        },
        Phase::Finished => (state, Action::Finish),
        Phase::Failed(error) => (state, Action::Abort(error)),
    }
}

/// The state of the making of a first challenge, and the request that is
/// pending, after the driver has reported `outcomes` one after the other
/// from the start.
pub open spec fn run(params: Parameters, encoding: Encoding, outcomes: Seq<OutcomeView>) -> (
    StateView,
    ActionView,
)
    decreases outcomes.len(),
{
    if outcomes.len() == 0 {
        initial(params, encoding)
    } else {
        step(run(params, encoding, outcomes.drop_last()).0, outcomes.last())
    }
}

/// What each phase says about the outcomes that led to it and about the
/// request that is pending in it.
spec fn on_course(s: StateView, action: ActionView, outcomes: Seq<OutcomeView>) -> bool {
    match s.phase {
        Phase::Creating => {
            &&& outcomes.len() == 0
            &&& action == (ActionView::CreateChallenge { len: s.challenge_len() as u64 })
        },
        Phase::WritingHeader => {
            &&& outcomes.len() == 1
            &&& outcomes[0] is Done
            &&& action == ActionView::WriteHeader(blank_digest())
        },
        Phase::Initializing => {
            &&& outcomes.len() == 2
            &&& outcomes[0] is Done
            &&& outcomes[1] is Done
            &&& action == (ActionView::Initialize {
                buffer: with_header(zeros(s.challenge_len() as nat), blank_digest()),
                encoding: s.encoding,
            })
        },
        Phase::Persisting => {
            &&& outcomes.len() == 3
            &&& outcomes[0] is Done
            &&& outcomes[1] is Done
            &&& outcomes[2] matches OutcomeView::Buffer(buffer)
            &&& buffer.len() == s.challenge_len()
            &&& action == ActionView::PersistChallenge(with_header(buffer, blank_digest()))
        },
        Phase::Rehashing => {
            &&& outcomes.len() == 4
            &&& outcomes[0] is Done
            &&& action == ActionView::ReadChallenge
        },
        Phase::StoringDigest => {
            &&& outcomes.len() == 5
            &&& outcomes[0] is Done
            &&& outcomes[4] matches OutcomeView::Contents(challenge)
            &&& challenge.len() == s.challenge_len()
            &&& action == ActionView::StoreDigest(digest_of(challenge))
        },
        Phase::Finished => outcomes.len() >= 6 && outcomes[0] is Done && action == ActionView::Finish,
        Phase::Failed(error) => outcomes.len() >= 1 && action == ActionView::Abort(error),
    }
}

/// Every run is on course, and keeps the parameters and the encoding it was
/// started with.
proof fn lemma_run_on_course(params: Parameters, encoding: Encoding, outcomes: Seq<OutcomeView>)
    ensures
        ({
            let (s, action) = run(params, encoding, outcomes);
            &&& s.params == params
            &&& s.encoding == encoding
            &&& on_course(s, action, outcomes)
        }),
    decreases outcomes.len(),
{
    if outcomes.len() > 0 {
        let earlier = outcomes.drop_last();
        lemma_run_on_course(params, encoding, earlier);
    }
}

/// The challenge that is handed over for writing opens a hash chain: it
/// carries the blank digest at its head, whatever the initialisation left in
/// those bytes. Behind the header it is the buffer that came back, and it is
/// as long as the accumulator in the encoding of the challenge.
pub proof fn lemma_challenge_opens_chain(
    params: Parameters,
    encoding: Encoding,
    outcomes: Seq<OutcomeView>,
)
    requires
        params.wf(),
        run(params, encoding, outcomes).1 is PersistChallenge,
    ensures
        outcomes.len() == 3,
        ({
            &&& run(params, encoding, outcomes).1 matches ActionView::PersistChallenge(challenge)
            &&& outcomes[2] matches OutcomeView::Buffer(buffer)
            &&& challenge == with_header(buffer, blank_digest())
            &&& challenge.len() == params.accumulator_len(encoding)
            &&& opens_chain(challenge)
        }),
{
    lemma_run_on_course(params, encoding, outcomes);
    let challenge = run(params, encoding, outcomes).1->PersistChallenge_0;
    assert(header_of(challenge) =~= blank_digest());
}

/// The digest that is handed over for the sidecar file is the digest of the
/// challenge as it was read back from disk, and that file has the length
/// that the parameters call for.
pub proof fn lemma_sidecar_holds_digest_of_file(
    params: Parameters,
    encoding: Encoding,
    outcomes: Seq<OutcomeView>,
)
    requires
        run(params, encoding, outcomes).1 is StoreDigest,
    ensures
        outcomes.len() == 5,
        ({
            &&& run(params, encoding, outcomes).1 matches ActionView::StoreDigest(digest)
            &&& outcomes[4] matches OutcomeView::Contents(challenge)
            &&& digest == digest_of(challenge)
            &&& challenge.len() == params.spec_size_of(encoding, false)
        }),
{
    lemma_run_on_course(params, encoding, outcomes);
}

/// A challenge that was given up stays given up, for the same reason,
/// whatever is reported afterwards.
pub proof fn lemma_abort_is_final(
    params: Parameters,
    encoding: Encoding,
    outcomes: Seq<OutcomeView>,
    k: int,
    error: Error,
)
    requires
        0 <= k <= outcomes.len(),
        run(params, encoding, outcomes.take(k)).1 == ActionView::Abort(error),
    ensures
        run(params, encoding, outcomes).1 == ActionView::Abort(error),
    decreases outcomes.len(),
{
    if k == outcomes.len() {
        assert(outcomes.take(k) =~= outcomes);
    } else {
        let earlier = outcomes.drop_last();
        assert(earlier.take(k) =~= outcomes.take(k));
        lemma_abort_is_final(params, encoding, earlier, k, error);
        lemma_run_on_course(params, encoding, earlier);
    }
}

/// When the file cannot be created, because the path exists already or for
/// any other reason, the challenge is given up with `IoFailure` and stays so.
/// The one request that was ever made is the creation that failed: from the
/// first outcome on every request is the same refusal, and so nothing is
/// asked to be written to the path.
pub proof fn lemma_failed_creation_writes_nothing(
    params: Parameters,
    encoding: Encoding,
    outcomes: Seq<OutcomeView>,
)
    requires
        outcomes.len() >= 1,
        !(outcomes[0] is Done),
    ensures
        forall|k: int|
            1 <= k <= outcomes.len() ==> (#[trigger] run(params, encoding, outcomes.take(k))).1
                == ActionView::Abort(Error::IoFailure),
{
    assert forall|k: int| 1 <= k <= outcomes.len() implies (#[trigger] run(
        params,
        encoding,
        outcomes.take(k),
    )).1 == ActionView::Abort(Error::IoFailure) by {
        let first = outcomes.take(k).take(1);
        assert(run(params, encoding, first.drop_last()) == initial(params, encoding));
        lemma_abort_is_final(params, encoding, outcomes.take(k), 1, Error::IoFailure);
    }
}

/// One more outcome takes the run one step further.
proof fn lemma_run_push(
    params: Parameters,
    encoding: Encoding,
    outcomes: Seq<OutcomeView>,
    next: OutcomeView,
)
    ensures
        run(params, encoding, outcomes.push(next)) == step(run(params, encoding, outcomes).0, next),
{
    assert(outcomes.push(next).drop_last() =~= outcomes);
}

/// When every request is answered as expected, the making of the challenge
/// takes its six steps and ends complete: the file created, the header and
/// later the whole challenge written, the sidecar file written, and twice
/// bytes of the length of the challenge (from the initialisation, and read
/// back from disk).
pub proof fn lemma_answered_run_completes(
    params: Parameters,
    encoding: Encoding,
    initialised: Seq<u8>,
    challenge: Seq<u8>,
)
    requires
        initialised.len() == params.spec_size_of(encoding, false),
        challenge.len() == params.spec_size_of(encoding, false),
    ensures
        run(
            params,
            encoding,
            seq![
                OutcomeView::Done,
                OutcomeView::Done,
                OutcomeView::Buffer(initialised),
                OutcomeView::Done,
                OutcomeView::Contents(challenge),
                OutcomeView::Done,
            ],
        ).1 == ActionView::Finish,
{
    let o0 = Seq::<OutcomeView>::empty();
    let o1 = o0.push(OutcomeView::Done);
    let o2 = o1.push(OutcomeView::Done);
    let o3 = o2.push(OutcomeView::Buffer(initialised));
    let o4 = o3.push(OutcomeView::Done);
    let o5 = o4.push(OutcomeView::Contents(challenge));
    let o6 = o5.push(OutcomeView::Done);
    lemma_run_push(params, encoding, o0, OutcomeView::Done);
    lemma_run_push(params, encoding, o1, OutcomeView::Done);
    lemma_run_push(params, encoding, o2, OutcomeView::Buffer(initialised));
    lemma_run_push(params, encoding, o3, OutcomeView::Done);
    lemma_run_push(params, encoding, o4, OutcomeView::Contents(challenge));
    lemma_run_push(params, encoding, o5, OutcomeView::Done);
    assert(o6 =~= seq![
        OutcomeView::Done,
        OutcomeView::Done,
        OutcomeView::Buffer(initialised),
        OutcomeView::Done,
        OutcomeView::Contents(challenge),
        OutcomeView::Done,
    ]);
}

} // verus!
