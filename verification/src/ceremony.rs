//! How the two operations fit together: the first challenge is one that a
//! contribution accepts.

use crate::contribute;
use crate::digest::digest_of;
use crate::new_challenge;
use crate::outcome::OutcomeView;
use crate::parameters::{Encoding, Parameters};
use vstd::prelude::*;

verus! {

/// A first challenge that was made uncompressed, under the same parameters,
/// is one that a contribution starts from: its length passes both checks,
/// and the digest that the contribution takes of it, and will write at the
/// head of the response, is the digest of the whole challenge.
pub proof fn lemma_first_challenge_is_accepted(
    params: Parameters,
    output: Encoding,
    making: Seq<OutcomeView>,
)
    requires
        params.wf(),
        new_challenge::run(params, Encoding::Uncompressed, making).1 is PersistChallenge,
    ensures
        ({
            let challenge = new_challenge::run(
                params,
                Encoding::Uncompressed,
                making,
            ).1->PersistChallenge_0;
            let opened = seq![OutcomeView::Length(challenge.len() as u64)];
            let mapped = opened.push(OutcomeView::Contents(challenge));
            &&& contribute::run(params, Encoding::Uncompressed, output, opened).1
                == contribute::ActionView::MapChallenge
            &&& contribute::run(params, Encoding::Uncompressed, output, mapped).1
                == contribute::ActionView::StoreChallengeDigest(digest_of(challenge))
        }),
{
    new_challenge::lemma_challenge_opens_chain(params, Encoding::Uncompressed, making);
    let challenge = new_challenge::run(params, Encoding::Uncompressed, making).1->PersistChallenge_0;
    let opened = seq![OutcomeView::Length(challenge.len() as u64)];
    let mapped = opened.push(OutcomeView::Contents(challenge));
    assert(mapped.drop_last() =~= opened);
    assert(contribute::run(params, Encoding::Uncompressed, output, opened.drop_last())
        == contribute::initial(params, Encoding::Uncompressed, output));
}

} // verus!
