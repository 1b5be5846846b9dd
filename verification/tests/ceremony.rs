use phase1_cli::contribute;
use phase1_cli::digest::Digest;
use phase1_cli::layout::{fresh, is_first, is_successor, matches_sidecar};
use phase1_cli::new_challenge;
use phase1_cli::outcome::Outcome;
use phase1_cli::parameters::{Encoding, Parameters};

struct Files {
    challenge: Vec<u8>,
    challenge_sidecar: Vec<u8>,
    response: Vec<u8>,
    response_sidecar: Vec<u8>,
}

/// Makes the first challenge as a driver would, filling the accumulator
/// with `fill`. Returns the file and its sidecar.
fn first_challenge(params: Parameters, fill: u8) -> (Vec<u8>, Vec<u8>) {
    let (mut state, mut action) = new_challenge::State::start(params, Encoding::Uncompressed);
    let mut file = Vec::new();
    let mut sidecar = Vec::new();
    loop {
        let outcome = match action {
            new_challenge::Action::CreateChallenge { len } => {
                file = vec![0u8; len as usize];
                Outcome::Done
            }
            new_challenge::Action::WriteHeader(digest) => {
                file[..64].copy_from_slice(&digest.bytes);
                Outcome::Done
            }
            new_challenge::Action::Initialize { mut buffer, .. } => {
                for byte in &mut buffer[64..] {
                    *byte = fill;
                }
                Outcome::Buffer(buffer)
            }
            new_challenge::Action::PersistChallenge(bytes) => {
                file = bytes;
                Outcome::Done
            }
            new_challenge::Action::ReadChallenge => Outcome::Contents(&file),
            new_challenge::Action::StoreDigest(digest) => {
                sidecar = digest.bytes.to_vec();
                Outcome::Done
            }
            new_challenge::Action::Finish => return (file.clone(), sidecar),
            new_challenge::Action::Abort(error) => panic!("given up: {:?}", error),
        };
        (state, action) = new_challenge::new_challenge(state, outcome);
    }
}

/// Contributes to `challenge` as a driver would, with a transformation that
/// adds `secret` to every byte of the accumulator it keeps.
fn one_round(params: Parameters, challenge: &[u8], secret: u8) -> Files {
    let (mut state, mut action) =
        contribute::State::start(params, Encoding::Uncompressed, Encoding::Compressed);
    let mut challenge_sidecar = Vec::new();
    let mut response = Vec::new();
    let mut response_sidecar = Vec::new();
    let commitment_at = params.size_of(Encoding::Compressed, false);
    loop {
        let outcome = match action {
            contribute::Action::OpenChallenge => Outcome::Length(challenge.len() as u64),
            contribute::Action::MapChallenge => Outcome::Contents(challenge),
            contribute::Action::StoreChallengeDigest(digest) => {
                challenge_sidecar = digest.bytes.to_vec();
                Outcome::Done
            }
            contribute::Action::DeriveKey(_) => Outcome::Done,
            contribute::Action::Transform { mut buffer, .. } => {
                for i in 64..commitment_at {
                    buffer[i] = challenge[i].wrapping_add(secret);
                }
                Outcome::Buffer(buffer)
            }
            contribute::Action::AppendCommitment { mut buffer, .. } => {
                for byte in &mut buffer[commitment_at..] {
                    *byte = secret;
                }
                Outcome::Buffer(buffer)
            }
            contribute::Action::PersistResponse(bytes) => {
                response = bytes;
                Outcome::Done
            }
            contribute::Action::ReadResponse => Outcome::Contents(&response),
            contribute::Action::StoreResponseDigest(digest) => {
                response_sidecar = digest.bytes.to_vec();
                Outcome::Done
            }
            contribute::Action::Finish => {
                return Files {
                    challenge: challenge.to_vec(),
                    challenge_sidecar,
                    response: response.clone(),
                    response_sidecar,
                }
            }
            contribute::Action::Abort(error) => panic!("given up: {:?}", error),
        };
        (state, action) = contribute::contribute(state, outcome);
    }
}

/// What a coordinator makes of a response: the next challenge, uncompressed,
/// behind the digest of that response.
fn next_challenge(params: Parameters, response: &[u8]) -> Vec<u8> {
    let mut challenge = fresh(params.accumulator_size(), &Digest::of(response));
    let kept = params.size_of(Encoding::Compressed, false);
    challenge[64..kept].copy_from_slice(&response[64..kept]);
    challenge
}

#[test]
fn first_challenge_then_contribution_gives_a_response_of_the_expected_length() {
    for (accumulator, contribution, key) in [(200, 150, 50), (64, 64, 0), (1024, 600, 90)] {
        let params = Parameters::new(accumulator, contribution, key).unwrap();
        let (challenge, _) = first_challenge(params, 1);
        assert_eq!(challenge.len(), accumulator);
        let files = one_round(params, &challenge, 3);
        assert_eq!(files.response.len(), contribution);
        assert_eq!(
            files.response.len(),
            params.size_of(Encoding::Compressed, false) + params.public_key_size()
        );
    }
}

#[test]
fn sidecars_hold_the_digests_of_their_files() {
    let params = Parameters::new(200, 150, 50).unwrap();
    let (challenge, sidecar) = first_challenge(params, 1);
    assert!(matches_sidecar(&challenge, &sidecar));
    assert_eq!(sidecar, Digest::of(&challenge).bytes.to_vec());
    let files = one_round(params, &challenge, 3);
    assert!(matches_sidecar(&files.challenge, &files.challenge_sidecar));
    assert!(matches_sidecar(&files.response, &files.response_sidecar));
    assert_eq!(files.challenge_sidecar, sidecar);
    assert!(!matches_sidecar(&files.response, &files.challenge_sidecar));
}

#[test]
fn two_rounds_form_one_chain() {
    let params = Parameters::new(200, 150, 50).unwrap();
    let (first, _) = first_challenge(params, 1);
    assert!(is_first(&first));

    let one = one_round(params, &first, 3);
    assert!(is_successor(&one.response, &first));
    assert!(!is_first(&one.response));

    let second = next_challenge(params, &one.response);
    assert!(is_successor(&second, &one.response));
    assert_eq!(&second[..64], &one.response_sidecar[..]);

    let two = one_round(params, &second, 5);
    assert!(is_successor(&two.response, &second));
    assert_eq!(&two.response[..64], &two.challenge_sidecar[..]);
    assert!(!is_successor(&two.response, &first));
    assert_eq!(two.response[64], 1u8.wrapping_add(3).wrapping_add(5));
}

#[test]
fn same_challenge_and_secret_give_the_same_files() {
    let params = Parameters::new(200, 150, 50).unwrap();
    let (challenge, _) = first_challenge(params, 9);
    let one = one_round(params, &challenge, 4);
    let other = one_round(params, &challenge, 4);
    assert_eq!(one.response, other.response);
    assert_eq!(one.response_sidecar, other.response_sidecar);
}
