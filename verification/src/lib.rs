//! The participant's side of a powers-of-tau ceremony.
//!
//! A ceremony passes one accumulator from participant to participant. Each
//! participant receives it as a *challenge* file, re-randomises it under a
//! fresh secret and publishes the result, together with a public commitment
//! to that secret, as a *response* file. Every file starts with the digest of
//! the file it was made from, so that the whole transcript is one hash chain.
//!
//! This library holds the part of that work that decides: how long each
//! file has to be, what stands at its head, in which order the steps of a
//! contribution are taken and what ends it early. The curve arithmetic and
//! the file system are driven from outside, one request at a time.

pub mod ceremony;
pub mod contribute;
pub mod digest;
pub mod error;
pub mod layout;
pub mod new_challenge;
pub mod outcome;
pub mod parameters;

pub use crate::contribute::contribute;
pub use crate::new_challenge::new_challenge;
