// A Trusted Domain Agent's key-event core: a self-certifying identity whose
// authority lives in keys the agent itself holds, rotates and pre-commits.
//
// The crate is organized leaves first: `base64` and `crypto` hold the
// primitive codec and the trusted cryptographic calls; `prefix` the
// derivation codec; `event` the typed event model; `ser`, `parse` and
// `roundtrip` the canonical JSON serialization, its strict decoder and the
// proof that the one inverts the other; `state` the per-identifier replay
// state with its single transition function; `log_state` the agent's own log
// and receipt engine; `instance` the peer-exchange dispatch; `models` the
// records of the pairing sketch.

pub mod base64;
pub mod crypto;
pub mod dup;
pub mod errors;
pub mod event;
pub mod instance;
pub mod log_state;
pub mod models;
pub mod parse;
pub mod prefix;
pub mod roundtrip;
pub mod ser;
pub mod soundness;
pub mod state;
