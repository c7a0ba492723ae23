//! The cores of a replica in a Byzantine-fault-tolerant replicated state
//! machine: the mempool, which spreads payloads and hands their digests to
//! consensus, and the primary, which builds a DAG of signed headers and
//! certificates and runs slots of Prepare, Confirm and Commit over it, with
//! timeouts and view changes.
//!
//! Each core is a state machine: it takes an event in, changes its state,
//! and says what is to be done. `protocol` and `mempool` hold the models on
//! which the steps are defined; `primary` and `mempool` hold the code that
//! is proved to take those steps; `quorum_laws`, `protocol_laws`,
//! `standing`, `announcements` and `history` hold what is proved of the
//! steps.

pub mod actions;
pub mod aggregators;
pub mod announcements;
pub mod collections;
pub mod committee;
pub mod error;
pub mod events;
pub mod history;
pub mod keys;
pub mod mempool;
pub mod messages;
pub mod primary;
pub mod protocol;
pub mod protocol_laws;
pub mod quorum_laws;
pub mod standing;
pub mod validity;
