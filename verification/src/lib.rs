//! A desired-state process supervisor: given a set of declarative process
//! specifications, a single-threaded engine keeps one live child process per
//! specification running, recycles it when resource thresholds are crossed,
//! restarts it on unexpected exit, and drains all children on shutdown.
//!
//! The engine is a verified state machine. All interaction with the operating
//! system (spawning, signalling, metric queries, the event queue itself) is
//! described by the events the engine consumes and the actions it emits; an
//! unverified host around the library performs those actions and feeds the
//! resulting events back.

pub mod config;
pub mod errors;
pub mod event_pump;
pub mod stateful_process;
