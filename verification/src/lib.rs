//! Core of an Ethereum Stratum mining proxy: the wire codec, the per-miner
//! session state machine, the fee scheduler and the upstream multiplexer,
//! written without I/O so that every decision is a function of plain values.

use vstd::prelude::*;

pub mod fee;
pub mod listener;
pub mod protocol;
pub mod session;
pub mod state;
pub mod supervisor;
pub mod telemetry;
pub mod upstream;
pub mod util;

verus! {

/// `tokio`'s point in time.
#[verifier::external_type_specification]
#[verifier::external_body]
pub struct ExInstant(tokio::time::Instant);

/// `tokio::time::Instant::now`: the present moment, whatever it is.
#[verifier::external_body]
fn instant_now() -> (now: tokio::time::Instant) {
    tokio::time::Instant::now()
}

/// `tokio::time::Instant::elapsed`: the time that has passed since `start`,
/// whatever it is.
#[verifier::external_body]
fn instant_elapsed(start: &tokio::time::Instant) -> (passed: core::time::Duration) {
    start.elapsed()
}

/// `Duration::as_secs`: the whole seconds of a span of time.
#[verifier::external_body]
fn whole_seconds(span: &core::time::Duration) -> (seconds: u64) {
    span.as_secs()
}

/// The moment a listener started. Every time the library is told is counted
/// in seconds from it.
#[derive(Debug, Clone, Copy)]
pub struct Runtime {
    started: tokio::time::Instant,
}

impl Runtime {
    /// The moment the listener started.
    pub fn started(&self) -> (at: tokio::time::Instant)
        ensures
            at == self.moment(),
    {
        self.started
    }

    /// The seconds that have passed since the listener started.
    pub fn elapsed_secs(&self) -> (seconds: u64) {
        let passed = instant_elapsed(&self.started);
        whole_seconds(&passed)
    }

    /// The moment the clock holds: the one at which the listener started.
    pub closed spec fn moment(&self) -> tokio::time::Instant {
        self.started
    }
}

/// Starts the listener's clock.
pub fn init() -> (runtime: Runtime) {
    Runtime { started: instant_now() }
}

} // verus!
