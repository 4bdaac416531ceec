use vstd::prelude::*;

verus! {

// The clock and the stop flag the search polls. Nothing is promised of their
// answers: the search is verified for whatever they say.

#[verifier::external_type_specification]
#[verifier::external_body]
pub struct ExInstant(std::time::Instant);

/// Whether another thread has asked the search to stop (a relaxed load of the flag).
pub(crate) fn stop_requested(flag: &std::sync::atomic::AtomicBool) -> bool {
    flag.load(std::sync::atomic::Ordering::Relaxed)
}

/// The milliseconds passed since `start` (`Instant::elapsed`). Nothing is promised of
/// the answer.
#[verifier::external_body]
pub(crate) fn elapsed_ms(start: &std::time::Instant) -> u64 {
    let ms: u128 = start.elapsed().as_millis();
    ms as u64
}

/// When the search started, and the flag another thread sets to stop it.
pub struct StopClock<'a> {
    pub start: std::time::Instant,
    pub flag: &'a std::sync::atomic::AtomicBool,
}

} // verus!
