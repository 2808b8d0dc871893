use vstd::prelude::*;
use std::sync::Arc;
use std::time::Duration;

verus! {

/// Runs the Ebbinghaus decay over all memories on a timer (by default every 24 hours):
/// it holds the consolidation engine and the interval; the timer loop belongs to the caller.
pub struct DecayScheduler<E> {
    engine: Arc<E>,
    interval: Duration,
}

impl<E> DecayScheduler<E> {
    pub closed spec fn engine_spec(&self) -> Arc<E> {
        self.engine
    }

    pub closed spec fn interval_spec(&self) -> Duration {
        self.interval
    }

    pub fn new(engine: Arc<E>, interval: Duration) -> (r: DecayScheduler<E>)
        ensures
            r.engine_spec() == engine,
            r.interval_spec() == interval,
    {
        DecayScheduler { engine, interval }
    }

    /// The engine whose batch consolidation runs on each tick.
    pub fn engine(&self) -> (r: &Arc<E>)
        ensures
            *r == self.engine_spec(),
    {
        &self.engine
    }

    /// The time between two runs.
    pub fn interval(&self) -> (r: Duration)
        ensures
            r == self.interval_spec(),
    {
        self.interval
    }
}

} // verus!
