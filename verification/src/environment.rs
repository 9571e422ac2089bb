//! The real-time primitives a chunk's run needs, and the record of the
//! calls made on them.
//!
//! The node supplies the real clock, sleeping and event stream; the tests
//! supply a virtual clock. A run reaches them only through [`Recorded`],
//! whose every method forwards exactly one call and appends it, with what it
//! was given or returned, to the record that the run's contract speaks of.

use vstd::prelude::*;

verus! {

/// A signal observed while stepping through a chunk's trajectory.
#[derive(Debug, Clone, Copy, PartialEq, Eq, Structural)]
pub enum PendingSignal {
    /// Nothing new has arrived; keep executing the current step.
    NoEvent,
    /// A new action chunk has already arrived; cancel the current
    /// trajectory and hand control back so that chunk is fetched next.
    NewChunk,
    /// The node should stop entirely, discarding the rest of the current
    /// trajectory.
    Terminate,
}

/// One call made on an [`Environment`], with what it was given or returned.
#[derive(Debug, Clone, Copy, PartialEq, Eq, Structural)]
pub enum EnvCall {
    /// `now_ns` returned this reading.
    Now(i64),
    /// `sleep_ns` was asked to sleep this long.
    Sleep(i64),
    /// `poll` returned this signal.
    Poll(PendingSignal),
}

/// The real-time primitives a chunk's run needs: reading the clock,
/// sleeping, and checking whether a new event has already arrived.
pub trait Environment {
    /// Returns the current time, in nanoseconds.
    fn now_ns(&mut self) -> i64;

    /// Sleeps for `duration_ns` nanoseconds.
    fn sleep_ns(&mut self, duration_ns: i64);

    /// Checks, without blocking, whether a new event has already arrived or
    /// the node should terminate.
    fn poll(&mut self) -> PendingSignal;
}

/// An [`Environment`] together with the record of the calls made on it
/// through this value, in order.
pub struct Recorded<E> {
    env: E,
    calls: Ghost<Seq<EnvCall>>,
}

impl<E: Environment> Recorded<E> {
    /// The calls made so far, in order.
    pub closed spec fn calls(&self) -> Seq<EnvCall> {
        self.calls@
    }

    /// Starts recording the calls made on `env`.
    pub fn new(env: E) -> (recorded: Self)
        ensures
            recorded.calls() == Seq::<EnvCall>::empty(),
    {
        Recorded { env, calls: Ghost(Seq::empty()) }
    }

    /// Reads the clock, in nanoseconds.
    pub fn now_ns(&mut self) -> (now: i64)
        ensures
            final(self).calls() == old(self).calls().push(EnvCall::Now(now)),
    {
        let now = self.env.now_ns();
        self.calls = Ghost(self.calls@.push(EnvCall::Now(now)));
        now
    }

    /// Sleeps for `duration_ns` nanoseconds.
    pub fn sleep_ns(&mut self, duration_ns: i64)
        ensures
            final(self).calls() == old(self).calls().push(EnvCall::Sleep(duration_ns)),
    {
        self.env.sleep_ns(duration_ns);
        self.calls = Ghost(self.calls@.push(EnvCall::Sleep(duration_ns)));
    }

    /// Polls the event stream without blocking.
    pub fn poll(&mut self) -> (signal: PendingSignal)
        ensures
            final(self).calls() == old(self).calls().push(EnvCall::Poll(signal)),
    {
        let signal = self.env.poll();
        self.calls = Ghost(self.calls@.push(EnvCall::Poll(signal)));
        signal
    }
}

} // verus!
