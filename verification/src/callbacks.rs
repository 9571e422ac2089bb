//! The caller's per-step callbacks, together with the record of the calls
//! made on them.
//!
//! A run of steps reaches the callback that prepares each step's position
//! and the one that sends it only through these wrappers, whose every call
//! forwards exactly one call and appends it, with its arguments and result,
//! to a record that the run hands back to its caller.

use vstd::prelude::*;

verus! {

/// The callback that prepares a step's position, with the record of the
/// calls made on it through this value: the step index each was given and
/// the position it returned, in order.
pub struct PrepareCalls<P, F> {
    prepare: F,
    calls: Ghost<Seq<(usize, P)>>,
}

impl<P, F: FnMut(usize) -> P> PrepareCalls<P, F> {
    /// The calls made so far, in order.
    pub closed spec fn calls(&self) -> Seq<(usize, P)> {
        self.calls@
    }

    /// The callback the calls go to.
    pub closed spec fn callback(&self) -> F {
        self.prepare
    }

    /// Starts recording the calls made on `prepare`.
    pub fn new(prepare: F) -> (recorded: Self)
        ensures
            recorded.calls() == Seq::<(usize, P)>::empty(),
            recorded.callback() == prepare,
    {
        PrepareCalls { prepare, calls: Ghost(Seq::empty()) }
    }

    /// Prepares step `i`.
    pub fn call(&mut self, i: usize) -> (position: P)
        requires
            call_requires(old(self).callback(), (i,)),
        ensures
            final(self).calls() == old(self).calls().push((i, position)),
            final(self).callback() == old(self).callback(),
            call_ensures(old(self).callback(), (i,), position),
    {
        let position = (self.prepare)(i);
        self.calls = Ghost(self.calls@.push((i, position)));
        position
    }
}

/// The callback that sends a step's position with its timestamp, with the
/// record of the calls made on it through this value: the position and
/// timestamp each was given and what it returned, in order.
pub struct EmitCalls<P, O, F> {
    emit: F,
    calls: Ghost<Seq<(P, i64, O)>>,
}

impl<P, O, F: FnMut(P, i64) -> O> EmitCalls<P, O, F> {
    /// The calls made so far, in order.
    pub closed spec fn calls(&self) -> Seq<(P, i64, O)> {
        self.calls@
    }

    /// The callback the calls go to.
    pub closed spec fn callback(&self) -> F {
        self.emit
    }

    /// Starts recording the calls made on `emit`.
    pub fn new(emit: F) -> (recorded: Self)
        ensures
            recorded.calls() == Seq::<(P, i64, O)>::empty(),
            recorded.callback() == emit,
    {
        EmitCalls { emit, calls: Ghost(Seq::empty()) }
    }

    /// Sends `position` with `timestamp_ns`.
    pub fn call(&mut self, position: P, timestamp_ns: i64) -> (out: O)
        requires
            call_requires(old(self).callback(), (position, timestamp_ns)),
        ensures
            final(self).calls() == old(self).calls().push((position, timestamp_ns, out)),
            final(self).callback() == old(self).callback(),
            call_ensures(old(self).callback(), (position, timestamp_ns), out),
    {
        let ghost sent = position;
        let out = (self.emit)(position, timestamp_ns);
        self.calls = Ghost(self.calls@.push((sent, timestamp_ns, out)));
        out
    }
}

} // verus!
