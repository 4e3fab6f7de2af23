use vstd::prelude::*;

verus! {

/// Nanoseconds in one second.
pub const NANOS_PER_SEC: u64 = 1000000000;

/// An interval of `secs` seconds and `subsec_nanos` nanoseconds, in nanoseconds.
pub open spec fn interval_nanos_spec(secs: u64, subsec_nanos: u32) -> int {
    secs * NANOS_PER_SEC + subsec_nanos
}

/// The length of a timer interval in nanoseconds; exact for every `u64`
/// count of seconds and every count of nanoseconds below one second.
pub fn interval_nanos(secs: u64, subsec_nanos: u32) -> (r: u128)
    requires
        subsec_nanos < NANOS_PER_SEC,
    ensures
        r == interval_nanos_spec(secs, subsec_nanos),
{
    assert(secs * NANOS_PER_SEC <= u64::MAX * NANOS_PER_SEC) by (nonlinear_arith);
    (secs as u128) * (NANOS_PER_SEC as u128) + (subsec_nanos as u128)
}

/// A repeating callback handed to a foreign event loop, which may fire it any
/// number of times and then releases it exactly once. The callback is owned
/// here until the release, which drops it; a fire after the release does
/// nothing, and a second release does nothing.
pub struct Timer<F> {
    callback: Option<F>,
    fires: Ghost<nat>,
    releases: Ghost<nat>,
}

impl<F: FnMut()> Timer<F> {
    /// Whether the callback is still held, that is, not yet released.
    pub closed spec fn is_armed(&self) -> bool {
        self.callback is Some
    }

    /// The callback while it is held.
    pub closed spec fn held(&self) -> F {
        self.callback->Some_0
    }

    /// How many times the callback has been invoked.
    pub closed spec fn fire_count(&self) -> nat {
        self.fires@
    }

    /// How many times the callback has been released: 0 or 1.
    pub closed spec fn release_count(&self) -> nat {
        self.releases@
    }

    pub closed spec fn wf(&self) -> bool {
        &&& self.releases@ <= 1
        &&& (self.callback is Some <==> self.releases@ == 0)
        &&& (self.callback is Some ==> call_requires(self.callback->Some_0, ()))
    }

    /// A timer is released at most once, and it is released exactly when it
    /// no longer holds its callback.
    pub proof fn lemma_released_once(&self)
        requires
            self.wf(),
        ensures
            self.release_count() <= 1,
            !self.is_armed() <==> self.release_count() == 1,
    {
    }

    pub fn new(callback: F) -> (r: Timer<F>)
        requires
            call_requires(callback, ()),
        ensures
            r.wf(),
            r.is_armed(),
            r.held() == callback,
            r.fire_count() == 0,
            r.release_count() == 0,
    {
        Timer { callback: Some(callback), fires: Ghost(0), releases: Ghost(0) }
    }

    /// Whether the callback is still held.
    pub fn armed(&self) -> (r: bool)
        ensures
            r == self.is_armed(),
    {
        self.callback.is_some()
    }

    /// Invokes the callback once, in place, while it is held, and returns
    /// `true`; after the release it invokes nothing and returns `false`.
    pub fn fire(&mut self) -> (r: bool)
        requires
            old(self).wf(),
        ensures
            final(self).wf(),
            r == old(self).is_armed(),
            r ==> call_ensures(old(self).held(), (), ()),
            r ==> final(self).held() == old(self).held(),
            final(self).is_armed() == old(self).is_armed(),
            final(self).release_count() == old(self).release_count(),
            final(self).fire_count() == if r {
                old(self).fire_count() + 1
            } else {
                old(self).fire_count()
            },
    {
        match self.callback.take() {
            Some(mut callback) => {
                callback();
                self.callback = Some(callback);
                self.fires = Ghost(self.fires@ + 1);
                true
            },
            None => false,
        }
    }

    /// Drops the callback. Only the first release does so and returns `true`;
    /// any later one changes nothing and returns `false`.
    pub fn release(&mut self) -> (r: bool)
        requires
            old(self).wf(),
        ensures
            final(self).wf(),
            r == old(self).is_armed(),
            !final(self).is_armed(),
            final(self).release_count() == 1,
            final(self).fire_count() == old(self).fire_count(),
    {
        match self.callback.take() {
            Some(_) => {
                // the callback taken out is dropped here, once
                self.releases = Ghost(1);
                true
            },
            None => false,
        }
    }
}

} // verus!
