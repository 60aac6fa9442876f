//! Readings of a steady clock.

use std::time::Instant;

use vstd::prelude::*;

use crate::duration;
use crate::duration::Duration;

verus! {

/// `std::time::Instant`, a point in time that nothing here looks into.
#[verifier::external_type_specification]
#[verifier::external_body]
pub struct ExInstant(std::time::Instant);

/// `Instant::now`: the present point in time. Nothing is claimed of it.
#[verifier::external_body]
pub(crate) fn instant_now() -> (now: Instant) {
    Instant::now()
}

/// `Instant::elapsed`: the time since `origin`, in nanoseconds. It depends on when it is asked
/// for, so nothing is claimed of it.
#[verifier::external_body]
pub(crate) fn nanos_since(origin: &Instant) -> (nanos: u128) {
    origin.elapsed().as_nanos()
}

/// Asks `ask` about `origin`. The answer is one that `ask` gives.
fn answer(ask: impl Fn(&Instant) -> u128, origin: &Instant) -> (nanos: u128)
    requires
        call_requires(ask, (origin,)),
    ensures
        call_ensures(ask, (origin,), nanos),
{
    ask(origin)
}

/// Asks `ask`. The answer is one that `ask` gives.
fn begin(ask: impl Fn() -> Instant) -> (now: Instant)
    requires
        call_requires(ask, ()),
    ensures
        call_ensures(ask, (), now),
{
    ask()
}

/// A clock that reads the time since it was started, and never less than it read before.
pub(crate) struct Clock {
    pub(crate) origin: Instant,
    pub(crate) last: Duration,
}

impl View for Clock {
    type V = nat;

    /// The last reading in nanoseconds; zero before the first.
    open(crate) spec fn view(&self) -> nat {
        self.last@
    }
}

impl Clock {
    /// Whether the clock can read `now`: `Instant::elapsed` gave a number of nanoseconds since the
    /// clock was started, and `now` is that number, cut off at the longest span, or the last reading
    /// if that was more.
    pub(crate) open(crate) spec fn can_read(&self, now: nat) -> bool {
        exists|nanos: u128| #[trigger]
            call_ensures(nanos_since, (&self.origin,), nanos) && now == (if duration::capped(
                nanos as nat,
            ) > self@ {
                duration::capped(nanos as nat)
            } else {
                self@
            })
    }

    /// A reading is what `Instant::elapsed` gave, as it is: no less than the reading before, no
    /// less than that number of nanoseconds as far as a span can be that long, and equal to one of
    /// them.
    pub(crate) proof fn law_readings_are_elapsed_time(&self, now: nat)
        requires
            self.can_read(now),
        ensures
            exists|nanos: u128| #[trigger]
                call_ensures(nanos_since, (&self.origin,), nanos) && {
                    &&& now >= self@
                    &&& nanos <= duration::MAX_NANOS ==> now >= nanos && (now == nanos || now
                        == self@)
                    &&& nanos > duration::MAX_NANOS ==> now >= duration::MAX_NANOS && (now
                        == duration::MAX_NANOS || now == self@)
                },
    {
        let nanos = choose|nanos: u128| #[trigger]
            call_ensures(nanos_since, (&self.origin,), nanos) && now == (if duration::capped(
                nanos as nat,
            ) > self@ {
                duration::capped(nanos as nat)
            } else {
                self@
            });
        assert(call_ensures(nanos_since, (&self.origin,), nanos));
    }

    /// Starts a clock.
    pub(crate) fn start() -> (clock: Clock)
        ensures
            clock@ == 0,
            call_ensures(instant_now, (), clock.origin),
    {
        Clock { origin: begin(instant_now), last: Duration::zero() }
    }

    /// The time since the clock was started.
    pub(crate) fn read(&mut self) -> (reading: Duration)
        ensures
            reading@ >= old(self)@,
            final(self)@ == reading@,
            final(self).origin == old(self).origin,
            old(self).can_read(reading@),
            exists|nanos: u128| #[trigger]
                call_ensures(nanos_since, (&old(self).origin,), nanos) && {
                    &&& nanos <= duration::MAX_NANOS ==> reading@ >= nanos && (reading@ == nanos
                        || reading@ == old(self)@)
                    &&& nanos > duration::MAX_NANOS ==> reading@ >= duration::MAX_NANOS && (reading@
                        == duration::MAX_NANOS || reading@ == old(self)@)
                },
    {
        let nanos: u128 = answer(nanos_since, &self.origin);
        self.advance(nanos)
    }

    /// The reading when `nanos` nanoseconds have passed since the clock was started: as many, cut
    /// off at the longest span, unless the clock read more before.
    fn advance(&mut self, nanos: u128) -> (reading: Duration)
        ensures
            reading@ == (if duration::capped(nanos as nat) > old(self)@ {
                duration::capped(nanos as nat)
            } else {
                old(self)@
            }),
            final(self)@ == reading@,
            final(self).origin == old(self).origin,
    {
        let elapsed = Duration::from_nanos(nanos);
        if elapsed.as_nanos() > self.last.as_nanos() {
            self.last = elapsed;
        }
        self.last
    }
}

} // verus!
