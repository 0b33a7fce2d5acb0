use vstd::math::min;
use vstd::prelude::*;

verus! {

/// The maximum number of ticks that may elapse between two maintenance
/// checks without risking missed changes.
pub const CHECK_TICK_THRESHOLD: u32 = 518_400_000;

/// The maximum age a change tick may reach. Ages saturate here in
/// comparisons, and maintenance checks clamp stored ticks back to this
/// age, so a change stops being detected once it becomes this old.
pub const MAX_CHANGE_AGE: u32 = u32::MAX - (2 * CHECK_TICK_THRESHOLD - 1);

/// A value of the change counter, which advances monotonically and wraps
/// around its finite range. All comparisons are relative, over wrapped
/// distances, so they stay meaningful across a rollover as long as stored
/// ticks are periodically clamped by [`Tick::check_tick`].
#[derive(Clone, Copy, Debug, PartialEq, Eq, Structural)]
pub struct Tick {
    tick: u32,
}

/// A request to clamp stored ticks against the present counter value: the
/// rollover horizon handed to the periodic maintenance pass.
#[derive(Clone, Copy, Debug, PartialEq, Eq, Structural)]
pub struct CheckChangeTicks {
    present: Tick,
}

impl Tick {
    /// The raw counter value, as the specifications see it.
    pub closed spec fn spec_tick(&self) -> u32 {
        self.tick
    }

    /// The age of this tick at `now`: the wrapped distance the counter has
    /// advanced since it was recorded.
    pub open spec fn spec_age(self, now: Tick) -> u32 {
        now.spec_tick().wrapping_sub(self.spec_tick())
    }

    /// Whether this tick recorded a change since the observer at `last_run`
    /// last looked, judged at `this_run`. Ages saturate at
    /// [`MAX_CHANGE_AGE`], so a change that old or older is never reported
    /// as new.
    pub open spec fn spec_is_newer_than(self, last_run: Tick, this_run: Tick) -> bool {
        min(last_run.spec_age(this_run) as int, MAX_CHANGE_AGE as int) > min(
            self.spec_age(this_run) as int,
            MAX_CHANGE_AGE as int,
        )
    }

    /// Creates a new [`Tick`] wrapping the given counter value.
    pub fn new(tick: u32) -> (r: Self)
        ensures
            r.spec_tick() == tick,
    {
        Tick { tick }
    }

    /// Returns the raw counter value.
    pub fn get(&self) -> (r: u32)
        ensures
            r == self.spec_tick(),
    {
        self.tick
    }

    /// Overwrites the raw counter value.
    pub fn set(&mut self, tick: u32)
        ensures
            final(self).spec_tick() == tick,
    {
        self.tick = tick;
    }

    /// The wrapped distance from `other` up to `self`.
    pub fn relative_to(self, other: Tick) -> (r: Tick)
        ensures
            r.spec_tick() == self.spec_tick().wrapping_sub(other.spec_tick()),
    {
        Tick { tick: self.tick.wrapping_sub(other.tick) }
    }

    /// Returns `true` if this tick recorded a change since the observer at
    /// `last_run` last looked, judged at `this_run`.
    pub fn is_newer_than(self, last_run: Tick, this_run: Tick) -> (r: bool)
        ensures
            r == self.spec_is_newer_than(last_run, this_run),
    {
        let since_insert = this_run.tick.wrapping_sub(self.tick);
        let since_insert = if since_insert > MAX_CHANGE_AGE {
            MAX_CHANGE_AGE
        } else {
            since_insert
        };
        let since_system = this_run.tick.wrapping_sub(last_run.tick);
        let since_system = if since_system > MAX_CHANGE_AGE {
            MAX_CHANGE_AGE
        } else {
            since_system
        };
        since_system > since_insert
    }

    /// The tick a maintenance check at `check` leaves behind: clamped when
    /// its age at the horizon exceeds [`MAX_CHANGE_AGE`], otherwise
    /// unchanged. [`lemma_check_tick_is_clamp`] spells out both cases.
    pub closed spec fn spec_checked(self, check: CheckChangeTicks) -> Tick {
        if self.spec_age(check.spec_present()) > MAX_CHANGE_AGE {
            Tick { tick: check.spec_present().spec_tick().wrapping_sub(MAX_CHANGE_AGE) }
        } else {
            self
        }
    }

    /// Clamps this tick against the rollover horizon: a tick whose age at
    /// the horizon exceeds [`MAX_CHANGE_AGE`] is moved forward so its age
    /// is exactly that bound; younger ticks are untouched. Returns whether
    /// a clamp happened.
    ///
    /// Invoked periodically (at most [`CHECK_TICK_THRESHOLD`] ticks apart)
    /// this keeps every stored age within the window, so wrapped
    /// comparisons never alias across a rollover.
    pub fn check_tick(&mut self, check: CheckChangeTicks) -> (r: bool)
        ensures
            *final(self) == old(self).spec_checked(check),
            r == (old(self).spec_age(check.spec_present()) > MAX_CHANGE_AGE),
            r ==> final(self).spec_tick() == check.spec_present().spec_tick().wrapping_sub(
                MAX_CHANGE_AGE,
            ),
            !r ==> *final(self) == *old(self),
            final(self).spec_age(check.spec_present()) == min(
                old(self).spec_age(check.spec_present()) as int,
                MAX_CHANGE_AGE as int,
            ),
    {
        let present = check.present_tick();
        let age = present.tick.wrapping_sub(self.tick);
        if age > MAX_CHANGE_AGE {
            self.tick = present.tick.wrapping_sub(MAX_CHANGE_AGE);
            true
        } else {
            false
        }
    }
}

impl CheckChangeTicks {
    /// The present counter value this check clamps against.
    pub closed spec fn spec_present(&self) -> Tick {
        self.present
    }

    /// Creates a check against the given present counter value.
    pub fn new(present: Tick) -> (r: Self)
        ensures
            r.spec_present() == present,
    {
        CheckChangeTicks { present }
    }

    /// The present counter value this check clamps against.
    pub fn present_tick(&self) -> (r: Tick)
        ensures
            r == self.spec_present(),
    {
        self.present
    }
}

/// The ticks attached to one stored value: when it was first added, and
/// when it last changed.
#[derive(Clone, Copy, Debug, PartialEq, Eq, Structural)]
pub struct ComponentTicks {
    pub added: Tick,
    pub changed: Tick,
}

impl ComponentTicks {
    /// Both ticks set to the moment of first insertion.
    pub fn new(change_tick: Tick) -> (r: Self)
        ensures
            r.added == change_tick,
            r.changed == change_tick,
    {
        ComponentTicks { added: change_tick, changed: change_tick }
    }
}

/// Law: for ticks whose ages lie within the change-age window, the
/// saturating comparison is exact. "Newer than the observer's last look"
/// is then precisely "strictly smaller age".
pub proof fn lemma_is_newer_exact(t: Tick, last_run: Tick, this_run: Tick)
    requires
        t.spec_age(this_run) <= MAX_CHANGE_AGE,
        last_run.spec_age(this_run) <= MAX_CHANGE_AGE,
    ensures
        t.spec_is_newer_than(last_run, this_run) == (t.spec_age(this_run) < last_run.spec_age(
            this_run,
        )),
{
}

/// Law: a maintenance check computes exactly the saturated age. The age of
/// a checked tick at the horizon is the smaller of its previous age and
/// [`MAX_CHANGE_AGE`], so clamping never makes a tick look younger than
/// the window's edge, and never touches a tick already inside the window.
pub proof fn lemma_check_tick_is_clamp(t: Tick, check: CheckChangeTicks)
    ensures
        t.spec_checked(check).spec_age(check.spec_present()) == min(
            t.spec_age(check.spec_present()) as int,
            MAX_CHANGE_AGE as int,
        ),
        t.spec_age(check.spec_present()) <= MAX_CHANGE_AGE ==> t.spec_checked(check) == t,
        t.spec_age(check.spec_present()) > MAX_CHANGE_AGE ==> t.spec_checked(check).spec_tick()
            == check.spec_present().spec_tick().wrapping_sub(MAX_CHANGE_AGE),
{
}

} // verus!
