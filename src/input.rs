//! Input events, debounced edge acceptance, and per-input cooldowns.
use vstd::prelude::*;
use crate::clock::now_ms;
use crate::hardware::DigitalInput;

verus! {

/// Input trigger event.
#[derive(Debug, Clone, Copy)]
pub struct InputEvent {
    pub input: DigitalInput,
    pub timestamp_ms: u64,
}

/// Milliseconds from `since` to `now`; a reading earlier than `since`
/// counts as no time elapsed.
pub open spec fn elapsed_ms(since: u64, now: u64) -> nat {
    if now >= since {
        (now - since) as nat
    } else {
        0
    }
}

/// Whether an input whose last accepted trigger was `last` is still in its
/// cooldown window of `duration` milliseconds at time `now`.
pub open spec fn cooling_down(last: Option<u64>, duration: u64, now: u64) -> bool {
    match last {
        Some(t) => elapsed_ms(t, now) < duration,
        None => false,
    }
}

/// Milliseconds of cooldown left at time `now`, floored at zero.
pub open spec fn remaining_cooldown(last: Option<u64>, duration: u64, now: u64) -> nat {
    match last {
        Some(t) => if elapsed_ms(t, now) < duration {
            (duration - elapsed_ms(t, now)) as nat
        } else {
            0
        },
        None => 0,
    }
}

fn elapsed_since(since: u64, now: u64) -> (r: u64)
    ensures
        r == elapsed_ms(since, now),
{
    if now >= since {
        now - since
    } else {
        0
    }
}

/// Whether the cooldown window is still open; see `cooling_down`.
pub(crate) fn cooling_down_at(last: Option<u64>, duration: u64, now: u64) -> (r: bool)
    ensures
        r == cooling_down(last, duration, now),
{
    match last {
        Some(t) => elapsed_since(t, now) < duration,
        None => false,
    }
}

/// Cooldown left at `now`; see `remaining_cooldown`.
pub(crate) fn remaining_at(last: Option<u64>, duration: u64, now: u64) -> (r: u64)
    ensures
        r == remaining_cooldown(last, duration, now),
{
    match last {
        Some(t) => {
            let elapsed = elapsed_since(t, now);
            if elapsed < duration {
                duration - elapsed
            } else {
                0
            }
        },
        None => 0,
    }
}

/// Debounce state of one input line: an edge is accepted only when at least
/// the debounce window has passed since the last accepted edge.
pub struct InputMonitor {
    pub input: DigitalInput,
    pub debounce_ms: u64,
    pub last_accepted_ms: Option<u64>,
}

/// Whether an edge at `now` is accepted by a line whose last accepted edge
/// was `last`, with debounce window `window`.
pub open spec fn edge_accepted(last: Option<u64>, window: u64, now: u64) -> bool {
    match last {
        Some(t) => elapsed_ms(t, now) >= window,
        None => true,
    }
}

impl InputMonitor {
    pub fn new(input: DigitalInput, debounce_ms: u32) -> (r: Self)
        ensures
            r.input == input,
            r.debounce_ms == debounce_ms,
            r.last_accepted_ms is None,
    {
        InputMonitor { input, debounce_ms: debounce_ms as u64, last_accepted_ms: None }
    }

    /// Handles an activation edge seen at `now_ms`. An accepted edge is
    /// recorded and yields the event to emit; a bounced one changes nothing.
    pub fn edge_at(&mut self, now_ms: u64) -> (r: Option<InputEvent>)
        ensures
            edge_accepted(old(self).last_accepted_ms, old(self).debounce_ms, now_ms) ==> {
                &&& r == Some(InputEvent { input: old(self).input, timestamp_ms: now_ms })
                &&& *final(self) == (InputMonitor { last_accepted_ms: Some(now_ms), ..*old(self) })
            },
            !edge_accepted(old(self).last_accepted_ms, old(self).debounce_ms, now_ms) ==> {
                &&& r is None
                &&& *final(self) == *old(self)
            },
    {
        let accept = match self.last_accepted_ms {
            Some(t) => elapsed_since(t, now_ms) >= self.debounce_ms,
            None => true,
        };
        if accept {
            self.last_accepted_ms = Some(now_ms);
            Some(InputEvent { input: self.input, timestamp_ms: now_ms })
        } else {
            None
        }
    }

    /// Handles an activation edge seen now, reading the system clock.
    pub fn edge(&mut self) -> (r: Option<InputEvent>)
        ensures
            exists|now: u64|
                #![trigger edge_accepted(old(self).last_accepted_ms, old(self).debounce_ms, now)]
                {
                    &&& edge_accepted(old(self).last_accepted_ms, old(self).debounce_ms, now) ==> {
                        &&& r == Some(InputEvent { input: old(self).input, timestamp_ms: now })
                        &&& *final(self) == (InputMonitor { last_accepted_ms: Some(now), ..*old(self) })
                    }
                    &&& !edge_accepted(old(self).last_accepted_ms, old(self).debounce_ms, now)
                        ==> r is None && *final(self) == *old(self)
                },
    {
        let now = now_ms();
        self.edge_at(now)
    }
}

/// Debouncing: after a line accepts an edge at `t1`, a later edge at `t2`
/// is accepted exactly when the two are at least the debounce window apart.
/// So two edges closer than the window yield one event, and two edges at
/// least the window apart yield two.
pub proof fn lemma_debounce_pair(m: InputMonitor, t1: u64, t2: u64)
    requires
        edge_accepted(m.last_accepted_ms, m.debounce_ms, t1),
        t1 <= t2,
    ensures
        ({
            let after = InputMonitor { last_accepted_ms: Some(t1), ..m };
            edge_accepted(after.last_accepted_ms, after.debounce_ms, t2) <==> t2 - t1 >= m.debounce_ms
        }),
{
}

/// Between two triggers the remaining cooldown never grows as time moves
/// on; it is positive while the window is open and exactly zero once the
/// window has elapsed.
pub proof fn lemma_remaining_cooldown_monotonic(last: Option<u64>, duration: u64, t1: u64, t2: u64)
    requires
        t1 <= t2,
    ensures
        remaining_cooldown(last, duration, t2) <= remaining_cooldown(last, duration, t1),
        last matches Some(t) && t2 >= t + duration ==> remaining_cooldown(last, duration, t2) == 0,
        last matches Some(t) && t <= t1 && t1 < t + duration ==> remaining_cooldown(last, duration, t1) > 0,
        remaining_cooldown(last, duration, t1) > 0 <==> cooling_down(last, duration, t1),
{
}

/// Per-input cooldown tracker with one cooldown duration for every input.
pub struct CooldownTracker {
    cooldowns: [Option<u64>; 8],
    cooldown_duration: u64,
}

impl CooldownTracker {
    /// The last accepted trigger time of `input`, if any.
    pub closed spec fn last_trigger(&self, input: DigitalInput) -> Option<u64> {
        self.cooldowns@[input.spec_index() as int]
    }

    /// The cooldown window, in milliseconds.
    pub closed spec fn duration(&self) -> u64 {
        self.cooldown_duration
    }

    pub fn new(cooldown_ms: u32) -> (r: Self)
        ensures
            r.duration() == cooldown_ms,
            forall|i: DigitalInput| #[trigger] r.last_trigger(i) is None,
    {
        CooldownTracker { cooldowns: [None; 8], cooldown_duration: cooldown_ms as u64 }
    }

    pub fn is_cooling_down_at(&self, input: DigitalInput, now_ms: u64) -> (r: bool)
        ensures
            r == cooling_down(self.last_trigger(input), self.duration(), now_ms),
    {
        cooling_down_at(self.cooldowns[input.index()], self.cooldown_duration, now_ms)
    }

    /// Whether `input` is in cooldown now, reading the system clock.
    pub fn is_cooling_down(&self, input: DigitalInput) -> (r: bool)
        ensures
            exists|now: u64| r == #[trigger] cooling_down(self.last_trigger(input), self.duration(), now),
    {
        self.is_cooling_down_at(input, now_ms())
    }

    pub fn mark_triggered_at(&mut self, input: DigitalInput, now_ms: u64)
        ensures
            final(self).duration() == old(self).duration(),
            final(self).last_trigger(input) == Some(now_ms),
            forall|j: DigitalInput| j != input ==> #[trigger] final(self).last_trigger(j) == old(self).last_trigger(j),
    {
        self.cooldowns[input.index()] = Some(now_ms);
    }

    /// Starts the cooldown of `input` at the current clock reading.
    pub fn mark_triggered(&mut self, input: DigitalInput)
        ensures
            final(self).duration() == old(self).duration(),
            final(self).last_trigger(input) is Some,
            forall|j: DigitalInput| j != input ==> #[trigger] final(self).last_trigger(j) == old(self).last_trigger(j),
    {
        let now = now_ms();
        self.mark_triggered_at(input, now);
    }

    pub fn remaining_ms_at(&self, input: DigitalInput, now_ms: u64) -> (r: u64)
        ensures
            r == remaining_cooldown(self.last_trigger(input), self.duration(), now_ms),
    {
        remaining_at(self.cooldowns[input.index()], self.cooldown_duration, now_ms)
    }

    /// Cooldown left for `input` now, reading the system clock.
    pub fn remaining_ms(&self, input: DigitalInput) -> (r: u64)
        ensures
            exists|now: u64| r == #[trigger] remaining_cooldown(self.last_trigger(input), self.duration(), now),
    {
        self.remaining_ms_at(input, now_ms())
    }
}

} // verus!
