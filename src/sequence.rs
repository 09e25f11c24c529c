//! Timed relay sequences, the trigger table, and the cooldown-gated dispatcher.
use vstd::prelude::*;
use crate::hardware::{DigitalInput, RelayOutput, RelayState};
use crate::clock::now_ms;
use crate::input::{cooling_down, cooling_down_at, remaining_at, remaining_cooldown};
use crate::tca9554::{mask_with_pin_high, mask_with_pin_low};

verus! {

/// Single step in a relay sequence: set `relay` to `state`, then hold for
/// `duration_ms` before the next step.
#[derive(Debug, Clone, Copy)]
pub struct SequenceStep {
    pub relay: RelayOutput,
    pub state: RelayState,
    pub duration_ms: u32,
}

impl SequenceStep {
    pub fn new(relay: RelayOutput, state: RelayState, duration_ms: u32) -> (r: Self)
        ensures
            r.relay == relay,
            r.state == state,
            r.duration_ms == duration_ms,
    {
        SequenceStep { relay, state, duration_ms }
    }
}

/// Output mask after setting `relay` to `state` on the mask `mask`.
pub open spec fn mask_after(mask: u8, relay: RelayOutput, state: RelayState) -> u8 {
    match state {
        RelayState::High => mask_with_pin_high(mask, relay.spec_pin()),
        RelayState::Low => mask_with_pin_low(mask, relay.spec_pin()),
    }
}

/// Output mask after applying every step of `steps`, in order, to `mask`.
pub open spec fn mask_after_steps(mask: u8, steps: Seq<SequenceStep>) -> u8
    decreases steps.len(),
{
    if steps.len() == 0 {
        mask
    } else {
        let last = steps.last();
        mask_after(mask_after_steps(mask, steps.drop_last()), last.relay, last.state)
    }
}

/// Running one sequence to completion and then another leaves the outputs
/// exactly as running the concatenated steps in order: the second sequence
/// starts from where the first one finished.
pub proof fn lemma_sequences_compose(mask: u8, first: Seq<SequenceStep>, second: Seq<SequenceStep>)
    ensures
        mask_after_steps(mask_after_steps(mask, first), second) == mask_after_steps(mask, first + second),
    decreases second.len(),
{
    if second.len() == 0 {
        assert(first + second == first);
    } else {
        lemma_sequences_compose(mask, first, second.drop_last());
        assert((first + second).drop_last() == first + second.drop_last());
        assert((first + second).last() == second.last());
    }
}

/// Configuration for a trigger-to-sequence mapping.
#[derive(Debug, Clone, Copy)]
pub struct SequenceConfig {
    /// Which digital input triggers this sequence
    pub trigger: DigitalInput,
    /// Cooldown duration in milliseconds
    pub cooldown_ms: u32,
    /// The sequence steps to execute
    pub sequence: &'static [SequenceStep],
    /// Name for diagnostics
    pub name: &'static str,
}

impl SequenceConfig {
    pub fn new(
        trigger: DigitalInput,
        cooldown_ms: u32,
        sequence: &'static [SequenceStep],
        name: &'static str,
    ) -> (r: Self)
        ensures
            r.trigger == trigger,
            r.cooldown_ms == cooldown_ms,
            r.sequence@ == sequence@,
            r.name@ == name@,
    {
        SequenceConfig { trigger, cooldown_ms, sequence, name }
    }
}

/// Whether no entry of `configs` before index `end` is triggered by `input`.
pub open spec fn unmapped_before(configs: Seq<SequenceConfig>, input: DigitalInput, end: int) -> bool {
    forall|j: int| 0 <= j < end ==> (#[trigger] configs[j]).trigger != input
}

/// Whether entry `k` is the first entry of `configs` triggered by `input`.
pub open spec fn is_first_match(configs: Seq<SequenceConfig>, input: DigitalInput, k: int) -> bool {
    &&& 0 <= k < configs.len()
    &&& configs[k].trigger == input
    &&& unmapped_before(configs, input, k)
}

/// Whether entry `k` is the first entry of `configs[..end]` triggered by `input`.
pub open spec fn is_first_match_before(configs: Seq<SequenceConfig>, input: DigitalInput, k: int, end: int) -> bool {
    &&& 0 <= k < end
    &&& configs[k].trigger == input
    &&& unmapped_before(configs, input, k)
}

/// Cooldown that the table `configs[..end]` gives `input`: that of the
/// first entry for it, or zero when it has none.
pub open spec fn table_cooldown(configs: Seq<SequenceConfig>, input: DigitalInput, end: int, d: u64) -> bool {
    &&& unmapped_before(configs, input, end) ==> d == 0
    &&& forall|k: int| #[trigger] is_first_match_before(configs, input, k, end) ==> d == configs[k].cooldown_ms
}

/// What the dispatcher decided for one trigger event.
#[derive(Debug, Clone, Copy)]
pub enum Dispatch {
    /// The input is still cooling down; the event is discarded.
    CoolingDown { remaining_ms: u64 },
    /// No sequence is mapped to the input; the event is discarded.
    Unmapped,
    /// The cooldown has started and the configured sequence is to run.
    Run(SequenceConfig),
}

/// Manages sequence dispatch and per-input cooldown tracking.
pub struct SequenceDispatcher {
    cooldowns: [Option<u64>; 8],
    cooldown_durations: [u64; 8],
}

impl SequenceDispatcher {
    /// The last accepted trigger time of `input`, if any.
    pub closed spec fn last_trigger(&self, input: DigitalInput) -> Option<u64> {
        self.cooldowns@[input.spec_index() as int]
    }

    /// The cooldown window of `input`, in milliseconds.
    pub closed spec fn duration(&self, input: DigitalInput) -> u64 {
        self.cooldown_durations@[input.spec_index() as int]
    }

    /// Whether every input keeps the cooldown window of `other`.
    pub open spec fn same_durations(&self, other: &Self) -> bool {
        forall|i: DigitalInput| #[trigger] self.duration(i) == other.duration(i)
    }

    /// Whether `self` is `old` with only the last trigger of `input` moved to `t`.
    pub open spec fn triggered_from(&self, old: &Self, input: DigitalInput, t: u64) -> bool {
        &&& self.same_durations(old)
        &&& self.last_trigger(input) == Some(t)
        &&& forall|j: DigitalInput| j != input ==> #[trigger] self.last_trigger(j) == old.last_trigger(j)
    }

    /// Create a new dispatcher from a sequence configuration table. Each
    /// input gets the cooldown of its first entry in the table, the entry
    /// that `find_config` picks, or zero when it has none.
    pub fn new(configs: &[SequenceConfig]) -> (r: Self)
        ensures
            forall|i: DigitalInput| #[trigger] r.last_trigger(i) is None,
            forall|i: DigitalInput| table_cooldown(configs@, i, configs@.len() as int, #[trigger] r.duration(i)),
    {
        let mut cooldown_durations: [u64; 8] = [0; 8];
        let mut seen: [bool; 8] = [false; 8];
        let mut n: usize = 0;
        while n < configs.len()
            invariant
                0 <= n <= configs@.len(),
                forall|i: DigitalInput| #[trigger] seen@[i.spec_index() as int] == !unmapped_before(configs@, i, n as int),
                forall|i: DigitalInput| table_cooldown(configs@, i, n as int, #[trigger] cooldown_durations@[i.spec_index() as int]),
            decreases configs@.len() - n,
        {
            let config = configs[n];
            let idx = config.trigger.index();
            let ghost before = cooldown_durations@;
            let ghost seen_before = seen@;
            if !seen[idx] {
                cooldown_durations[idx] = config.cooldown_ms as u64;
                seen[idx] = true;
            }
            assert forall|i: DigitalInput| #[trigger] seen@[i.spec_index() as int] == !unmapped_before(configs@, i, n + 1) by {
                if i == config.trigger {
                    assert(configs@[n as int].trigger == i);
                } else {
                    assert(i.spec_index() != idx);
                }
            }
            assert forall|i: DigitalInput| table_cooldown(configs@, i, n + 1, #[trigger] cooldown_durations@[i.spec_index() as int]) by {
                if i == config.trigger {
                    assert(!unmapped_before(configs@, i, n + 1)) by {
                        assert(configs@[n as int].trigger == i);
                    }
                    if !seen_before[idx as int] {
                        assert forall|k: int| #[trigger] is_first_match_before(configs@, i, k, n + 1) implies k == n by {
                            if k < n {
                                assert(!unmapped_before(configs@, i, n as int));
                            }
                        }
                    } else {
                        assert forall|k: int| #[trigger] is_first_match_before(configs@, i, k, n + 1) implies is_first_match_before(configs@, i, k, n as int) by {
                            if k == n {
                                let j = choose|j: int| 0 <= j < n && (#[trigger] configs@[j]).trigger == i;
                                assert(configs@[j].trigger != i);
                            }
                        }
                    }
                } else {
                    assert(i.spec_index() != idx);
                    assert forall|k: int| #[trigger] is_first_match_before(configs@, i, k, n + 1) implies is_first_match_before(configs@, i, k, n as int) by {}
                }
            }
            n = n + 1;
        }
        SequenceDispatcher { cooldowns: [None; 8], cooldown_durations }
    }

    /// Check if an input is in cooldown at time `now_ms`.
    pub fn is_cooling_down_at(&self, input: DigitalInput, now_ms: u64) -> (r: bool)
        ensures
            r == cooling_down(self.last_trigger(input), self.duration(input), now_ms),
    {
        let idx = input.index();
        cooling_down_at(self.cooldowns[idx], self.cooldown_durations[idx], now_ms)
    }

    /// Check if an input is currently in cooldown, reading the system clock.
    pub fn is_cooling_down(&self, input: DigitalInput) -> (r: bool)
        ensures
            exists|now: u64| r == #[trigger] cooling_down(self.last_trigger(input), self.duration(input), now),
    {
        self.is_cooling_down_at(input, now_ms())
    }

    /// Start the cooldown of `input` at time `now_ms`.
    pub fn mark_triggered_at(&mut self, input: DigitalInput, now_ms: u64)
        ensures
            final(self).triggered_from(old(self), input, now_ms),
    {
        self.cooldowns[input.index()] = Some(now_ms);
    }

    /// Mark an input as triggered (starts cooldown), reading the system clock.
    pub fn mark_triggered(&mut self, input: DigitalInput)
        ensures
            exists|now: u64| #[trigger] final(self).triggered_from(old(self), input, now),
    {
        let now = now_ms();
        self.mark_triggered_at(input, now);
    }

    /// Remaining cooldown of `input` at time `now_ms`, in milliseconds.
    pub fn remaining_ms_at(&self, input: DigitalInput, now_ms: u64) -> (r: u64)
        ensures
            r == remaining_cooldown(self.last_trigger(input), self.duration(input), now_ms),
    {
        let idx = input.index();
        remaining_at(self.cooldowns[idx], self.cooldown_durations[idx], now_ms)
    }

    /// Get remaining cooldown time in milliseconds, reading the system clock.
    pub fn remaining_ms(&self, input: DigitalInput) -> (r: u64)
        ensures
            exists|now: u64| r == #[trigger] remaining_cooldown(self.last_trigger(input), self.duration(input), now),
    {
        self.remaining_ms_at(input, now_ms())
    }

    /// Find the first configuration entry triggered by `input`.
    pub fn find_config<'a>(&self, configs: &'a [SequenceConfig], input: DigitalInput) -> (r: Option<&'a SequenceConfig>)
        ensures
            r is None <==> unmapped_before(configs@, input, configs@.len() as int),
            r matches Some(c) ==> exists|k: int| #[trigger] is_first_match(configs@, input, k) && *c == configs@[k],
    {
        let mut n: usize = 0;
        while n < configs.len()
            invariant
                0 <= n <= configs@.len(),
                unmapped_before(configs@, input, n as int),
            decreases configs@.len() - n,
        {
            if configs[n].trigger == input {
                assert(is_first_match(configs@, input, n as int));
                return Some(&configs[n]);
            }
            n = n + 1;
        }
        None
    }

    /// Decides what to do with a trigger event for `input` received at
    /// `now_ms`. A cooling-down input reports its remaining cooldown; an
    /// unmapped one is discarded; either way nothing changes. Otherwise the
    /// cooldown starts now, before the sequence runs, and the first
    /// matching configuration is returned.
    pub fn dispatch_at(&mut self, configs: &[SequenceConfig], input: DigitalInput, now_ms: u64) -> (r: Dispatch)
        ensures
            cooling_down(old(self).last_trigger(input), old(self).duration(input), now_ms) ==> {
                &&& r == (Dispatch::CoolingDown {
                    remaining_ms: remaining_cooldown(old(self).last_trigger(input), old(self).duration(input), now_ms) as u64,
                })
                &&& *final(self) == *old(self)
            },
            !cooling_down(old(self).last_trigger(input), old(self).duration(input), now_ms)
                && unmapped_before(configs@, input, configs@.len() as int) ==> {
                &&& r == Dispatch::Unmapped
                &&& *final(self) == *old(self)
            },
            !cooling_down(old(self).last_trigger(input), old(self).duration(input), now_ms)
                && !unmapped_before(configs@, input, configs@.len() as int) ==> {
                &&& exists|k: int| #[trigger] is_first_match(configs@, input, k) && r == Dispatch::Run(configs@[k])
                &&& final(self).triggered_from(old(self), input, now_ms)
            },
    {
        if self.is_cooling_down_at(input, now_ms) {
            return Dispatch::CoolingDown { remaining_ms: self.remaining_ms_at(input, now_ms) };
        }
        match self.find_config(configs, input) {
            Some(config) => {
                self.mark_triggered_at(input, now_ms);
                Dispatch::Run(*config)
            },
            None => Dispatch::Unmapped,
        }
    }

    /// Decides what to do with a trigger event for `input` received now,
    /// reading the system clock; see `dispatch_at`.
    pub fn dispatch(&mut self, configs: &[SequenceConfig], input: DigitalInput) -> (r: Dispatch)
        ensures
            exists|now: u64| #![trigger cooling_down(old(self).last_trigger(input), old(self).duration(input), now)] {
                &&& cooling_down(old(self).last_trigger(input), old(self).duration(input), now) ==> {
                    &&& r == (Dispatch::CoolingDown {
                        remaining_ms: remaining_cooldown(old(self).last_trigger(input), old(self).duration(input), now) as u64,
                    })
                    &&& *final(self) == *old(self)
                }
                &&& !cooling_down(old(self).last_trigger(input), old(self).duration(input), now)
                    && unmapped_before(configs@, input, configs@.len() as int) ==> {
                    &&& r == Dispatch::Unmapped
                    &&& *final(self) == *old(self)
                }
                &&& !cooling_down(old(self).last_trigger(input), old(self).duration(input), now)
                    && !unmapped_before(configs@, input, configs@.len() as int) ==> {
                    &&& exists|k: int| #[trigger] is_first_match(configs@, input, k) && r == Dispatch::Run(configs@[k])
                    &&& final(self).triggered_from(old(self), input, now)
                }
            },
    {
        let now = now_ms();
        self.dispatch_at(configs, input, now)
    }
}

/// Marking an input as triggered at time `t` puts it in cooldown at that
/// same instant whenever its cooldown window is not zero.
pub proof fn lemma_trigger_starts_cooldown(
    before: SequenceDispatcher,
    after: SequenceDispatcher,
    input: DigitalInput,
    t: u64,
)
    requires
        after.triggered_from(&before, input, t),
        after.duration(input) > 0,
    ensures
        cooling_down(after.last_trigger(input), after.duration(input), t),
{
}

/// An input that was never triggered is not cooling down and has no
/// cooldown left, at any time.
pub proof fn lemma_untriggered_not_cooling(d: SequenceDispatcher, input: DigitalInput, now: u64)
    requires
        d.last_trigger(input) is None,
    ensures
        !cooling_down(d.last_trigger(input), d.duration(input), now),
        remaining_cooldown(d.last_trigger(input), d.duration(input), now) == 0,
{
}

} // verus!
