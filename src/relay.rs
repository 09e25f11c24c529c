//! Relay controller: runs timed sequences on the expander, one at a time.
//!
//! The controller owns the expander outright; every operation takes it by
//! `&mut`, so a sequence holds exclusive access to the bus for its whole run
//! and no other writer can interleave with it.
use vstd::prelude::*;
use crate::hardware::{RelayOutput, RelayState};
use crate::sequence::{SequenceStep, lemma_sequences_compose, mask_after, mask_after_steps};
use crate::tca9554::{REG_CONFIGURATION, REG_OUTPUT_PORT, RegisterWrite, register_write};
use crate::tca9554::{I2cBus, Tca9554};

verus! {

/// Something that suspends the caller for a number of milliseconds.
pub trait Pause {
    fn pause_ms(&mut self, ms: u32);
}

/// One thing the controller did: a register write with the result the bus
/// returned for it, or a pause of some milliseconds.
pub enum Activity<E> {
    Write(RegisterWrite, Result<(), E>),
    Pause(u32),
}

/// Write of `mask` to the output register of the device at `address`.
pub open spec fn output_write(address: u8, mask: u8) -> RegisterWrite {
    register_write(address, REG_OUTPUT_PORT, mask)
}

/// What running `steps` from output mask `mask` does when every write
/// succeeds: for each step in order, the write of the register with that
/// step applied, then the pause of the step's hold duration.
pub open spec fn completed_run<E>(address: u8, mask: u8, steps: Seq<SequenceStep>) -> Seq<Activity<E>>
    decreases steps.len(),
{
    if steps.len() == 0 {
        Seq::empty()
    } else {
        completed_run(address, mask, steps.drop_last()).push(
            Activity::Write(output_write(address, mask_after_steps(mask, steps)), Ok(())),
        ).push(Activity::Pause(steps.last().duration_ms))
    }
}

/// Running one sequence to completion and then another does exactly what
/// the first does followed by what the second does, the second starting
/// from the outputs the first left: no write or pause of one falls between
/// those of the other.
pub proof fn lemma_runs_compose<E>(address: u8, mask: u8, first: Seq<SequenceStep>, second: Seq<SequenceStep>)
    ensures
        completed_run::<E>(address, mask, first) + completed_run::<E>(
            address,
            mask_after_steps(mask, first),
            second,
        ) == completed_run::<E>(address, mask, first + second),
    decreases second.len(),
{
    lemma_sequences_compose(mask, first, second);
    if second.len() == 0 {
        assert(first + second == first);
        assert(completed_run::<E>(address, mask, first) + completed_run::<E>(
            address,
            mask_after_steps(mask, first),
            second,
        ) == completed_run::<E>(address, mask, first));
    } else {
        lemma_runs_compose::<E>(address, mask, first, second.drop_last());
        lemma_sequences_compose(mask, first, second);
        assert((first + second).drop_last() == first + second.drop_last());
        assert((first + second).last() == second.last());
    }
}

/// Relay controller managing 8 relay outputs via I2C.
pub struct RelayController<I2C: I2cBus> {
    expander: Tca9554<I2C>,
    trace: Ghost<Seq<Activity<I2C::Error>>>,
}

impl<I2C: I2cBus> RelayController<I2C> {
    /// The expander's shadow output register.
    pub closed spec fn shadow(&self) -> u8 {
        self.expander.shadow()
    }

    /// The bus address of the expander.
    pub closed spec fn address(&self) -> u8 {
        self.expander.spec_address()
    }

    /// Everything the controller has done since it was made, oldest first.
    pub closed spec fn trace(&self) -> Seq<Activity<I2C::Error>> {
        self.trace@
    }

    /// Wraps `expander`; nothing is written.
    pub fn new(expander: Tca9554<I2C>) -> (r: Self)
        ensures
            r.shadow() == expander.shadow(),
            r.address() == expander.spec_address(),
            r.trace() == Seq::<Activity<I2C::Error>>::empty(),
    {
        RelayController { expander, trace: Ghost(Seq::empty()) }
    }

    /// Configures the expander and turns every relay off; see
    /// `Tca9554::init`.
    pub fn init(&mut self) -> (r: Result<(), I2C::Error>)
        ensures
            final(self).address() == old(self).address(),
            ({
                let a = old(self).address();
                let config = register_write(a, REG_CONFIGURATION, 0);
                let output = register_write(a, REG_OUTPUT_PORT, 0);
                ||| {
                    &&& r is Err
                    &&& final(self).trace() == old(self).trace().push(Activity::Write(config, r))
                    &&& final(self).shadow() == old(self).shadow()
                }
                ||| {
                    &&& final(self).trace() == old(self).trace().push(Activity::Write(config, Ok(()))).push(
                        Activity::Write(output, r),
                    )
                    &&& final(self).shadow() == 0
                }
            }),
    {
        let ghost n = self.expander.issued().len();
        let r = self.expander.init();
        let ghost a = self.expander.spec_address();
        self.trace = Ghost(
            if self.expander.issued().len() == n + 1 {
                self.trace@.push(Activity::Write(register_write(a, REG_CONFIGURATION, 0), r))
            } else {
                self.trace@.push(Activity::Write(register_write(a, REG_CONFIGURATION, 0), Ok(()))).push(
                    Activity::Write(register_write(a, REG_OUTPUT_PORT, 0), r),
                )
            },
        );
        r
    }

    /// Sets one relay; the shadow records the change before the write, and
    /// the write's result is returned.
    pub fn set_relay(&mut self, relay: RelayOutput, state: RelayState) -> (r: Result<(), I2C::Error>)
        ensures
            final(self).address() == old(self).address(),
            final(self).shadow() == mask_after(old(self).shadow(), relay, state),
            final(self).trace() == old(self).trace().push(
                Activity::Write(output_write(old(self).address(), final(self).shadow()), r),
            ),
    {
        let pin = relay.pin();
        let r = match state {
            RelayState::High => self.expander.set_pin_high(pin),
            RelayState::Low => self.expander.set_pin_low(pin),
        };
        let ghost w = output_write(self.expander.spec_address(), self.expander.shadow());
        self.trace = Ghost(self.trace@.push(Activity::Write(w, r)));
        r
    }

    /// Runs `sequence` in order: each step sets its relay, then pauses for
    /// its hold duration. The first failed write aborts the remaining steps
    /// and its error is returned; the relays stay as the steps so far left
    /// them.
    pub fn execute_sequence<P: Pause>(&mut self, sequence: &[SequenceStep], pause: &mut P) -> (r:
        Result<(), I2C::Error>)
        ensures
            final(self).address() == old(self).address(),
            r is Ok ==> final(self).shadow() == mask_after_steps(old(self).shadow(), sequence@),
            r is Ok ==> final(self).trace() == old(self).trace() + completed_run(
                old(self).address(),
                old(self).shadow(),
                sequence@,
            ),
            r is Err ==> exists|k: int|
                {
                    &&& 0 <= k < sequence@.len()
                    &&& final(self).shadow() == mask_after_steps(old(self).shadow(), #[trigger] sequence@.take(k + 1))
                    &&& final(self).trace() == (old(self).trace() + completed_run(
                        old(self).address(),
                        old(self).shadow(),
                        sequence@.take(k),
                    )).push(Activity::Write(output_write(old(self).address(), final(self).shadow()), r))
                },
    {
        let ghost start = self.shadow();
        let ghost a = self.address();
        let mut i: usize = 0;
        while i < sequence.len()
            invariant
                0 <= i <= sequence@.len(),
                start == old(self).shadow(),
                a == old(self).address(),
                self.address() == a,
                self.shadow() == mask_after_steps(start, sequence@.take(i as int)),
                self.trace() == old(self).trace() + completed_run(a, start, sequence@.take(i as int)),
            decreases sequence@.len() - i,
        {
            let step = sequence[i];
            let res = self.set_relay(step.relay, step.state);
            assert(sequence@.take(i + 1).drop_last() == sequence@.take(i as int));
            assert(sequence@.take(i + 1).last() == step);
            assert(self.shadow() == mask_after_steps(start, sequence@.take(i + 1)));
            match res {
                Ok(u) => {
                    assert(u == ());
                },
                Err(e) => {
                    assert(res == Err::<(), I2C::Error>(e));
                    return Err(e);
                },
            }
            pause.pause_ms(step.duration_ms);
            self.trace = Ghost(self.trace@.push(Activity::Pause(step.duration_ms)));
            assert(self.trace() == old(self).trace() + completed_run(a, start, sequence@.take(i + 1)));
            i = i + 1;
        }
        assert(sequence@.take(i as int) == sequence@);
        Ok(())
    }

    /// Turns every relay off in one write and returns its result.
    pub fn all_off(&mut self) -> (r: Result<(), I2C::Error>)
        ensures
            final(self).address() == old(self).address(),
            final(self).shadow() == 0,
            final(self).trace() == old(self).trace().push(Activity::Write(output_write(old(self).address(), 0), r)),
    {
        let r = self.expander.all_off();
        let ghost w = output_write(self.expander.spec_address(), 0);
        self.trace = Ghost(self.trace@.push(Activity::Write(w, r)));
        r
    }

    /// The current shadow output register.
    pub fn output_state(&self) -> (r: u8)
        ensures
            r == self.shadow(),
    {
        self.expander.get_output_state()
    }
}

} // verus!
