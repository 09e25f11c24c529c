//! Register-level driver for the TCA9554 8-bit I2C output expander.
//!
//! The driver keeps a shadow copy of the output register. Every write of
//! the output register first records the value in the shadow and then
//! makes the bus transaction, so the shadow mirrors the last attempted
//! write whether or not the transaction succeeds.
use vstd::prelude::*;

verus! {

/// Bus address of the expander on the relay board.
pub const TCA9554_ADDRESS: u8 = 0x20;

/// Output port register: one bit per pin.
pub const REG_OUTPUT_PORT: u8 = 0x01;

/// Configuration register: a zero bit makes the pin an output.
pub const REG_CONFIGURATION: u8 = 0x03;

/// A byte-oriented bus on which a device at a fixed address is written.
pub trait I2cBus {
    type Error;

    /// Writes `bytes` to the device at `address` in one transaction.
    fn write(&mut self, address: u8, bytes: &[u8]) -> Result<(), Self::Error>;
}

/// Mask `mask` with bit `pin` set.
pub open spec fn mask_with_pin_high(mask: u8, pin: u8) -> u8 {
    mask | ((1u8 << pin) as u8)
}

/// Mask `mask` with bit `pin` cleared.
pub open spec fn mask_with_pin_low(mask: u8, pin: u8) -> u8 {
    mask & !((1u8 << pin) as u8)
}

/// Setting or clearing one pin changes that pin's bit and leaves every
/// other bit of the mask as it was.
pub proof fn lemma_pin_masks(mask: u8, pin: u8, j: u8)
    by (bit_vector)
    requires
        pin < 8,
        j < 8,
    ensures
        (mask_with_pin_high(mask, pin) >> j) & 1 == if j == pin { 1u8 } else { (mask >> j) & 1 },
        (mask_with_pin_low(mask, pin) >> j) & 1 == if j == pin { 0u8 } else { (mask >> j) & 1 },
{
}

/// One register write: device address, register number, value.
#[derive(Debug, Clone, Copy, PartialEq, Eq, Structural)]
pub struct RegisterWrite {
    pub address: u8,
    pub register: u8,
    pub value: u8,
}

/// A write handed to the bus, with the result the bus returned for it.
pub type BusRecord<E> = (RegisterWrite, Result<(), E>);

/// Write of `value` to register `register` of the device at `address`.
pub open spec fn register_write(address: u8, register: u8, value: u8) -> RegisterWrite {
    RegisterWrite { address, register, value }
}

pub struct Tca9554<I2C: I2cBus> {
    i2c: I2C,
    address: u8,
    output_state: u8,
    issued: Ghost<Seq<BusRecord<I2C::Error>>>,
}

impl<I2C: I2cBus> Tca9554<I2C> {
    /// The shadow copy of the output register.
    pub closed spec fn shadow(&self) -> u8 {
        self.output_state
    }

    /// Every write handed to the bus so far, oldest first, each with the
    /// result the bus returned.
    pub closed spec fn issued(&self) -> Seq<BusRecord<I2C::Error>> {
        self.issued@
    }

    /// The bus address the driver writes to.
    pub closed spec fn spec_address(&self) -> u8 {
        self.address
    }

    pub fn new(i2c: I2C, address: u8) -> (r: Self)
        ensures
            r.shadow() == 0,
            r.spec_address() == address,
            r.issued() == Seq::<BusRecord<I2C::Error>>::empty(),
    {
        Tca9554 { i2c, address, output_state: 0x00, issued: Ghost(Seq::empty()) }
    }

    fn write_register(&mut self, register: u8, value: u8) -> (r: Result<(), I2C::Error>)
        ensures
            final(self).output_state == old(self).output_state,
            final(self).address == old(self).address,
            final(self).issued@ == old(self).issued@.push(
                (register_write(old(self).address, register, value), r),
            ),
    {
        let bytes: [u8; 2] = [register, value];
        let r = self.i2c.write(self.address, &bytes);
        self.issued = Ghost(self.issued@.push((register_write(self.address, register, value), r)));
        r
    }

    /// Makes every pin an output, then drives them all low. A failed
    /// configuration write is returned at once and nothing else is written;
    /// otherwise the shadow is cleared and the output register written, and
    /// that write's result is returned.
    pub fn init(&mut self) -> (r: Result<(), I2C::Error>)
        ensures
            final(self).spec_address() == old(self).spec_address(),
            ({
                let a = old(self).spec_address();
                let config = register_write(a, REG_CONFIGURATION, 0);
                let output = register_write(a, REG_OUTPUT_PORT, 0);
                ||| {
                    &&& r is Err
                    &&& final(self).issued() == old(self).issued().push((config, r))
                    &&& final(self).shadow() == old(self).shadow()
                }
                ||| {
                    &&& final(self).issued() == old(self).issued().push((config, Ok(()))).push((output, r))
                    &&& final(self).shadow() == 0
                }
            }),
    {
        let c = self.write_register(REG_CONFIGURATION, 0x00);
        match c {
            Ok(u) => {
                assert(u == ());
            },
            Err(e) => return Err(e),
        }
        assert(c == Ok::<(), I2C::Error>(()));
        self.output_state = 0x00;
        let r = self.write_register(REG_OUTPUT_PORT, 0x00);
        r
    }

    /// Drives `pin` high. A pin outside `0..8` is ignored: nothing is
    /// written and the call succeeds.
    pub fn set_pin_high(&mut self, pin: u8) -> (r: Result<(), I2C::Error>)
        ensures
            pin >= 8 ==> r is Ok && *final(self) == *old(self),
            pin < 8 ==> final(self).shadow() == mask_with_pin_high(old(self).shadow(), pin),
            pin < 8 ==> final(self).issued() == old(self).issued().push(
                (register_write(old(self).spec_address(), REG_OUTPUT_PORT, final(self).shadow()), r),
            ),
            final(self).spec_address() == old(self).spec_address(),
    {
        if pin >= 8 {
            return Ok(());
        }
        self.output_state = self.output_state | (1u8 << pin);
        let value = self.output_state;
        self.write_register(REG_OUTPUT_PORT, value)
    }

    /// Drives `pin` low. A pin outside `0..8` is ignored: nothing is
    /// written and the call succeeds.
    pub fn set_pin_low(&mut self, pin: u8) -> (r: Result<(), I2C::Error>)
        ensures
            pin >= 8 ==> r is Ok && *final(self) == *old(self),
            pin < 8 ==> final(self).shadow() == mask_with_pin_low(old(self).shadow(), pin),
            pin < 8 ==> final(self).issued() == old(self).issued().push(
                (register_write(old(self).spec_address(), REG_OUTPUT_PORT, final(self).shadow()), r),
            ),
            final(self).spec_address() == old(self).spec_address(),
    {
        if pin >= 8 {
            return Ok(());
        }
        self.output_state = self.output_state & !(1u8 << pin);
        let value = self.output_state;
        self.write_register(REG_OUTPUT_PORT, value)
    }

    /// Drives every pin low in one write and clears the shadow.
    pub fn all_off(&mut self) -> (r: Result<(), I2C::Error>)
        ensures
            final(self).shadow() == 0,
            final(self).spec_address() == old(self).spec_address(),
            final(self).issued() == old(self).issued().push(
                (register_write(old(self).spec_address(), REG_OUTPUT_PORT, 0), r),
            ),
    {
        self.output_state = 0x00;
        self.write_register(REG_OUTPUT_PORT, 0x00)
    }

    pub fn get_output_state(&self) -> (r: u8)
        ensures
            r == self.shadow(),
    {
        self.output_state
    }
}

} // verus!
