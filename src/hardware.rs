//! Closed identities of the module's sensor inputs and relay outputs.
use vstd::prelude::*;

verus! {

/// Digital input identifier (one per physical sensor line).
#[derive(Debug, Clone, Copy, PartialEq, Eq, Structural)]
pub enum DigitalInput {
    DI1,
    DI2,
    DI3,
    DI4,
    DI5,
    DI6,
    DI7,
    DI8,
}

impl DigitalInput {
    /// Ordinal of the input, used as an array index.
    pub open spec fn spec_index(self) -> nat {
        match self {
            DigitalInput::DI1 => 0,
            DigitalInput::DI2 => 1,
            DigitalInput::DI3 => 2,
            DigitalInput::DI4 => 3,
            DigitalInput::DI5 => 4,
            DigitalInput::DI6 => 5,
            DigitalInput::DI7 => 6,
            DigitalInput::DI8 => 7,
        }
    }

    pub fn index(self) -> (r: usize)
        ensures
            r == self.spec_index(),
            r < 8,
    {
        match self {
            DigitalInput::DI1 => 0,
            DigitalInput::DI2 => 1,
            DigitalInput::DI3 => 2,
            DigitalInput::DI4 => 3,
            DigitalInput::DI5 => 4,
            DigitalInput::DI6 => 5,
            DigitalInput::DI7 => 6,
            DigitalInput::DI8 => 7,
        }
    }
}

/// Relay output identifier (one per expander channel).
#[derive(Debug, Clone, Copy, PartialEq, Eq, Structural)]
pub enum RelayOutput {
    Relay1,
    Relay2,
    Relay3,
    Relay4,
    Relay5,
    Relay6,
    Relay7,
    Relay8,
}

impl RelayOutput {
    /// Expander pin that drives the relay.
    pub open spec fn spec_pin(self) -> u8 {
        match self {
            RelayOutput::Relay1 => 0,
            RelayOutput::Relay2 => 1,
            RelayOutput::Relay3 => 2,
            RelayOutput::Relay4 => 3,
            RelayOutput::Relay5 => 4,
            RelayOutput::Relay6 => 5,
            RelayOutput::Relay7 => 6,
            RelayOutput::Relay8 => 7,
        }
    }

    pub fn pin(self) -> (r: u8)
        ensures
            r == self.spec_pin(),
            r < 8,
    {
        match self {
            RelayOutput::Relay1 => 0,
            RelayOutput::Relay2 => 1,
            RelayOutput::Relay3 => 2,
            RelayOutput::Relay4 => 3,
            RelayOutput::Relay5 => 4,
            RelayOutput::Relay6 => 5,
            RelayOutput::Relay7 => 6,
            RelayOutput::Relay8 => 7,
        }
    }
}

/// Relay state: `High` energises the relay, `Low` releases it.
#[derive(Debug, Clone, Copy, PartialEq, Eq, Structural)]
pub enum RelayState {
    High,
    Low,
}

} // verus!
