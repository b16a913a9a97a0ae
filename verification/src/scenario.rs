//! The five ways a voyage calculation can end.

use vstd::prelude::*;

verus! {

/// How a voyage can be completed, or `Error` when the input was rejected.
#[derive(Clone, Copy, Debug, PartialEq, Eq, Structural)]
pub enum Scenario {
    /// The input was rejected; the narrative holds the reason.
    Error,
    /// The whole distance can be sailed within the time budget.
    SailOnly,
    /// Sail first, then switch to the motor at the changeover point.
    SailAndMotor,
    /// The whole distance is motored and the boat arrives on time.
    MotorOnly,
    /// The whole distance is motored and the boat still arrives late.
    MotorLate,
}

impl Scenario {
    /// The small integer under which the scenario travels on the wire.
    pub open spec fn code_spec(self) -> u8 {
        match self {
            Scenario::Error => 0,
            Scenario::SailOnly => 1,
            Scenario::SailAndMotor => 2,
            Scenario::MotorOnly => 3,
            Scenario::MotorLate => 4,
        }
    }

    /// The wire code of the scenario: 0 for `Error` up to 4 for `MotorLate`.
    pub fn code(&self) -> (c: u8)
        ensures
            c == self.code_spec(),
    {
        match self {
            Scenario::Error => 0,
            Scenario::SailOnly => 1,
            Scenario::SailAndMotor => 2,
            Scenario::MotorOnly => 3,
            Scenario::MotorLate => 4,
        }
    }
}

} // verus!
