//! The voyage calculation: which scenario a trip falls under, the narrative
//! that explains it, and the shares of the time budget under sail and under
//! motor.

use crate::clock::{clock_text, format_clock, parse_time, time_of_day};
use crate::duration::{rounded_minutes, whole_minutes};
use crate::narrative::{
    motor_late_narrative, motor_late_text, motor_only_narrative, motor_only_text,
    sail_and_motor_narrative, sail_and_motor_text, sail_only_narrative, sail_only_text,
};
use crate::quantity::Quantity;
use crate::rational::{Ratio, Rational};
use crate::scenario::Scenario;
use crate::trip::TripInput;
use vstd::prelude::*;
use vstd::string::*;

verus! {

/// What a calculation says: the scenario, the narrative, and the shares of
/// the time budget spent under sail and under motor.
pub struct Outcome {
    pub scenario: Scenario,
    pub text: Seq<char>,
    pub sail_fraction: Rational,
    pub motor_fraction: Rational,
}

/// The result of a voyage calculation.
#[derive(Debug)]
pub struct SailResult {
    scenario: Scenario,
    result_html: String,
    sail_fraction: Ratio,
    motor_fraction: Ratio,
}

impl View for SailResult {
    type V = Outcome;

    closed spec fn view(&self) -> Outcome {
        Outcome {
            scenario: self.scenario,
            text: self.result_html@,
            sail_fraction: self.sail_fraction@,
            motor_fraction: self.motor_fraction@,
        }
    }
}

impl SailResult {
    /// The scenario that the trip falls under.
    pub fn scenario(&self) -> (s: Scenario)
        ensures
            s == self@.scenario,
    {
        self.scenario
    }

    /// The narrative, as a fragment of HTML.
    pub fn result_html(&self) -> (s: String)
        ensures
            s@ == self@.text,
    {
        self.result_html.clone()
    }

    /// The share of the time budget spent under sail.
    pub fn sail_fraction(&self) -> (f: Ratio)
        ensures
            f@ == self@.sail_fraction,
    {
        self.sail_fraction
    }

    /// The share of the time budget spent under motor.
    pub fn motor_fraction(&self) -> (f: Ratio)
        ensures
            f@ == self@.motor_fraction,
    {
        self.motor_fraction
    }
}

/// The outcome that rejects the input with the reason `message`.
pub open spec fn failure(message: Seq<char>) -> Outcome {
    Outcome {
        scenario: Scenario::Error,
        text: message,
        sail_fraction: Rational::whole(0),
        motor_fraction: Rational::whole(0),
    }
}

impl TripInput {
    /// The clock reading at which the motor is started: the departure plus
    /// the changeover point, to the nearest minute.
    pub open spec fn motor_start_clock(self) -> Seq<char> {
        clock_text(self.start_minutes + whole_minutes(self.changeover_hours()))
    }

    /// The clock reading at which a boat that motors all the way arrives:
    /// the departure plus the full motoring time, to the nearest minute.
    pub open spec fn late_arrival_clock(self) -> Seq<char> {
        clock_text(self.start_minutes + whole_minutes(self.motor_hours()))
    }

    /// The outcome of a trip that can be planned.
    pub open spec fn outcome(self) -> Outcome {
        match self.scenario() {
            Scenario::SailOnly => Outcome {
                scenario: Scenario::SailOnly,
                text: sail_only_text(self.sail_hours(), self.distance_units(), self.use_metric),
                sail_fraction: Rational::whole(1),
                motor_fraction: Rational::whole(0),
            },
            Scenario::SailAndMotor => Outcome {
                scenario: Scenario::SailAndMotor,
                text: sail_and_motor_text(
                    self.changeover_hours(),
                    self.distance_sailed(),
                    self.distance_motored(),
                    self.motoring_hours(),
                    self.motor_start_clock(),
                    self.fuel_after_changeover(),
                    self.use_metric,
                ),
                sail_fraction: self.changeover_hours().over(self.total_hours()),
                motor_fraction: self.motoring_hours().over(self.total_hours()),
            },
            Scenario::MotorLate => Outcome {
                scenario: Scenario::MotorLate,
                text: motor_late_text(self.late_arrival_clock(), self.fuel_all_motor()),
                sail_fraction: Rational::whole(0),
                motor_fraction: Rational::whole(1),
            },
            _ => Outcome {
                scenario: Scenario::MotorOnly,
                text: motor_only_text(self.motor_hours(), self.fuel_all_motor()),
                sail_fraction: Rational::whole(0),
                motor_fraction: self.motor_hours().over(self.total_hours()),
            },
        }
    }
}

/// The outcome of a calculation on the caller's own words: the two times as
/// text, the quantities in thousandths. The start time is read first, then
/// the arrival time, then the trip is checked; the first thing found wrong
/// is the reason of an `Error` outcome.
pub open spec fn calculation(
    start_time: Seq<char>,
    arrival_time: Seq<char>,
    distance: Quantity,
    sail_speed: Quantity,
    motor_speed: Quantity,
    fuel_consumption: Quantity,
    use_metric: bool,
    is_next_day: bool,
) -> Outcome {
    match (time_of_day(start_time), time_of_day(arrival_time)) {
        (None, _) => failure("Ongeldige starttijd."@),
        (Some(_), None) => failure("Ongeldige aankomsttijd."@),
        (Some(start), Some(arrival)) => {
            let trip = TripInput {
                start_minutes: start as u32,
                arrival_minutes: arrival as u32,
                distance,
                sail_speed,
                motor_speed,
                fuel_rate: fuel_consumption,
                use_metric,
                is_next_day,
            };
            match trip.rejection() {
                Some(message) => failure(message),
                None => trip.outcome(),
            }
        },
    }
}

/// Plans a trip that passed the checks: picks the scenario, writes the
/// narrative and gives the shares of the time budget.
pub fn plan_voyage(trip: &TripInput) -> (out: SailResult)
    requires
        trip.valid(),
    ensures
        out@ == trip.outcome(),
{
    let start = trip.start_minutes as u128;
    match trip.classify() {
        Scenario::SailOnly => SailResult {
            scenario: Scenario::SailOnly,
            result_html: sail_only_narrative(
                &trip.sail_time(),
                &trip.whole_distance(),
                trip.use_metric,
            ),
            sail_fraction: Ratio::one(),
            motor_fraction: Ratio::zero(),
        },
        Scenario::SailAndMotor => {
            let changeover = trip.changeover();
            let motor_start = format_clock(((start + rounded_minutes(&changeover)) % 1440) as i64);
            SailResult {
                scenario: Scenario::SailAndMotor,
                result_html: sail_and_motor_narrative(
                    &changeover,
                    &trip.sailed(),
                    &trip.motored(),
                    &trip.motoring_time(),
                    motor_start.as_str(),
                    &trip.fuel_mixed(),
                    trip.use_metric,
                ),
                sail_fraction: trip.sail_share(),
                motor_fraction: trip.motor_share(),
            }
        },
        Scenario::MotorLate => {
            let arrival = format_clock(((start + rounded_minutes(&trip.motor_time())) % 1440) as i64);
            SailResult {
                scenario: Scenario::MotorLate,
                result_html: motor_late_narrative(arrival.as_str(), &trip.fuel_motor()),
                sail_fraction: Ratio::zero(),
                motor_fraction: Ratio::one(),
            }
        },
        _ => SailResult {
            scenario: Scenario::MotorOnly,
            result_html: motor_only_narrative(&trip.motor_time(), &trip.fuel_motor()),
            sail_fraction: Ratio::zero(),
            motor_fraction: trip.full_motor_share(),
        },
    }
}

/// Calculates a voyage from the caller's own words. The two times are
/// `HH:MM` texts; distance and speeds are thousandths of the unit that
/// `use_metric` names, the fuel consumption is in thousandths of a litre per
/// hour. Whatever is wrong with the input comes back as an `Error` result
/// with the reason as its narrative.
pub fn calculate(
    start_time: &str,
    arrival_time: &str,
    distance: Quantity,
    sail_speed: Quantity,
    motor_speed: Quantity,
    fuel_consumption: Quantity,
    use_metric: bool,
    is_next_day: bool,
) -> (out: SailResult)
    ensures
        out@ == calculation(
            start_time@,
            arrival_time@,
            distance,
            sail_speed,
            motor_speed,
            fuel_consumption,
            use_metric,
            is_next_day,
        ),
{
    let start_minutes = match parse_time(start_time) {
        Some(minutes) => minutes,
        None => {
            return error_result("Ongeldige starttijd.");
        },
    };
    let arrival_minutes = match parse_time(arrival_time) {
        Some(minutes) => minutes,
        None => {
            return error_result("Ongeldige aankomsttijd.");
        },
    };
    let trip = TripInput {
        start_minutes,
        arrival_minutes,
        distance,
        sail_speed,
        motor_speed,
        fuel_rate: fuel_consumption,
        use_metric,
        is_next_day,
    };
    match trip.check() {
        Some(message) => error_result(message),
        None => plan_voyage(&trip),
    }
}

/// The `Error` result that carries `message`.
pub fn error_result(message: &str) -> (out: SailResult)
    ensures
        out@ == failure(message@),
{
    SailResult {
        scenario: Scenario::Error,
        result_html: String::from_str(message),
        sail_fraction: Ratio::zero(),
        motor_fraction: Ratio::zero(),
    }
}

} // verus!
