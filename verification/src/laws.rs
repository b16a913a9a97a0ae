//! What holds of every voyage calculation.

use crate::clock::{clock_text, time_of_day};
use crate::duration::whole_minutes;
use crate::narrative::motor_late_text;
use crate::quantity::Quantity;
use crate::rational::Rational;
use crate::scenario::Scenario;
use crate::trip::TripInput;
use crate::voyage::calculation;
use vstd::prelude::*;

verus! {

/// The scenario and the shares of an outcome, apart from its narrative.
proof fn lemma_outcome_parts(trip: TripInput)
    ensures
        trip.outcome().scenario == trip.scenario(),
        trip.scenario() == Scenario::SailOnly ==> trip.outcome().sail_fraction == Rational::whole(1)
            && trip.outcome().motor_fraction == Rational::whole(0),
        trip.scenario() == Scenario::SailAndMotor ==> trip.outcome().sail_fraction
            == trip.changeover_hours().over(trip.total_hours()) && trip.outcome().motor_fraction
            == trip.motoring_hours().over(trip.total_hours()),
        trip.scenario() == Scenario::MotorLate ==> trip.outcome().sail_fraction == Rational::whole(
            0,
        ) && trip.outcome().motor_fraction == Rational::whole(1) && trip.outcome().text
            == motor_late_text(
            clock_text(trip.start_minutes + whole_minutes(trip.motor_hours())),
            trip.fuel_all_motor(),
        ),
{
}

/// The arithmetic behind the shares of a trip with time budget `t`,
/// distance `d`, sail speed `s` and motor speed `m`, over the quotients that
/// `TripInput` defines.
proof fn lemma_shares_arithmetic(t: int, d: int, s: int, m: int)
    requires
        t > 0,
        d > 0,
        0 < s < m,
    ensures
        ({
            let total = Rational { numer: t, denom: 60 };
            let sail = Rational { numer: d, denom: s };
            let motor = Rational { numer: d, denom: m };
            let change = Rational { numer: m * t - 60 * d, denom: 60 * (m - s) };
            let rest = Rational { numer: 60 * d - s * t, denom: 60 * (m - s) };
            &&& change.over(total).wf()
            &&& rest.over(total).wf()
            &&& change.over(total).plus(rest.over(total)).same(Rational::whole(1))
            &&& change.le(total) <==> !sail.lt(total)
            &&& 0 <= change.numer <==> motor.le(total)
            &&& sail.le(total) ==> motor.le(total)
            &&& total.lt(motor) <==> !motor.le(total)
            &&& 0 <= change.numer ==> Rational::whole(0).le(change.over(total))
            &&& !sail.le(total) ==> Rational::whole(0).le(rest.over(total))
            &&& 0 <= change.numer ==> rest.over(total).le(Rational::whole(1))
            &&& !sail.le(total) ==> change.over(total).le(Rational::whole(1))
        }),
{
    let mt = m * t;
    let st = s * t;
    let den = (60 * (m - s)) * t;
    assert(t * m == mt && t * s == st) by (nonlinear_arith)
        requires
            mt == m * t,
            st == s * t,
    ;
    assert(den == 60 * mt - 60 * st && t * (60 * (m - s)) == den) by (nonlinear_arith)
        requires
            mt == m * t,
            st == s * t,
            den == (60 * (m - s)) * t,
    ;
    assert(st < mt) by (nonlinear_arith)
        requires
            mt == m * t,
            st == s * t,
            t > 0,
            s < m,
    ;
    let a = (mt - 60 * d) * 60;
    let b = (60 * d - st) * 60;
    assert(a + b == den);
    assert(a * den + b * den == 1 * (den * den)) by (nonlinear_arith)
        requires
            a + b == den,
    ;
    assert(d * 60 == 60 * d);
    assert(0 * den == 0 && a * 1 == a && b * 1 == b && 1 * den == den);
}

/// A trip can be planned exactly when its times are minutes of a day and
/// nothing is found wrong with it.
pub proof fn lemma_valid_iff_not_rejected(trip: TripInput)
    ensures
        trip.valid() <==> trip.times_in_range() && trip.rejection() is None,
{
}

/// Whenever the distance can be sailed within the time budget, the outcome
/// is `SailOnly`, with the whole budget under sail and none under motor.
pub proof fn lemma_sail_only_when_sailing_is_fast_enough(trip: TripInput)
    requires
        trip.valid(),
        trip.sail_hours().le(trip.total_hours()),
    ensures
        trip.outcome().scenario == Scenario::SailOnly,
        trip.outcome().sail_fraction == Rational::whole(1),
        trip.outcome().motor_fraction == Rational::whole(0),
{
    lemma_outcome_parts(trip);
}

/// In a `SailAndMotor` outcome the changeover point lies between the
/// departure and the end of the time budget, and the two shares of the
/// budget are numbers that add up to one.
pub proof fn lemma_sail_and_motor_shares_add_up(trip: TripInput)
    requires
        trip.valid(),
        trip.outcome().scenario == Scenario::SailAndMotor,
    ensures
        Rational::whole(0).le(trip.changeover_hours()),
        trip.changeover_hours().le(trip.total_hours()),
        trip.outcome().sail_fraction.wf(),
        trip.outcome().motor_fraction.wf(),
        trip.outcome().sail_fraction.plus(trip.outcome().motor_fraction).same(Rational::whole(1)),
{
    lemma_outcome_parts(trip);
    lemma_shares_arithmetic(
        trip.total_minutes(),
        trip.distance@,
        trip.sail_speed@,
        trip.motor_speed@,
    );
}

/// The outcome is `MotorLate` exactly when motoring the whole distance
/// takes longer than the time budget. The narrative then gives the clock
/// reading of the departure plus the full motoring time, to the nearest
/// minute and wrapped into one day.
pub proof fn lemma_motor_late_iff_motor_too_slow(trip: TripInput)
    requires
        trip.valid(),
    ensures
        trip.outcome().scenario == Scenario::MotorLate <==> trip.total_hours().lt(
            trip.motor_hours(),
        ),
        trip.outcome().scenario == Scenario::MotorLate ==> trip.outcome().text == motor_late_text(
            clock_text(trip.start_minutes + whole_minutes(trip.motor_hours())),
            trip.fuel_all_motor(),
        ),
{
    lemma_outcome_parts(trip);
    lemma_scenario_by_speed(trip);
    lemma_shares_arithmetic(
        trip.total_minutes(),
        trip.distance@,
        trip.sail_speed@,
        trip.motor_speed@,
    );
}

/// Which scenario a trip falls under, told from the two full travel times
/// alone: sailing all the way is fast enough, or else motoring all the way
/// is, or else neither. A trip that can be planned never comes out as
/// `MotorOnly`: where the motor alone is in time, so is a changeover.
pub proof fn lemma_scenario_by_speed(trip: TripInput)
    requires
        trip.valid(),
    ensures
        trip.scenario() == if trip.sail_hours().le(trip.total_hours()) {
            Scenario::SailOnly
        } else if trip.motor_hours().le(trip.total_hours()) {
            Scenario::SailAndMotor
        } else {
            Scenario::MotorLate
        },
        trip.outcome().scenario == trip.scenario(),
        trip.outcome().scenario != Scenario::MotorOnly,
        trip.outcome().scenario != Scenario::Error,
{
    lemma_outcome_parts(trip);
    lemma_shares_arithmetic(
        trip.total_minutes(),
        trip.distance@,
        trip.sail_speed@,
        trip.motor_speed@,
    );
}

/// The two shares of the time budget are numbers between nought and one,
/// and together they are no more than one, whatever the scenario.
pub proof fn lemma_shares_within_budget(trip: TripInput)
    requires
        trip.valid(),
    ensures
        share_is_sound(trip.outcome().sail_fraction),
        share_is_sound(trip.outcome().motor_fraction),
        trip.outcome().sail_fraction.plus(trip.outcome().motor_fraction).le(Rational::whole(1)),
{
    lemma_outcome_parts(trip);
    lemma_scenario_by_speed(trip);
    lemma_shares_arithmetic(
        trip.total_minutes(),
        trip.distance@,
        trip.sail_speed@,
        trip.motor_speed@,
    );
}

/// `q` is a number between nought and one.
pub open spec fn share_is_sound(q: Rational) -> bool {
    &&& q.wf()
    &&& Rational::whole(0).le(q)
    &&& q.le(Rational::whole(1))
}

/// A text that names a time of day names a minute below 1440.
pub proof fn lemma_time_of_day_in_range(s: Seq<char>)
    ensures
        time_of_day(s) matches Some(minute) ==> minute < 1440,
{
}

/// A calculation ends in `Error` exactly when a time cannot be read or the
/// trip is rejected; an `Error` outcome carries no shares.
pub proof fn lemma_error_iff_input_is_wrong(
    start_time: Seq<char>,
    arrival_time: Seq<char>,
    distance: Quantity,
    sail_speed: Quantity,
    motor_speed: Quantity,
    fuel_consumption: Quantity,
    use_metric: bool,
    is_next_day: bool,
)
    ensures
        ({
            let out = calculation(
                start_time,
                arrival_time,
                distance,
                sail_speed,
                motor_speed,
                fuel_consumption,
                use_metric,
                is_next_day,
            );
            &&& out.scenario == Scenario::Error <==> {
                ||| time_of_day(start_time) is None
                ||| time_of_day(arrival_time) is None
                ||| distance@ <= 0
                ||| sail_speed@ <= 0
                ||| motor_speed@ <= sail_speed@
                ||| time_of_day(arrival_time)->0 + (if is_next_day {
                    1440int
                } else {
                    0int
                }) <= time_of_day(start_time)->0
            }
            &&& out.scenario == Scenario::Error ==> out.sail_fraction == Rational::whole(0)
                && out.motor_fraction == Rational::whole(0)
        }),
{
    lemma_time_of_day_in_range(start_time);
    lemma_time_of_day_in_range(arrival_time);
    if time_of_day(start_time) is Some && time_of_day(arrival_time) is Some {
        let trip = TripInput {
            start_minutes: time_of_day(start_time)->0 as u32,
            arrival_minutes: time_of_day(arrival_time)->0 as u32,
            distance,
            sail_speed,
            motor_speed,
            fuel_rate: fuel_consumption,
            use_metric,
            is_next_day,
        };
        if trip.rejection() is None {
            lemma_scenario_by_speed(trip);
        }
    }
}

} // verus!
