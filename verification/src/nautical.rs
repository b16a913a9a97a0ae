//! The calculation as it is worked by hand in nautical units, and the proof
//! that the quantities of `TripInput` are the same numbers.
//!
//! By hand one first brings a metric distance and both speeds to nautical
//! miles and knots, dividing by 1.852, then works out the times, and brings
//! the distances back to kilometres for display. The factor cancels in
//! every quantity, which is why `TripInput` can do without it.

use crate::clock::clock_text;
use crate::duration::{lemma_whole_minutes_same, whole_minutes};
use crate::narrative::{
    motor_late_text, motor_only_text, sail_and_motor_text, sail_only_text,
};
use crate::numerals::lemma_amount_text_same;
use crate::rational::Rational;
use crate::scenario::Scenario;
use crate::trip::TripInput;
use crate::voyage::Outcome;
use vstd::prelude::*;

verus! {

/// How many nautical units make one unit of the caller: 1000/1852 for a
/// metric trip, one for a nautical trip.
pub open spec fn to_nautical(use_metric: bool) -> Rational {
    if use_metric {
        Rational { numer: 1000, denom: 1852 }
    } else {
        Rational::whole(1)
    }
}

/// How many units of the caller make one nautical unit.
pub open spec fn from_nautical(use_metric: bool) -> Rational {
    if use_metric {
        Rational { numer: 1852, denom: 1000 }
    } else {
        Rational::whole(1)
    }
}

/// `thousandths` of a unit as a quantity in units.
pub open spec fn in_units(thousandths: int) -> Rational {
    Rational { numer: thousandths, denom: 1000 }
}

impl TripInput {
    /// The distance in nautical miles.
    pub open spec fn nautical_distance(self) -> Rational {
        in_units(self.distance@).times(to_nautical(self.use_metric))
    }

    /// The sail speed in knots.
    pub open spec fn nautical_sail_speed(self) -> Rational {
        in_units(self.sail_speed@).times(to_nautical(self.use_metric))
    }

    /// The motor speed in knots.
    pub open spec fn nautical_motor_speed(self) -> Rational {
        in_units(self.motor_speed@).times(to_nautical(self.use_metric))
    }

    /// By hand: the hours to sail the whole distance.
    pub open spec fn worked_sail_hours(self) -> Rational {
        self.nautical_distance().over(self.nautical_sail_speed())
    }

    /// By hand: the hours to motor the whole distance.
    pub open spec fn worked_motor_hours(self) -> Rational {
        self.nautical_distance().over(self.nautical_motor_speed())
    }

    /// By hand: the changeover point, the distance less what the motor
    /// covers in the whole time budget, over the sail speed less the motor
    /// speed.
    pub open spec fn worked_changeover_hours(self) -> Rational {
        self.nautical_distance().minus(self.nautical_motor_speed().times(self.total_hours())).over(
            self.nautical_sail_speed().minus(self.nautical_motor_speed()),
        )
    }

    /// By hand: the nautical miles sailed up to the changeover.
    pub open spec fn worked_miles_sailed(self) -> Rational {
        self.nautical_sail_speed().times(self.worked_changeover_hours())
    }

    /// By hand: the nautical miles left at the changeover.
    pub open spec fn worked_miles_left(self) -> Rational {
        self.nautical_distance().minus(self.worked_miles_sailed())
    }

    /// By hand: the hours under motor after the changeover.
    pub open spec fn worked_motoring_hours(self) -> Rational {
        self.worked_miles_left().over(self.nautical_motor_speed())
    }

    /// By hand: the distance sailed, back in the caller's unit.
    pub open spec fn worked_distance_sailed(self) -> Rational {
        self.worked_miles_sailed().times(from_nautical(self.use_metric))
    }

    /// By hand: the distance motored, back in the caller's unit.
    pub open spec fn worked_distance_motored(self) -> Rational {
        self.worked_miles_left().times(from_nautical(self.use_metric))
    }

    /// By hand: the litres burnt after the changeover.
    pub open spec fn worked_fuel_after_changeover(self) -> Rational {
        self.worked_motoring_hours().times(in_units(self.fuel_rate@))
    }

    /// By hand: the litres burnt when the whole distance is motored.
    pub open spec fn worked_fuel_all_motor(self) -> Rational {
        self.worked_motor_hours().times(in_units(self.fuel_rate@))
    }
}

/// A quotient whose two parts share a positive factor is the same number as
/// the quotient without it.
pub proof fn lemma_cancel(n: int, d: int, k: int)
    by (nonlinear_arith)
    requires
        k != 0,
    ensures
        (Rational { numer: n * k, denom: d * k }).same(Rational { numer: n, denom: d }),
        d > 0 && k > 0 ==> d * k > 0,
{
}

/// Worked by hand in nautical units, the two full travel times are the same
/// numbers as `sail_hours` and `motor_hours`.
pub proof fn lemma_travel_times_agree(trip: TripInput)
    requires
        trip.valid(),
    ensures
        trip.worked_sail_hours().wf(),
        trip.worked_motor_hours().wf(),
        trip.worked_sail_hours().same(trip.sail_hours()),
        trip.worked_motor_hours().same(trip.motor_hours()),
{
    let d = trip.distance@;
    let s = trip.sail_speed@;
    let m = trip.motor_speed@;
    let a = to_nautical(trip.use_metric).numer;
    let b = to_nautical(trip.use_metric).denom;
    let k = a * (1000 * b);
    assert(k > 0) by (nonlinear_arith)
        requires
            k == a * (1000 * b),
            a > 0,
            b > 0,
    ;
    assert((d * a) * (1000 * b) == d * k && (1000 * b) * (s * a) == s * k && (1000 * b) * (m * a)
        == m * k) by (nonlinear_arith)
        requires
            k == a * (1000 * b),
    ;
    assert(s * a > 0 && m * a > 0) by (nonlinear_arith)
        requires
            s > 0,
            m > 0,
            a > 0,
    ;
    lemma_cancel(d, s, k);
    lemma_cancel(d, m, k);
}

/// The parts of the changeover point worked by hand, written out: both
/// hold the factor `k` that `lemma_cancel` takes away.
proof fn lemma_changeover_parts(t: int, d: int, s: int, m: int, a: int, b: int) -> (k: int)
    requires
        t > 0,
        d > 0,
        0 < s < m,
        a > 0,
        b > 0,
    ensures
        k > 0,
        ({
            let dist = Rational { numer: d * a, denom: 1000 * b };
            let sail = Rational { numer: s * a, denom: 1000 * b };
            let motor = Rational { numer: m * a, denom: 1000 * b };
            let total = Rational { numer: t, denom: 60 };
            let change = dist.minus(motor.times(total)).over(sail.minus(motor));
            &&& change.numer == (m * t - 60 * d) * k
            &&& change.denom == (60 * (m - s)) * k
            &&& change.denom > 0
        }),
{
    let b3 = b * b * b;
    let k = 1000000000 * (a * b3);
    assert(b3 > 0 && k > 0) by (nonlinear_arith)
        requires
            b3 == b * b * b,
            k == 1000000000 * (a * b3),
            a > 0,
            b > 0,
    ;
    let xn = (d * a) * ((1000 * b) * 60) - ((m * a) * t) * (1000 * b);
    let xd = (1000 * b) * ((1000 * b) * 60);
    let yn = (s * a) * (1000 * b) - (m * a) * (1000 * b);
    let yd = (1000 * b) * (1000 * b);
    assert(yn < 0) by (nonlinear_arith)
        requires
            yn == (s * a) * (1000 * b) - (m * a) * (1000 * b),
            s < m,
            a > 0,
            b > 0,
    ;
    let ab = a * b;
    let bb = b * b;
    let lead = m * t - 60 * d;
    let gap = m - s;
    assert(xn == -(1000 * ab) * lead) by (nonlinear_arith)
        requires
            xn == (d * a) * ((1000 * b) * 60) - ((m * a) * t) * (1000 * b),
            ab == a * b,
            lead == m * t - 60 * d,
    ;
    assert(yn == -(1000 * ab) * gap) by (nonlinear_arith)
        requires
            yn == (s * a) * (1000 * b) - (m * a) * (1000 * b),
            ab == a * b,
            gap == m - s,
    ;
    assert(yd == 1000000 * bb && xd == 60000000 * bb) by (nonlinear_arith)
        requires
            yd == (1000 * b) * (1000 * b),
            xd == (1000 * b) * ((1000 * b) * 60),
            bb == b * b,
    ;
    assert(ab * bb == a * b3) by (nonlinear_arith)
        requires
            ab == a * b,
            bb == b * b,
            b3 == b * b * b,
    ;
    assert(-(xn * yd) == lead * k) by (nonlinear_arith)
        requires
            xn == -(1000 * ab) * lead,
            yd == 1000000 * bb,
            ab * bb == a * b3,
            k == 1000000000 * (a * b3),
    ;
    assert(-(xd * yn) == (60 * gap) * k) by (nonlinear_arith)
        requires
            yn == -(1000 * ab) * gap,
            xd == 60000000 * bb,
            ab * bb == a * b3,
            k == 1000000000 * (a * b3),
    ;
    assert((60 * (m - s)) * k > 0) by (nonlinear_arith)
        requires
            s < m,
            k > 0,
    ;
    k
}

/// Worked by hand in nautical units, the changeover point is the same
/// number as `changeover_hours`.
pub proof fn lemma_changeover_agrees(trip: TripInput)
    requires
        trip.valid(),
    ensures
        trip.worked_changeover_hours().wf(),
        trip.worked_changeover_hours().same(trip.changeover_hours()),
{
    let a = to_nautical(trip.use_metric).numer;
    let b = to_nautical(trip.use_metric).denom;
    let k = lemma_changeover_parts(
        trip.total_minutes(),
        trip.distance@,
        trip.sail_speed@,
        trip.motor_speed@,
        a,
        b,
    );
    lemma_cancel(trip.changeover_hours().numer, trip.changeover_hours().denom, k);
}

/// The parts of what follows the changeover, worked by hand from a
/// changeover point `cn / cd` that holds the factor `k`.
proof fn lemma_after_changeover_parts(
    d: int,
    s: int,
    m: int,
    f: int,
    a: int,
    b: int,
    lead: int,
    lag: int,
    gap: int,
    k: int,
)
    requires
        0 < s < m,
        a > 0,
        b > 0,
        k > 0,
        gap == m - s,
        60 * (d * gap) - s * lead == m * lag,
    ensures
        ({
            let dist = Rational { numer: d * a, denom: 1000 * b };
            let sail = Rational { numer: s * a, denom: 1000 * b };
            let motor = Rational { numer: m * a, denom: 1000 * b };
            let back = Rational { numer: b, denom: a };
            let change = Rational { numer: lead * k, denom: (60 * gap) * k };
            let sailed = sail.times(change);
            let left = dist.minus(sailed);
            let motoring = left.over(motor);
            let fuel = motoring.times(Rational { numer: f, denom: 1000 });
            &&& sailed.times(back).wf()
            &&& left.times(back).wf()
            &&& motoring.wf()
            &&& fuel.wf()
            &&& sailed.times(back).same(Rational { numer: s * lead, denom: 60000 * gap })
            &&& left.times(back).same(Rational { numer: m * lag, denom: 60000 * gap })
            &&& motoring.same(Rational { numer: lag, denom: 60 * gap })
            &&& fuel.same(Rational { numer: lag * f, denom: 60000 * gap })
        }),
{
    let ab = a * b;
    let abk = ab * k;
    let bb = b * b;
    assert(ab > 0 && abk > 0 && bb > 0 && gap > 0) by (nonlinear_arith)
        requires
            ab == a * b,
            abk == ab * k,
            bb == b * b,
            a > 0,
            b > 0,
            k > 0,
            gap == m - s,
            s < m,
    ;
    // The distance sailed.
    let sn = ((s * a) * (lead * k)) * b;
    let sd = ((1000 * b) * ((60 * gap) * k)) * a;
    assert(sn == (s * lead) * abk && sd == (60000 * gap) * abk) by (nonlinear_arith)
        requires
            sn == ((s * a) * (lead * k)) * b,
            sd == ((1000 * b) * ((60 * gap) * k)) * a,
            ab == a * b,
            abk == ab * k,
    ;
    lemma_cancel(s * lead, 60000 * gap, abk);
    // The distance left.
    let ln = (d * a) * ((1000 * b) * ((60 * gap) * k)) - ((s * a) * (lead * k)) * (1000 * b);
    let ld = (1000 * b) * ((1000 * b) * ((60 * gap) * k));
    let k2 = 1000 * abk;
    let l1 = (d * a) * ((1000 * b) * ((60 * gap) * k));
    let l2 = ((s * a) * (lead * k)) * (1000 * b);
    assert(l1 == (60 * (d * gap)) * k2) by (nonlinear_arith)
        requires
            l1 == (d * a) * ((1000 * b) * ((60 * gap) * k)),
            ab == a * b,
            abk == ab * k,
            k2 == 1000 * abk,
    ;
    assert(l2 == (s * lead) * k2) by (nonlinear_arith)
        requires
            l2 == ((s * a) * (lead * k)) * (1000 * b),
            ab == a * b,
            abk == ab * k,
            k2 == 1000 * abk,
    ;
    assert(ln == (60 * (d * gap) - s * lead) * k2) by (nonlinear_arith)
        requires
            ln == l1 - l2,
            l1 == (60 * (d * gap)) * k2,
            l2 == (s * lead) * k2,
    ;
    assert(ln == (m * lag) * k2);
    let gk = gap * k;
    assert(ld == 60000000 * (bb * gk) && k2 * b == 1000 * ((a * bb) * k) && gk > 0)
        by (nonlinear_arith)
        requires
            ld == (1000 * b) * ((1000 * b) * ((60 * gap) * k)),
            bb == b * b,
            gk == gap * k,
            ab == a * b,
            abk == ab * k,
            k2 == 1000 * abk,
            gap > 0,
            k > 0,
    ;
    let k3 = k2 * b;
    assert(ln * b == (m * lag) * k3 && ld * a == (60000 * gap) * k3 && k3 > 0) by (nonlinear_arith)
        requires
            ln == (m * lag) * k2,
            ld == 60000000 * (bb * gk),
            gk == gap * k,
            k3 == k2 * b,
            k2 * b == 1000 * ((a * bb) * k),
            a > 0,
            b > 0,
            bb > 0,
            k > 0,
    ;
    lemma_cancel(m * lag, 60000 * gap, k3);
    // The hours under motor and the fuel they burn.
    let k4 = (1000 * k3) * m;
    assert(ln * (1000 * b) == lag * k4 && ld * (m * a) == (60 * gap) * k4 && k4 > 0)
        by (nonlinear_arith)
        requires
            ln * b == (m * lag) * k3,
            ld * a == (60000 * gap) * k3,
            k4 == (1000 * k3) * m,
            k3 > 0,
            m > 0,
    ;
    lemma_cancel(lag, 60 * gap, k4);
    assert((ln * (1000 * b)) * f == (lag * f) * k4 && (ld * (m * a)) * 1000 == (60000 * gap) * k4)
        by (nonlinear_arith)
        requires
            ln * (1000 * b) == lag * k4,
            ld * (m * a) == (60 * gap) * k4,
    ;
    lemma_cancel(lag * f, 60000 * gap, k4);
    assert(m * a > 0) by (nonlinear_arith)
        requires
            m > 0,
            a > 0,
    ;
    assert(sd > 0 && ld * a > 0 && ld * (m * a) > 0 && (ld * (m * a)) * 1000 > 0)
        by (nonlinear_arith)
        requires
            sd == (60000 * gap) * abk,
            ld * a == (60000 * gap) * k3,
            ld * (m * a) == (60 * gap) * k4,
            gap > 0,
            abk > 0,
            k3 > 0,
            k4 > 0,
    ;
}

/// Worked by hand in nautical units, everything that follows the
/// changeover is the same number as the quantity of `TripInput`: the two
/// distances in the caller's unit, the hours under motor and the fuel.
pub proof fn lemma_after_changeover_agrees(trip: TripInput)
    requires
        trip.valid(),
    ensures
        trip.worked_distance_sailed().wf(),
        trip.worked_distance_motored().wf(),
        trip.worked_motoring_hours().wf(),
        trip.worked_fuel_after_changeover().wf(),
        trip.worked_distance_sailed().same(trip.distance_sailed()),
        trip.worked_distance_motored().same(trip.distance_motored()),
        trip.worked_motoring_hours().same(trip.motoring_hours()),
        trip.worked_fuel_after_changeover().same(trip.fuel_after_changeover()),
{
    let t = trip.total_minutes();
    let d = trip.distance@;
    let s = trip.sail_speed@;
    let m = trip.motor_speed@;
    let a = to_nautical(trip.use_metric).numer;
    let b = to_nautical(trip.use_metric).denom;
    let lead = m * t - 60 * d;
    let lag = 60 * d - s * t;
    let gap = m - s;
    let k = lemma_changeover_parts(t, d, s, m, a, b);
    assert(60 * (d * gap) - s * lead == m * lag) by (nonlinear_arith)
        requires
            lead == m * t - 60 * d,
            lag == 60 * d - s * t,
            gap == m - s,
    ;
    lemma_after_changeover_parts(d, s, m, trip.fuel_rate@, a, b, lead, lag, gap, k);
    assert(trip.worked_changeover_hours() == (Rational {
        numer: lead * k,
        denom: (60 * gap) * k,
    }));
    assert(from_nautical(trip.use_metric) == (Rational { numer: b, denom: a }));
}

/// Worked by hand in nautical units, the fuel burnt when the whole distance
/// is motored is the same number as `fuel_all_motor`.
pub proof fn lemma_fuel_all_motor_agrees(trip: TripInput)
    requires
        trip.valid(),
    ensures
        trip.worked_fuel_all_motor().wf(),
        trip.worked_fuel_all_motor().same(trip.fuel_all_motor()),
{
    let d = trip.distance@;
    let m = trip.motor_speed@;
    let f = trip.fuel_rate@;
    let a = to_nautical(trip.use_metric).numer;
    let b = to_nautical(trip.use_metric).denom;
    let k = 1000 * (a * b);
    assert(k > 0 && m * a > 0) by (nonlinear_arith)
        requires
            k == 1000 * (a * b),
            a > 0,
            b > 0,
            m > 0,
    ;
    assert(((d * a) * (1000 * b)) * f == (d * f) * k && (((1000 * b) * (m * a)) * 1000) == (1000
        * m) * k) by (nonlinear_arith)
        requires
            k == 1000 * (a * b),
    ;
    lemma_cancel(d * f, 1000 * m, k);
}

/// Comparing looks at the number, not at how it is written.
pub proof fn lemma_le_same(a: Rational, b: Rational, c: Rational)
    by (nonlinear_arith)
    requires
        a.wf(),
        b.wf(),
        c.wf(),
        a.same(b),
    ensures
        a.le(c) <==> b.le(c),
        c.le(a) <==> c.le(b),
        c.lt(a) <==> c.lt(b),
{
}

/// The scenario of a trip comes out the same when the three tests are made
/// on the quantities worked by hand in nautical units.
pub proof fn lemma_tests_agree(trip: TripInput)
    requires
        trip.valid(),
    ensures
        trip.worked_sail_hours().le(trip.total_hours()) <==> trip.can_sail_all(),
        0 <= trip.worked_changeover_hours().numer && trip.worked_changeover_hours().le(
            trip.total_hours(),
        ) <==> trip.changeover_in_budget(),
        trip.total_hours().lt(trip.worked_motor_hours()) <==> trip.motor_is_late(),
{
    lemma_travel_times_agree(trip);
    lemma_changeover_agrees(trip);
    lemma_le_same(trip.worked_sail_hours(), trip.sail_hours(), trip.total_hours());
    lemma_le_same(trip.worked_motor_hours(), trip.motor_hours(), trip.total_hours());
    lemma_le_same(trip.worked_changeover_hours(), trip.changeover_hours(), trip.total_hours());
    lemma_le_same(trip.worked_changeover_hours(), trip.changeover_hours(), Rational::whole(0));
    let worked = trip.worked_changeover_hours();
    let direct = trip.changeover_hours();
    assert(Rational::whole(0).le(worked) <==> 0 <= worked.numer) by (nonlinear_arith);
    assert(Rational::whole(0).le(direct) <==> 0 <= direct.numer) by (nonlinear_arith);
}

impl TripInput {
    /// By hand: the whole distance, brought to nautical miles and back.
    pub open spec fn worked_distance(self) -> Rational {
        self.nautical_distance().times(from_nautical(self.use_metric))
    }

    /// By hand: the scenario, from the three tests in nautical units.
    pub open spec fn worked_scenario(self) -> Scenario {
        if self.worked_sail_hours().le(self.total_hours()) {
            Scenario::SailOnly
        } else if 0 <= self.worked_changeover_hours().numer && self.worked_changeover_hours().le(
            self.total_hours(),
        ) {
            Scenario::SailAndMotor
        } else if self.total_hours().lt(self.worked_motor_hours()) {
            Scenario::MotorLate
        } else {
            Scenario::MotorOnly
        }
    }

    /// By hand: the outcome, every quantity worked in nautical units.
    pub open spec fn worked_outcome(self) -> Outcome {
        match self.worked_scenario() {
            Scenario::SailOnly => Outcome {
                scenario: Scenario::SailOnly,
                text: sail_only_text(
                    self.worked_sail_hours(),
                    self.worked_distance(),
                    self.use_metric,
                ),
                sail_fraction: Rational::whole(1),
                motor_fraction: Rational::whole(0),
            },
            Scenario::SailAndMotor => Outcome {
                scenario: Scenario::SailAndMotor,
                text: sail_and_motor_text(
                    self.worked_changeover_hours(),
                    self.worked_distance_sailed(),
                    self.worked_distance_motored(),
                    self.worked_motoring_hours(),
                    clock_text(self.start_minutes + whole_minutes(self.worked_changeover_hours())),
                    self.worked_fuel_after_changeover(),
                    self.use_metric,
                ),
                sail_fraction: self.worked_changeover_hours().over(self.total_hours()),
                motor_fraction: self.worked_motoring_hours().over(self.total_hours()),
            },
            Scenario::MotorLate => Outcome {
                scenario: Scenario::MotorLate,
                text: motor_late_text(
                    clock_text(self.start_minutes + whole_minutes(self.worked_motor_hours())),
                    self.worked_fuel_all_motor(),
                ),
                sail_fraction: Rational::whole(0),
                motor_fraction: Rational::whole(1),
            },
            _ => Outcome {
                scenario: Scenario::MotorOnly,
                text: motor_only_text(self.worked_motor_hours(), self.worked_fuel_all_motor()),
                sail_fraction: Rational::whole(0),
                motor_fraction: self.worked_motor_hours().over(self.total_hours()),
            },
        }
    }
}

/// Dividing by a positive number looks at the numbers, not at how they are
/// written.
pub proof fn lemma_over_same(a: Rational, b: Rational, c: Rational)
    by (nonlinear_arith)
    requires
        a.wf(),
        b.wf(),
        c.wf(),
        c.numer > 0,
        a.same(b),
    ensures
        a.over(c).wf(),
        b.over(c).wf(),
        a.over(c).same(b.over(c)),
{
}

/// The outcome worked by hand in nautical units reads the same as the
/// outcome of the trip: the same scenario, the same narrative character for
/// character, and shares that are the same numbers. So the unit of the
/// caller shows in the name of the unit and nowhere else.
pub proof fn lemma_worked_outcome_reads_the_same(trip: TripInput)
    requires
        trip.valid(),
    ensures
        trip.worked_outcome().scenario == trip.outcome().scenario,
        trip.worked_outcome().text == trip.outcome().text,
        trip.worked_outcome().sail_fraction.same(trip.outcome().sail_fraction),
        trip.worked_outcome().motor_fraction.same(trip.outcome().motor_fraction),
{
    lemma_tests_agree(trip);
    lemma_travel_times_agree(trip);
    lemma_changeover_agrees(trip);
    lemma_after_changeover_agrees(trip);
    lemma_fuel_all_motor_agrees(trip);
    lemma_distance_agrees(trip);
    assert(trip.worked_scenario() == trip.scenario());
    lemma_whole_minutes_same(trip.worked_sail_hours(), trip.sail_hours());
    lemma_whole_minutes_same(trip.worked_motor_hours(), trip.motor_hours());
    lemma_whole_minutes_same(trip.worked_changeover_hours(), trip.changeover_hours());
    lemma_whole_minutes_same(trip.worked_motoring_hours(), trip.motoring_hours());
    lemma_amount_text_same(trip.worked_distance(), trip.distance_units());
    lemma_amount_text_same(trip.worked_distance_sailed(), trip.distance_sailed());
    lemma_amount_text_same(trip.worked_distance_motored(), trip.distance_motored());
    lemma_amount_text_same(trip.worked_fuel_after_changeover(), trip.fuel_after_changeover());
    lemma_amount_text_same(trip.worked_fuel_all_motor(), trip.fuel_all_motor());
    lemma_over_same(trip.worked_changeover_hours(), trip.changeover_hours(), trip.total_hours());
    lemma_over_same(trip.worked_motoring_hours(), trip.motoring_hours(), trip.total_hours());
    lemma_over_same(trip.worked_motor_hours(), trip.motor_hours(), trip.total_hours());
}

/// Brought to nautical miles and back, the distance is the same number.
pub proof fn lemma_distance_agrees(trip: TripInput)
    requires
        trip.valid(),
    ensures
        trip.worked_distance().wf(),
        trip.worked_distance().same(trip.distance_units()),
{
    let d = trip.distance@;
    let a = to_nautical(trip.use_metric).numer;
    let b = to_nautical(trip.use_metric).denom;
    let k = a * b;
    assert(k > 0 && (d * a) * b == d * k && (1000 * b) * a == 1000 * k) by (nonlinear_arith)
        requires
            k == a * b,
            a > 0,
            b > 0,
    ;
    lemma_cancel(d, 1000, k);
}

} // verus!
