//! A trip and the quantities that follow from it.
//!
//! Distances and speeds are whole thousandths of the caller's unit
//! (kilometres and kilometres per hour, or nautical miles and knots), the
//! fuel rate is in thousandths of a litre per hour, and times of day are
//! minutes since midnight. Every derived quantity is an exact quotient.

use crate::quantity::{Quantity, QUANTITY_LIMIT};
use crate::rational::{Ratio, Rational};
use crate::scenario::Scenario;
use vstd::prelude::*;

verus! {

/// What a caller says of a trip.
#[derive(Clone, Copy, Debug)]
pub struct TripInput {
    /// Departure, in minutes since midnight.
    pub start_minutes: u32,
    /// Arrival, in minutes since midnight.
    pub arrival_minutes: u32,
    /// Distance to cover, in thousandths of the unit.
    pub distance: Quantity,
    /// Speed under sail, in thousandths of the unit per hour.
    pub sail_speed: Quantity,
    /// Speed under motor, in thousandths of the unit per hour.
    pub motor_speed: Quantity,
    /// Fuel burnt under motor, in thousandths of a litre per hour.
    pub fuel_rate: Quantity,
    /// The unit is the kilometre when set, the nautical mile when not.
    pub use_metric: bool,
    /// The arrival time is on the day after the departure.
    pub is_next_day: bool,
}

impl TripInput {
    /// The time budget in minutes: from departure to arrival, a day more
    /// when the arrival is on the next day.
    pub open spec fn total_minutes(self) -> int {
        self.arrival_minutes - self.start_minutes + if self.is_next_day {
            1440int
        } else {
            0int
        }
    }

    /// Both times are minutes of a day.
    pub open spec fn times_in_range(self) -> bool {
        self.start_minutes < 1440 && self.arrival_minutes < 1440
    }

    /// Why the trip cannot be planned, checked in this order: the distance,
    /// the sail speed and the motor speed are positive, the motor is faster
    /// than the sails, and the time budget is positive. `None` when nothing
    /// is wrong.
    pub open spec fn rejection(self) -> Option<Seq<char>> {
        if self.distance@ <= 0 {
            Some("Afstand moet groter zijn dan 0."@)
        } else if self.sail_speed@ <= 0 {
            Some("Zeilsnelheid moet groter zijn dan 0."@)
        } else if self.motor_speed@ <= 0 {
            Some("Motorsnelheid moet groter zijn dan 0."@)
        } else if self.motor_speed@ <= self.sail_speed@ {
            Some("Motorsnelheid moet groter zijn dan zeilsnelheid."@)
        } else if self.total_minutes() <= 0 {
            Some("Aankomsttijd moet later zijn dan starttijd."@)
        } else {
            None
        }
    }

    /// The trip can be planned.
    pub open spec fn valid(self) -> bool {
        &&& self.times_in_range()
        &&& self.distance@ > 0
        &&& self.sail_speed@ > 0
        &&& self.motor_speed@ > self.sail_speed@
        &&& self.total_minutes() > 0
    }

    /// The time budget in hours.
    pub open spec fn total_hours(self) -> Rational {
        Rational { numer: self.total_minutes(), denom: 60 }
    }

    /// The hours it takes to sail the whole distance.
    pub open spec fn sail_hours(self) -> Rational {
        Rational { numer: self.distance@, denom: self.sail_speed@ }
    }

    /// The hours it takes to motor the whole distance.
    pub open spec fn motor_hours(self) -> Rational {
        Rational { numer: self.distance@, denom: self.motor_speed@ }
    }

    /// The changeover point: the hours after departure at which switching
    /// from sail to motor covers what is left of the distance in what is
    /// left of the time budget. Written in sixtieths of the speed
    /// difference, it is `(motor_speed * total - distance) / (motor_speed -
    /// sail_speed)` with `total` in hours.
    pub open spec fn changeover_hours(self) -> Rational {
        Rational {
            numer: self.motor_speed@ * self.total_minutes() - 60 * self.distance@,
            denom: 60 * (self.motor_speed@ - self.sail_speed@),
        }
    }

    /// The hours under motor after the changeover: the time budget less the
    /// changeover point.
    pub open spec fn motoring_hours(self) -> Rational {
        Rational {
            numer: 60 * self.distance@ - self.sail_speed@ * self.total_minutes(),
            denom: 60 * (self.motor_speed@ - self.sail_speed@),
        }
    }

    /// The distance under sail up to the changeover, in units.
    pub open spec fn distance_sailed(self) -> Rational {
        Rational {
            numer: self.sail_speed@ * (self.motor_speed@ * self.total_minutes() - 60
                * self.distance@),
            denom: 60000 * (self.motor_speed@ - self.sail_speed@),
        }
    }

    /// The distance under motor after the changeover, in units.
    pub open spec fn distance_motored(self) -> Rational {
        Rational {
            numer: self.motor_speed@ * (60 * self.distance@ - self.sail_speed@
                * self.total_minutes()),
            denom: 60000 * (self.motor_speed@ - self.sail_speed@),
        }
    }

    /// The whole distance, in units.
    pub open spec fn distance_units(self) -> Rational {
        Rational { numer: self.distance@, denom: 1000 }
    }

    /// The litres burnt under motor after the changeover.
    pub open spec fn fuel_after_changeover(self) -> Rational {
        Rational {
            numer: (60 * self.distance@ - self.sail_speed@ * self.total_minutes()) * self.fuel_rate@,
            denom: 60000 * (self.motor_speed@ - self.sail_speed@),
        }
    }

    /// The litres burnt when the whole distance is motored.
    pub open spec fn fuel_all_motor(self) -> Rational {
        Rational { numer: self.distance@ * self.fuel_rate@, denom: 1000 * self.motor_speed@ }
    }

    /// The whole distance can be sailed within the time budget.
    pub open spec fn can_sail_all(self) -> bool {
        self.sail_hours().le(self.total_hours())
    }

    /// The changeover point lies within the time budget.
    pub open spec fn changeover_in_budget(self) -> bool {
        0 <= self.changeover_hours().numer && self.changeover_hours().le(self.total_hours())
    }

    /// Motoring the whole distance takes longer than the time budget.
    pub open spec fn motor_is_late(self) -> bool {
        self.total_hours().lt(self.motor_hours())
    }

    /// The scenario of a trip that can be planned. The first of these that
    /// holds decides: the distance can be sailed in time; the changeover
    /// point lies within the time budget; motoring all the way is too slow.
    /// What is left is motoring all the way, in time.
    pub open spec fn scenario(self) -> Scenario {
        if self.can_sail_all() {
            Scenario::SailOnly
        } else if self.changeover_in_budget() {
            Scenario::SailAndMotor
        } else if self.motor_is_late() {
            Scenario::MotorLate
        } else {
            Scenario::MotorOnly
        }
    }
}

/// The product of two bounded factors is bounded by the product of the
/// bounds.
proof fn lemma_product_bound(a: int, b: int, x: int, y: int)
    by (nonlinear_arith)
    requires
        0 <= a <= x,
        0 <= b <= y,
    ensures
        0 <= a * b <= x * y,
        0 < a && 0 < b ==> 0 < a * b,
{
}

/// A product with a factor of either sign is bounded on both sides.
proof fn lemma_signed_product_bound(a: int, b: int, x: int, y: int)
    by (nonlinear_arith)
    requires
        -x <= a <= x,
        -y <= b <= y,
    ensures
        -(x * y) <= a * b <= x * y,
{
}

impl TripInput {
    /// The time budget in minutes.
    pub fn budget_minutes(&self) -> (t: i64)
        ensures
            t == self.total_minutes(),
    {
        let span = self.arrival_minutes as i64 - self.start_minutes as i64;
        if self.is_next_day {
            span + 1440
        } else {
            span
        }
    }

    /// Whether the trip can be planned: both times are minutes of a day and
    /// nothing is wrong with the quantities or the time budget.
    pub fn is_valid(&self) -> (b: bool)
        ensures
            b == self.valid(),
    {
        self.start_minutes < 1440 && self.arrival_minutes < 1440 && self.distance.thousandths() > 0
            && self.sail_speed.thousandths() > 0 && self.motor_speed.thousandths()
            > self.sail_speed.thousandths() && self.budget_minutes() > 0
    }

    /// The reason why the trip is rejected, or `None` when nothing is wrong
    /// with its quantities and its time budget. Whether the two times are
    /// minutes of a day is not looked at here; `is_valid` looks at both.
    pub fn check(&self) -> (r: Option<&'static str>)
        ensures
            match r {
                Some(message) => self.rejection() == Some(message@),
                None => self.rejection() is None,
            },
    {
        if self.distance.thousandths() <= 0 {
            Some("Afstand moet groter zijn dan 0.")
        } else if self.sail_speed.thousandths() <= 0 {
            Some("Zeilsnelheid moet groter zijn dan 0.")
        } else if self.motor_speed.thousandths() <= 0 {
            Some("Motorsnelheid moet groter zijn dan 0.")
        } else if self.motor_speed.thousandths() <= self.sail_speed.thousandths() {
            Some("Motorsnelheid moet groter zijn dan zeilsnelheid.")
        } else if self.budget_minutes() <= 0 {
            Some("Aankomsttijd moet later zijn dan starttijd.")
        } else {
            None
        }
    }

    /// The minutes by which motoring all the way beats the time budget,
    /// weighted by the motor speed: `motor_speed * total - 60 * distance`.
    fn lead(&self) -> (x: i128)
        requires
            self.valid(),
        ensures
            x == self.motor_speed@ * self.total_minutes() - 60 * self.distance@,
            -(60 * QUANTITY_LIMIT) <= x <= 2879 * QUANTITY_LIMIT,
    {
        let m = self.motor_speed.thousandths() as i128;
        let t = self.budget_minutes() as i128;
        proof {
            lemma_product_bound(m as int, t as int, QUANTITY_LIMIT as int, 2879);
        }
        m * t - 60 * (self.distance.thousandths() as i128)
    }

    /// The minutes by which sailing all the way misses the time budget,
    /// weighted by the sail speed: `60 * distance - sail_speed * total`.
    fn lag(&self) -> (x: i128)
        requires
            self.valid(),
        ensures
            x == 60 * self.distance@ - self.sail_speed@ * self.total_minutes(),
            -(2879 * QUANTITY_LIMIT) <= x <= 60 * QUANTITY_LIMIT,
    {
        let s = self.sail_speed.thousandths() as i128;
        let t = self.budget_minutes() as i128;
        proof {
            lemma_product_bound(s as int, t as int, QUANTITY_LIMIT as int, 2879);
        }
        60 * (self.distance.thousandths() as i128) - s * t
    }

    /// The hours it takes to sail the whole distance.
    pub fn sail_time(&self) -> (q: Ratio)
        requires
            self.valid(),
        ensures
            q@ == self.sail_hours(),
    {
        Ratio::of(self.distance.thousandths() as i128, self.sail_speed.thousandths() as i128)
    }

    /// The hours it takes to motor the whole distance.
    pub fn motor_time(&self) -> (q: Ratio)
        requires
            self.valid(),
        ensures
            q@ == self.motor_hours(),
    {
        Ratio::of(self.distance.thousandths() as i128, self.motor_speed.thousandths() as i128)
    }

    /// The changeover point, in hours after departure.
    pub fn changeover(&self) -> (q: Ratio)
        requires
            self.valid(),
        ensures
            q@ == self.changeover_hours(),
    {
        let gap = self.motor_speed.thousandths() as i128 - self.sail_speed.thousandths() as i128;
        Ratio::of(self.lead(), 60 * gap)
    }

    /// The hours under motor after the changeover.
    pub fn motoring_time(&self) -> (q: Ratio)
        requires
            self.valid(),
        ensures
            q@ == self.motoring_hours(),
    {
        let gap = self.motor_speed.thousandths() as i128 - self.sail_speed.thousandths() as i128;
        Ratio::of(self.lag(), 60 * gap)
    }

    /// The distance under sail up to the changeover, in units.
    pub fn sailed(&self) -> (q: Ratio)
        requires
            self.valid(),
        ensures
            q@ == self.distance_sailed(),
    {
        let s = self.sail_speed.thousandths() as i128;
        let gap = self.motor_speed.thousandths() as i128 - s;
        let lead = self.lead();
        proof {
            lemma_signed_product_bound(s as int, lead as int, QUANTITY_LIMIT as int, 2879 * QUANTITY_LIMIT);
        }
        Ratio::of(s * lead, 60000 * gap)
    }

    /// The distance under motor after the changeover, in units.
    pub fn motored(&self) -> (q: Ratio)
        requires
            self.valid(),
        ensures
            q@ == self.distance_motored(),
    {
        let m = self.motor_speed.thousandths() as i128;
        let gap = m - self.sail_speed.thousandths() as i128;
        let lag = self.lag();
        proof {
            lemma_signed_product_bound(m as int, lag as int, QUANTITY_LIMIT as int, 2879 * QUANTITY_LIMIT);
        }
        Ratio::of(m * lag, 60000 * gap)
    }

    /// The whole distance, in units.
    pub fn whole_distance(&self) -> (q: Ratio)
        ensures
            q@ == self.distance_units(),
    {
        Ratio::of(self.distance.thousandths() as i128, 1000)
    }

    /// The litres burnt under motor after the changeover.
    pub fn fuel_mixed(&self) -> (q: Ratio)
        requires
            self.valid(),
        ensures
            q@ == self.fuel_after_changeover(),
    {
        let gap = self.motor_speed.thousandths() as i128 - self.sail_speed.thousandths() as i128;
        let lag = self.lag();
        let f = self.fuel_rate.thousandths() as i128;
        proof {
            lemma_signed_product_bound(lag as int, f as int, 2879 * QUANTITY_LIMIT, QUANTITY_LIMIT as int);
        }
        Ratio::of(lag * f, 60000 * gap)
    }

    /// The litres burnt when the whole distance is motored.
    pub fn fuel_motor(&self) -> (q: Ratio)
        requires
            self.valid(),
        ensures
            q@ == self.fuel_all_motor(),
    {
        let d = self.distance.thousandths() as i128;
        let f = self.fuel_rate.thousandths() as i128;
        proof {
            lemma_signed_product_bound(d as int, f as int, QUANTITY_LIMIT as int, QUANTITY_LIMIT as int);
        }
        Ratio::of(d * f, 1000 * (self.motor_speed.thousandths() as i128))
    }

    /// Picks the scenario of a trip that can be planned.
    pub fn classify(&self) -> (scenario: Scenario)
        requires
            self.valid(),
        ensures
            scenario == self.scenario(),
    {
        let t = self.budget_minutes() as i128;
        let d = self.distance.thousandths() as i128;
        let s = self.sail_speed.thousandths() as i128;
        let m = self.motor_speed.thousandths() as i128;
        proof {
            lemma_product_bound(t as int, s as int, 2879, QUANTITY_LIMIT as int);
            lemma_product_bound(t as int, m as int, 2879, QUANTITY_LIMIT as int);
            lemma_product_bound(m as int, t as int, QUANTITY_LIMIT as int, 2879);
            lemma_product_bound(t as int, 60 * (m - s), 2879, 60 * QUANTITY_LIMIT);
        }
        if d * 60 <= t * s {
            return Scenario::SailOnly;
        }
        let lead = m * t - 60 * d;
        if 0 <= lead && lead * 60 <= t * (60 * (m - s)) {
            Scenario::SailAndMotor
        } else if t * m < d * 60 {
            Scenario::MotorLate
        } else {
            Scenario::MotorOnly
        }
    }

    /// The share of the time budget up to the changeover.
    pub fn sail_share(&self) -> (q: Ratio)
        requires
            self.valid(),
        ensures
            q@ == self.changeover_hours().over(self.total_hours()),
    {
        let t = self.budget_minutes() as i128;
        let gap = self.motor_speed.thousandths() as i128 - self.sail_speed.thousandths() as i128;
        proof {
            lemma_product_bound(60 * gap, t as int, 60 * QUANTITY_LIMIT, 2879);
        }
        Ratio::of(self.lead() * 60, 60 * gap * t)
    }

    /// The share of the time budget after the changeover.
    pub fn motor_share(&self) -> (q: Ratio)
        requires
            self.valid(),
        ensures
            q@ == self.motoring_hours().over(self.total_hours()),
    {
        let t = self.budget_minutes() as i128;
        let gap = self.motor_speed.thousandths() as i128 - self.sail_speed.thousandths() as i128;
        proof {
            lemma_product_bound(60 * gap, t as int, 60 * QUANTITY_LIMIT, 2879);
        }
        Ratio::of(self.lag() * 60, 60 * gap * t)
    }

    /// The share of the time budget that motoring the whole distance takes.
    pub fn full_motor_share(&self) -> (q: Ratio)
        requires
            self.valid(),
        ensures
            q@ == self.motor_hours().over(self.total_hours()),
    {
        let t = self.budget_minutes() as i128;
        let m = self.motor_speed.thousandths() as i128;
        proof {
            lemma_product_bound(m as int, t as int, QUANTITY_LIMIT as int, 2879);
        }
        Ratio::of((self.distance.thousandths() as i128) * 60, m * t)
    }
}

} // verus!
