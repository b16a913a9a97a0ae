//! Sail-or-motor voyage planning.
//!
//! Given a departure and an arrival time, a distance, a speed under sail, a
//! speed under motor and a fuel rate, `calculate` tells whether the trip can
//! be sailed all the way, needs the motor from some point on, or has to be
//! motored all the way, and explains it in a short Dutch narrative.
//!
//! All arithmetic is exact: quantities are whole thousandths on the way in
//! and quotients of integers in between, and rounding happens only where a
//! number is written out.

pub mod clock;
pub mod duration;
pub mod laws;
pub mod narrative;
pub mod nautical;
pub mod numerals;
pub mod quantity;
pub mod rational;
pub mod scenario;
pub mod trip;
pub mod validate;
pub mod voyage;

pub use clock::{format_clock, needs_next_day, parse_time};
pub use duration::format_time;
pub use quantity::Quantity;
pub use rational::Ratio;
pub use scenario::Scenario;
pub use trip::TripInput;
pub use validate::{validate_max, validate_motor_speed};
pub use voyage::{calculate, plan_voyage, SailResult};
