//! Checks on single fields, for feedback while the input is being typed.
//! Each gives the message to show, and the empty text when there is nothing
//! to say.

use crate::numerals::{format_thousandths, thousandths_text};
use vstd::prelude::*;
use vstd::string::*;

verus! {

/// What to say of the two speeds: that the motor has to be faster, once
/// both are positive and the motor is not faster than the sails. While
/// either is still zero or less, nothing.
pub open spec fn motor_speed_message(sail_speed: int, motor_speed: int) -> Seq<char> {
    if sail_speed > 0 && motor_speed > 0 && motor_speed <= sail_speed {
        "Motorsnelheid moet groter zijn dan zeilsnelheid"@
    } else {
        Seq::<char>::empty()
    }
}

/// What to say of a value against its limit, both in thousandths: that the
/// field has to be smaller than the limit, once the value is beyond it.
pub open spec fn max_message(value: int, max: int, field_name: Seq<char>, unit: Seq<char>) -> Seq<
    char,
> {
    if value > max {
        field_name + " moet kleiner zijn dan "@ + thousandths_text(max) + " "@ + unit
    } else {
        Seq::<char>::empty()
    }
}

/// Checks that the motor is faster than the sails. The speeds are in
/// thousandths of the unit per hour. The result is the message to show, or
/// the empty text.
pub fn validate_motor_speed(sail_speed: i64, motor_speed: i64) -> (message: String)
    ensures
        message@ == motor_speed_message(sail_speed as int, motor_speed as int),
{
    if sail_speed <= 0 || motor_speed <= 0 {
        return String::new();
    }
    if motor_speed <= sail_speed {
        String::from_str("Motorsnelheid moet groter zijn dan zeilsnelheid")
    } else {
        String::new()
    }
}

/// Checks a value against its limit, both in thousandths. The result names
/// the field, the limit and the unit when the value is beyond the limit, and
/// is the empty text when it is not.
pub fn validate_max(value: i64, max: i64, field_name: &str, unit: &str) -> (message: String)
    ensures
        message@ == max_message(value as int, max as int, field_name@, unit@),
{
    if value > max {
        let mut message = String::from_str(field_name);
        message.append(" moet kleiner zijn dan ");
        message.append(format_thousandths(max).as_str());
        message.append(" ");
        message.append(unit);
        message
    } else {
        String::new()
    }
}

} // verus!
