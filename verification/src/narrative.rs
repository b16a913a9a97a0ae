//! The narratives: one Dutch sentence pattern for each scenario, filled
//! in with durations, amounts and clock readings.

use crate::duration::{duration_text, format_time, whole_minutes};
use crate::numerals::{amount_text, format_amount};
use crate::rational::{Ratio, Rational};
use vstd::prelude::*;
use vstd::string::*;

verus! {

/// The name of the unit of distance in the narrative.
pub open spec fn unit_name(use_metric: bool) -> Seq<char> {
    if use_metric {
        "km"@
    } else {
        "zeemijl"@
    }
}

/// The narrative of a trip that is sailed all the way in `sail_time` hours.
pub open spec fn sail_only_text(sail_time: Rational, distance: Rational, use_metric: bool) -> Seq<
    char,
> {
    "Je kunt de hele afstand zeilen in "@ + duration_text(whole_minutes(sail_time)) + " ("@
        + amount_text(distance) + " "@ + unit_name(use_metric)
        + ").<br>Geschat brandstofverbruik: 0 liter."@
}

/// The narrative of a trip that changes from sail to motor after
/// `changeover` hours, at the clock reading `motor_start`.
pub open spec fn sail_and_motor_text(
    changeover: Rational,
    sailed: Rational,
    motored: Rational,
    motoring: Rational,
    motor_start: Seq<char>,
    fuel: Rational,
    use_metric: bool,
) -> Seq<char> {
    "Je kunt "@ + duration_text(whole_minutes(changeover)) + " zeilen ("@ + amount_text(sailed)
        + " "@ + unit_name(use_metric)
        + "). Daarna moet je overschakelen naar de motor voor de resterende "@ + amount_text(
        motored,
    ) + " "@ + unit_name(use_metric) + ", wat "@ + duration_text(whole_minutes(motoring))
        + " duurt.<br>Start de motor om <strong>"@ + motor_start
        + "</strong>.<br><br>Geschat brandstofverbruik: "@ + amount_text(fuel) + " liter."@
}

/// The narrative of a trip that is motored all the way and still arrives
/// late, at the clock reading `arrival`.
pub open spec fn motor_late_text(arrival: Seq<char>, fuel: Rational) -> Seq<char> {
    "Je kunt de hele afstand op de motor afleggen, maar je zult niet op tijd aankomen. <br>Je verwachte aankomsttijd is <strong>"@
        + arrival + "</strong>.<br><br>Geschat brandstofverbruik: "@ + amount_text(fuel)
        + " liter."@
}

/// The narrative of a trip that is motored all the way in `motor_time`
/// hours and arrives on time.
pub open spec fn motor_only_text(motor_time: Rational, fuel: Rational) -> Seq<char> {
    "Je kunt de hele afstand op de motor afleggen in "@ + duration_text(whole_minutes(motor_time))
        + ".<br><br>Geschat brandstofverbruik: "@ + amount_text(fuel) + " liter."@
}

/// The name of the unit of distance.
pub fn unit_label(use_metric: bool) -> (unit: &'static str)
    ensures
        unit@ == unit_name(use_metric),
{
    if use_metric {
        "km"
    } else {
        "zeemijl"
    }
}

/// Writes the narrative of a trip that is sailed all the way.
pub fn sail_only_narrative(sail_time: &Ratio, distance: &Ratio, use_metric: bool) -> (html: String)
    ensures
        html@ == sail_only_text(sail_time@, distance@, use_metric),
{
    let mut html = String::from_str("Je kunt de hele afstand zeilen in ");
    html.append(format_time(sail_time).as_str());
    html.append(" (");
    html.append(format_amount(distance).as_str());
    html.append(" ");
    html.append(unit_label(use_metric));
    html.append(").<br>Geschat brandstofverbruik: 0 liter.");
    html
}

/// Writes the narrative of a trip that changes from sail to motor.
pub fn sail_and_motor_narrative(
    changeover: &Ratio,
    sailed: &Ratio,
    motored: &Ratio,
    motoring: &Ratio,
    motor_start: &str,
    fuel: &Ratio,
    use_metric: bool,
) -> (html: String)
    ensures
        html@ == sail_and_motor_text(
            changeover@,
            sailed@,
            motored@,
            motoring@,
            motor_start@,
            fuel@,
            use_metric,
        ),
{
    let mut html = String::from_str("Je kunt ");
    html.append(format_time(changeover).as_str());
    html.append(" zeilen (");
    html.append(format_amount(sailed).as_str());
    html.append(" ");
    html.append(unit_label(use_metric));
    html.append("). Daarna moet je overschakelen naar de motor voor de resterende ");
    html.append(format_amount(motored).as_str());
    html.append(" ");
    html.append(unit_label(use_metric));
    html.append(", wat ");
    html.append(format_time(motoring).as_str());
    html.append(" duurt.<br>Start de motor om <strong>");
    html.append(motor_start);
    html.append("</strong>.<br><br>Geschat brandstofverbruik: ");
    html.append(format_amount(fuel).as_str());
    html.append(" liter.");
    html
}

/// Writes the narrative of a trip that is motored all the way and arrives
/// late.
pub fn motor_late_narrative(arrival: &str, fuel: &Ratio) -> (html: String)
    ensures
        html@ == motor_late_text(arrival@, fuel@),
{
    let mut html = String::from_str(
        "Je kunt de hele afstand op de motor afleggen, maar je zult niet op tijd aankomen. <br>Je verwachte aankomsttijd is <strong>",
    );
    html.append(arrival);
    html.append("</strong>.<br><br>Geschat brandstofverbruik: ");
    html.append(format_amount(fuel).as_str());
    html.append(" liter.");
    html
}

/// Writes the narrative of a trip that is motored all the way and arrives
/// on time.
pub fn motor_only_narrative(motor_time: &Ratio, fuel: &Ratio) -> (html: String)
    ensures
        html@ == motor_only_text(motor_time@, fuel@),
{
    let mut html = String::from_str("Je kunt de hele afstand op de motor afleggen in ");
    html.append(format_time(motor_time).as_str());
    html.append(".<br><br>Geschat brandstofverbruik: ");
    html.append(format_amount(fuel).as_str());
    html.append(" liter.");
    html
}

} // verus!
