use sailing_calculator::quantity::QUANTITY_LIMIT;
use sailing_calculator::{plan_voyage, Quantity, Ratio, SailResult, Scenario, TripInput};

fn quantity(thousandths: i64) -> Quantity {
    Quantity::new(thousandths).unwrap()
}

fn calculate(
    start_time: &str,
    arrival_time: &str,
    distance: i64,
    sail_speed: i64,
    motor_speed: i64,
    fuel_consumption: i64,
    use_metric: bool,
    is_next_day: bool,
) -> SailResult {
    sailing_calculator::calculate(
        start_time,
        arrival_time,
        quantity(distance),
        quantity(sail_speed),
        quantity(motor_speed),
        quantity(fuel_consumption),
        use_metric,
        is_next_day,
    )
}

fn parts(r: Ratio) -> (i128, i128) {
    (r.numer(), r.denom())
}

fn error_text(out: &SailResult) -> String {
    assert_eq!(out.scenario(), Scenario::Error);
    assert_eq!(parts(out.sail_fraction()), (0, 1));
    assert_eq!(parts(out.motor_fraction()), (0, 1));
    out.result_html()
}

#[test]
fn sails_all_the_way_when_the_budget_is_just_enough() {
    let out = calculate("09:00", "15:00", 30_000, 5_000, 8_000, 2_000, false, false);
    assert_eq!(out.scenario(), Scenario::SailOnly);
    assert_eq!(
        out.result_html(),
        "Je kunt de hele afstand zeilen in 6 uur (30.00 zeemijl).<br>Geschat brandstofverbruik: 0 liter."
    );
    assert_eq!(parts(out.sail_fraction()), (1, 1));
    assert_eq!(parts(out.motor_fraction()), (0, 1));
}

#[test]
fn changes_to_the_motor_when_sailing_is_too_slow() {
    let out = calculate("09:00", "15:00", 40_000, 5_000, 8_000, 2_000, false, false);
    assert_eq!(out.scenario(), Scenario::SailAndMotor);
    assert_eq!(
        out.result_html(),
        "Je kunt 2 uur en 40 minuten zeilen (13.33 zeemijl). Daarna moet je overschakelen naar de motor voor de resterende 26.67 zeemijl, wat 3 uur en 20 minuten duurt.<br>Start de motor om <strong>11:40</strong>.<br><br>Geschat brandstofverbruik: 6.67 liter."
    );
    let (sn, sd) = parts(out.sail_fraction());
    let (mn, md) = parts(out.motor_fraction());
    // 160 of 360 minutes under sail, 200 under motor.
    assert_eq!(sn * 360, sd * 160);
    assert_eq!(mn * 360, md * 200);
    assert_eq!(sn * md + mn * sd, sd * md);
}

#[test]
fn metric_trip_names_kilometres() {
    let out = calculate("08:00", "12:00", 40_000, 8_000, 12_000, 1_500, true, false);
    assert_eq!(out.scenario(), Scenario::SailAndMotor);
    assert_eq!(
        out.result_html(),
        "Je kunt 2 uur zeilen (16.00 km). Daarna moet je overschakelen naar de motor voor de resterende 24.00 km, wat 2 uur duurt.<br>Start de motor om <strong>10:00</strong>.<br><br>Geschat brandstofverbruik: 3.00 liter."
    );
    assert_eq!(parts(out.sail_fraction()), (28_800_000, 57_600_000));
    assert_eq!(parts(out.motor_fraction()), (28_800_000, 57_600_000));
}

#[test]
fn metric_flag_changes_the_unit_name_only() {
    let metric = calculate("09:00", "15:00", 40_000, 5_000, 8_000, 2_000, true, false);
    let nautical = calculate("09:00", "15:00", 40_000, 5_000, 8_000, 2_000, false, false);
    assert_eq!(metric.scenario(), nautical.scenario());
    assert_eq!(metric.result_html(), nautical.result_html().replace("zeemijl", "km"));
    assert_eq!(parts(metric.sail_fraction()), parts(nautical.sail_fraction()));
}

#[test]
fn motors_all_the_way_and_arrives_late() {
    let out = calculate("09:00", "10:00", 20_000, 5_000, 8_000, 2_000, false, false);
    assert_eq!(out.scenario(), Scenario::MotorLate);
    assert_eq!(
        out.result_html(),
        "Je kunt de hele afstand op de motor afleggen, maar je zult niet op tijd aankomen. <br>Je verwachte aankomsttijd is <strong>11:30</strong>.<br><br>Geschat brandstofverbruik: 5.00 liter."
    );
    assert_eq!(parts(out.sail_fraction()), (0, 1));
    assert_eq!(parts(out.motor_fraction()), (1, 1));
}

#[test]
fn late_arrival_wraps_past_midnight() {
    // 100 miles at 4 knots is 25 hours: a day and an hour after 23:30.
    let out = calculate("23:30", "23:45", 100_000, 2_000, 4_000, 0, false, false);
    assert_eq!(out.scenario(), Scenario::MotorLate);
    assert!(out.result_html().contains("<strong>00:30</strong>"));
    assert!(out.result_html().ends_with("Geschat brandstofverbruik: 0.00 liter."));
}

#[test]
fn motor_exactly_in_time_is_a_changeover_at_departure() {
    // Motoring takes the whole budget: the changeover point is zero.
    let out = calculate("09:00", "11:00", 16_000, 5_000, 8_000, 1_000, false, false);
    assert_eq!(out.scenario(), Scenario::SailAndMotor);
    assert_eq!(
        out.result_html(),
        "Je kunt 0 uur zeilen (0.00 zeemijl). Daarna moet je overschakelen naar de motor voor de resterende 16.00 zeemijl, wat 2 uur duurt.<br>Start de motor om <strong>09:00</strong>.<br><br>Geschat brandstofverbruik: 2.00 liter."
    );
    assert_eq!(out.sail_fraction().numer(), 0);
}

#[test]
fn next_day_flag_adds_a_day_to_the_budget() {
    let out = calculate("22:00", "02:00", 20_000, 5_000, 8_000, 2_000, false, true);
    assert_eq!(out.scenario(), Scenario::SailOnly);
    assert_eq!(
        out.result_html(),
        "Je kunt de hele afstand zeilen in 4 uur (20.00 zeemijl).<br>Geschat brandstofverbruik: 0 liter."
    );
}

#[test]
fn negative_fuel_rate_shows_a_minus_sign() {
    let out = calculate("09:00", "10:00", 20_000, 5_000, 8_000, -2_000, false, false);
    assert!(out.result_html().ends_with("Geschat brandstofverbruik: -5.00 liter."));
}

#[test]
fn rejects_an_unreadable_start_time() {
    let out = calculate("9 uur", "15:00", 30_000, 5_000, 8_000, 2_000, false, false);
    assert_eq!(error_text(&out), "Ongeldige starttijd.");
    let out = calculate("24:00", "15:00", 30_000, 5_000, 8_000, 2_000, false, false);
    assert_eq!(error_text(&out), "Ongeldige starttijd.");
}

#[test]
fn rejects_an_unreadable_arrival_time() {
    let out = calculate("09:00", "15:60", 30_000, 5_000, 8_000, 2_000, false, false);
    assert_eq!(error_text(&out), "Ongeldige aankomsttijd.");
}

#[test]
fn start_time_is_checked_before_everything_else() {
    let out = calculate("", "", -1, -1, -1, 0, false, false);
    assert_eq!(error_text(&out), "Ongeldige starttijd.");
}

#[test]
fn rejects_a_distance_that_is_not_positive() {
    let out = calculate("09:00", "15:00", 0, 5_000, 8_000, 2_000, false, false);
    assert_eq!(error_text(&out), "Afstand moet groter zijn dan 0.");
    let out = calculate("09:00", "15:00", -5, 0, 0, 2_000, false, false);
    assert_eq!(error_text(&out), "Afstand moet groter zijn dan 0.");
}

#[test]
fn rejects_a_sail_speed_that_is_not_positive() {
    let out = calculate("09:00", "15:00", 30_000, 0, 8_000, 2_000, false, false);
    assert_eq!(error_text(&out), "Zeilsnelheid moet groter zijn dan 0.");
}

#[test]
fn rejects_a_motor_speed_that_is_not_positive() {
    let out = calculate("09:00", "15:00", 30_000, 5_000, 0, 2_000, false, false);
    assert_eq!(error_text(&out), "Motorsnelheid moet groter zijn dan 0.");
}

#[test]
fn rejects_a_motor_that_is_not_faster_than_the_sails() {
    let out = calculate("09:00", "15:00", 30_000, 5_000, 5_000, 2_000, false, false);
    assert_eq!(error_text(&out), "Motorsnelheid moet groter zijn dan zeilsnelheid.");
    let out = calculate("09:00", "15:00", 30_000, 5_000, 4_000, 2_000, false, false);
    assert_eq!(error_text(&out), "Motorsnelheid moet groter zijn dan zeilsnelheid.");
}

#[test]
fn rejects_an_arrival_that_is_not_after_the_start() {
    let out = calculate("15:00", "09:00", 30_000, 5_000, 8_000, 2_000, false, false);
    assert_eq!(error_text(&out), "Aankomsttijd moet later zijn dan starttijd.");
    let out = calculate("09:00", "09:00", 30_000, 5_000, 8_000, 2_000, false, false);
    assert_eq!(error_text(&out), "Aankomsttijd moet later zijn dan starttijd.");
}

#[test]
fn largest_quantities_are_planned_without_overflow() {
    let l = QUANTITY_LIMIT;
    let out = calculate("00:00", "23:59", l, l - 1, l, -l, false, true);
    assert_eq!(out.scenario(), Scenario::SailOnly);
    let out = calculate("00:00", "00:01", l, 1, 2, -l, false, false);
    assert_eq!(out.scenario(), Scenario::MotorLate);
    let out = calculate("00:00", "23:59", l, 1, l, l, true, true);
    assert_eq!(out.scenario(), Scenario::SailAndMotor);
}

#[test]
fn quantity_holds_only_what_is_within_the_limit() {
    assert!(Quantity::new(QUANTITY_LIMIT + 1).is_none());
    assert!(Quantity::new(-QUANTITY_LIMIT - 1).is_none());
    assert!(Quantity::new(i64::MAX).is_none());
    assert!(Quantity::new(i64::MIN).is_none());
    assert_eq!(quantity(QUANTITY_LIMIT).thousandths(), QUANTITY_LIMIT);
    assert_eq!(quantity(-QUANTITY_LIMIT).thousandths(), -QUANTITY_LIMIT);
    assert_eq!(quantity(0).thousandths(), 0);
}

#[test]
fn late_arrival_after_sixty_thousand_million_minutes() {
    // 60 000 000 000 minutes of motoring leave 960 minutes past midnight.
    let out = calculate("00:00", "00:01", 2_000_000_000, 1, 2, 0, false, false);
    assert_eq!(out.scenario(), Scenario::MotorLate);
    assert_eq!(
        out.result_html(),
        "Je kunt de hele afstand op de motor afleggen, maar je zult niet op tijd aankomen. <br>Je verwachte aankomsttijd is <strong>16:00</strong>.<br><br>Geschat brandstofverbruik: 0.00 liter."
    );
}

#[test]
fn late_arrival_of_a_million_million_units() {
    // (1 + 30 000 000 000 000) mod 1440 is 481 minutes past midnight.
    let out = calculate("00:01", "00:02", 1_000_000_000_000_000, 1_000, 2_000, 0, false, false);
    assert_eq!(out.scenario(), Scenario::MotorLate);
    assert!(out.result_html().contains("<strong>08:01</strong>"));
    assert!(out.result_html().ends_with("Geschat brandstofverbruik: 0.00 liter."));
}

#[test]
fn trip_check_and_plan_agree_with_calculate() {
    let trip = TripInput {
        start_minutes: 540,
        arrival_minutes: 900,
        distance: quantity(40_000),
        sail_speed: quantity(5_000),
        motor_speed: quantity(8_000),
        fuel_rate: quantity(2_000),
        use_metric: false,
        is_next_day: false,
    };
    assert_eq!(trip.check(), None);
    assert!(trip.is_valid());
    // Times beyond a day are no concern of `check`, but they are of `is_valid`.
    let beyond = TripInput { start_minutes: 5_000, arrival_minutes: 6_000, ..trip };
    assert_eq!(beyond.check(), None);
    assert!(!beyond.is_valid());
    assert!(!TripInput { arrival_minutes: 1_440, ..trip }.is_valid());
    assert!(!TripInput { arrival_minutes: 540, ..trip }.is_valid());
    assert_eq!(trip.budget_minutes(), 360);
    assert_eq!(trip.classify(), Scenario::SailAndMotor);
    let planned = plan_voyage(&trip);
    let calculated = calculate("09:00", "15:00", 40_000, 5_000, 8_000, 2_000, false, false);
    assert_eq!(planned.result_html(), calculated.result_html());
    assert_eq!(parts(trip.changeover()), (480_000, 180_000));
    assert_eq!(parts(trip.motoring_time()), (600_000, 180_000));
    let late = TripInput { arrival_minutes: 600, ..trip };
    assert_eq!(late.classify(), Scenario::MotorLate);
    let bad = TripInput { motor_speed: quantity(5_000), ..trip };
    assert_eq!(bad.check(), Some("Motorsnelheid moet groter zijn dan zeilsnelheid."));
    assert!(!bad.is_valid());
}

#[test]
fn scenario_codes_run_from_nought_to_four() {
    assert_eq!(Scenario::Error.code(), 0);
    assert_eq!(Scenario::SailOnly.code(), 1);
    assert_eq!(Scenario::SailAndMotor.code(), 2);
    assert_eq!(Scenario::MotorOnly.code(), 3);
    assert_eq!(Scenario::MotorLate.code(), 4);
}

#[test]
fn shares_stay_within_the_budget_over_a_grid_of_trips() {
    for distance in [1, 999, 12_345, 40_000, 500_000] {
        for sail in [1, 2_500, 5_000] {
            for motor in [sail + 1, 8_000, 20_000] {
                for arrival in ["09:01", "12:30", "23:59"] {
                    let out = calculate("09:00", arrival, distance, sail, motor, 1_000, false, false);
                    assert_ne!(out.scenario(), Scenario::Error);
                    assert_ne!(out.scenario(), Scenario::MotorOnly);
                    let (sn, sd) = parts(out.sail_fraction());
                    let (mn, md) = parts(out.motor_fraction());
                    assert!(sd > 0 && md > 0);
                    assert!(0 <= sn && sn <= sd);
                    assert!(0 <= mn && mn <= md);
                    assert!(sn * md + mn * sd <= sd * md);
                    if out.scenario() == Scenario::SailAndMotor {
                        assert_eq!(sn * md + mn * sd, sd * md);
                    }
                }
            }
        }
    }
}
