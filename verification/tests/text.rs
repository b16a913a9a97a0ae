use sailing_calculator::duration::rounded_minutes;
use sailing_calculator::numerals::{format_amount, format_nat, format_thousandths, format_two_digits};
use sailing_calculator::rational::{div_round_half_even, div_round_half_up, RATIO_LIMIT};
use sailing_calculator::{format_time, validate_max, validate_motor_speed, Ratio};

fn ratio(numer: i128, denom: i128) -> Ratio {
    Ratio::new(numer, denom).unwrap()
}

#[test]
fn format_time_spells_hours_and_minutes() {
    assert_eq!(format_time(&ratio(1, 1)), "1 uur");
    assert_eq!(format_time(&ratio(3, 2)), "1 uur en 30 minuten");
}

#[test]
fn format_time_carries_sixty_minutes_into_the_hour() {
    assert_eq!(format_time(&ratio(999_999, 1_000_000)), "1 uur");
    assert_eq!(format_time(&ratio(5_999, 3_600)), "1 uur en 40 minuten");
}

#[test]
fn format_time_rounds_half_a_minute_up() {
    assert_eq!(format_time(&ratio(1, 120)), "0 uur en 1 minuten");
    assert_eq!(format_time(&ratio(1, 121)), "0 uur");
    assert_eq!(format_time(&ratio(0, 7)), "0 uur");
    assert_eq!(format_time(&ratio(8, 3)), "2 uur en 40 minuten");
    assert_eq!(format_time(&ratio(100, 1)), "100 uur");
}

#[test]
fn format_time_counts_a_negative_duration_as_zero() {
    assert_eq!(format_time(&ratio(-5, 2)), "0 uur");
}

#[test]
fn format_time_counts_minutes_without_an_upper_end() {
    // 2^32 - 1/2 minutes round to 2^32 minutes.
    assert_eq!(rounded_minutes(&ratio(8_589_934_591, 120)), 4_294_967_296);
    assert_eq!(format_time(&ratio(8_589_934_591, 120)), "71582788 uur en 16 minuten");
    assert_eq!(rounded_minutes(&ratio(RATIO_LIMIT, 1)), 60 * RATIO_LIMIT as u128);
    assert_eq!(
        format_time(&ratio(RATIO_LIMIT, 1)),
        "1000000000000000000000000000000000000 uur"
    );
    assert_eq!(rounded_minutes(&ratio(-1, 1)), 0);
}

#[test]
fn ratio_holds_only_what_fits() {
    assert!(Ratio::new(1, 0).is_none());
    assert!(Ratio::new(1, -1).is_none());
    assert!(Ratio::new(RATIO_LIMIT + 1, 1).is_none());
    assert!(Ratio::new(-RATIO_LIMIT - 1, 1).is_none());
    assert!(Ratio::new(1, RATIO_LIMIT + 1).is_none());
    let r = ratio(-RATIO_LIMIT, RATIO_LIMIT);
    assert_eq!((r.numer(), r.denom()), (-RATIO_LIMIT, RATIO_LIMIT));
    assert_eq!((Ratio::zero().numer(), Ratio::zero().denom()), (0, 1));
    assert_eq!((Ratio::one().numer(), Ratio::one().denom()), (1, 1));
    assert_eq!(Ratio::of(7, 9).numer(), 7);
}

#[test]
fn rounding_sends_ties_up_or_to_even() {
    assert_eq!(div_round_half_up(5, 2), 3);
    assert_eq!(div_round_half_up(7, 2), 4);
    assert_eq!(div_round_half_up(4, 3), 1);
    assert_eq!(div_round_half_up(5, 3), 2);
    assert_eq!(div_round_half_up(u128::MAX, 1), u128::MAX);
    assert_eq!(div_round_half_up(u128::MAX, u128::MAX), 1);
    assert_eq!(div_round_half_even(5, 2), 2);
    assert_eq!(div_round_half_even(7, 2), 4);
    assert_eq!(div_round_half_even(4, 3), 1);
    assert_eq!(div_round_half_even(5, 3), 2);
    assert_eq!(div_round_half_even(u128::MAX, 2), 1 << 127);
}

#[test]
fn amounts_show_two_decimals() {
    assert_eq!(format_amount(&ratio(5, 1)), "5.00");
    assert_eq!(format_amount(&ratio(0, 1)), "0.00");
    assert_eq!(format_amount(&ratio(40, 3)), "13.33");
    assert_eq!(format_amount(&ratio(80, 3)), "26.67");
    assert_eq!(format_amount(&ratio(1_234_567, 1_000)), "1234.57");
    assert_eq!(format_amount(&ratio(5, 100)), "0.05");
}

#[test]
fn amounts_round_ties_to_the_even_hundredth() {
    assert_eq!(format_amount(&ratio(125, 1_000)), "0.12");
    assert_eq!(format_amount(&ratio(135, 1_000)), "0.14");
    assert_eq!(format_amount(&ratio(995, 1_000)), "1.00");
    assert_eq!(format_amount(&ratio(1_005, 1_000)), "1.00");
}

#[test]
fn amounts_below_zero_keep_their_sign() {
    assert_eq!(format_amount(&ratio(-5, 2)), "-2.50");
    assert_eq!(format_amount(&ratio(-1, 1_000)), "-0.00");
    assert_eq!(format_amount(&ratio(-RATIO_LIMIT, 1)), "-1000000000000000000000000000000000000.00");
}

#[test]
fn numerals_have_no_leading_zeros() {
    assert_eq!(format_nat(0), "0");
    assert_eq!(format_nat(9), "9");
    assert_eq!(format_nat(10), "10");
    assert_eq!(format_nat(1_234_567_890), "1234567890");
    assert_eq!(format_nat(u128::MAX), "340282366920938463463374607431768211455");
    assert_eq!(format_two_digits(0), "00");
    assert_eq!(format_two_digits(7), "07");
    assert_eq!(format_two_digits(99), "99");
}

#[test]
fn thousandths_show_as_few_decimals_as_it_takes() {
    assert_eq!(format_thousandths(100_000), "100");
    assert_eq!(format_thousandths(12_500), "12.5");
    assert_eq!(format_thousandths(12_050), "12.05");
    assert_eq!(format_thousandths(12_005), "12.005");
    assert_eq!(format_thousandths(1), "0.001");
    assert_eq!(format_thousandths(0), "0");
    assert_eq!(format_thousandths(-1), "-0.001");
    assert_eq!(format_thousandths(-2_000), "-2");
    assert_eq!(format_thousandths(i64::MIN), "-9223372036854775.808");
    assert_eq!(format_thousandths(i64::MAX), "9223372036854775.807");
}

#[test]
fn motor_speed_message_waits_for_both_speeds() {
    assert_eq!(validate_motor_speed(5_000, 4_000), "Motorsnelheid moet groter zijn dan zeilsnelheid");
    assert_eq!(validate_motor_speed(5_000, 5_000), "Motorsnelheid moet groter zijn dan zeilsnelheid");
    assert_eq!(validate_motor_speed(5_000, 5_001), "");
    assert_eq!(validate_motor_speed(0, 4_000), "");
    assert_eq!(validate_motor_speed(5_000, 0), "");
    assert_eq!(validate_motor_speed(-1, -2), "");
}

#[test]
fn max_message_names_field_limit_and_unit() {
    assert_eq!(
        validate_max(100_001, 100_000, "Afstand", "km"),
        "Afstand moet kleiner zijn dan 100 km"
    );
    assert_eq!(
        validate_max(13_000, 12_500, "Zeilsnelheid", "knopen"),
        "Zeilsnelheid moet kleiner zijn dan 12.5 knopen"
    );
    assert_eq!(validate_max(100_000, 100_000, "Afstand", "km"), "");
    assert_eq!(validate_max(-5, 100_000, "Afstand", "km"), "");
    assert_eq!(validate_max(0, -1_500, "", ""), " moet kleiner zijn dan -1.5 ");
    assert_eq!(
        validate_max(i64::MAX, i64::MIN, "x", "y"),
        "x moet kleiner zijn dan -9223372036854775.808 y"
    );
}
