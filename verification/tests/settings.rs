use quad_flight::settings::{
    can_parse_u64, capped_throttle, log_every_n, parse_u64, pwm_duty_config, throttle_cap, Duty, PWM_BITS,
    PWM_MAX_DUTY,
};

#[test]
fn parses_decimal_digits() {
    assert_eq!(parse_u64(""), 0);
    assert_eq!(parse_u64("0"), 0);
    assert_eq!(parse_u64("200"), 200);
    assert_eq!(parse_u64("000500"), 500);
    assert_eq!(parse_u64("18446744073709551615"), u64::MAX);
    // characters behind '9' count on
    assert_eq!(parse_u64("1:"), 20);
}

#[test]
fn tells_what_can_be_parsed() {
    assert!(can_parse_u64(""));
    assert!(can_parse_u64("100"));
    assert!(can_parse_u64("18446744073709551615"));
    assert!(!can_parse_u64("18446744073709551616"));
    assert!(!can_parse_u64("99999999999999999999999"));
    assert!(!can_parse_u64("-1"));
    assert!(!can_parse_u64("1 0"));
}

#[test]
fn log_interval_defaults_to_half_a_second() {
    assert_eq!(log_every_n(None), 500);
    assert_eq!(log_every_n(Some(200)), 200);
    assert_eq!(log_every_n(Some(0)), 0);
    assert_eq!(log_every_n(Some(0x1_0000_0003)), 3);
}

#[test]
fn throttle_cap_defaults_to_none() {
    assert_eq!(throttle_cap(None), 100);
    assert_eq!(throttle_cap(Some(0)), 0);
    assert_eq!(throttle_cap(Some(40)), 40);
    assert_eq!(throttle_cap(Some(100)), 100);
}

#[test]
fn the_cap_scales_the_throttle() {
    // 80 % of the stick under a cap of 50 % is 40 %
    assert_eq!(capped_throttle(80, 50), 40 * 100);
    assert_eq!(capped_throttle(1639, 100), 1639 * 100);
    assert_eq!(capped_throttle(1639, 0), 0);
    assert_eq!(capped_throttle(u16::MAX, 100), 6_553_500);
    for cap in 0..=100u8 {
        for steps in 0..1639u16 {
            let capped = capped_throttle(steps, cap);
            assert!(capped <= steps as u32 * 100);
            assert!(capped <= capped_throttle(steps + 1, cap));
        }
    }
}

#[test]
fn picks_the_duty_resolution() {
    assert_eq!(pwm_duty_config(1), Duty::Duty1Bit);
    assert_eq!(pwm_duty_config(PWM_BITS), Duty::Duty10Bit);
    assert_eq!(pwm_duty_config(13), Duty::Duty13Bit);
    assert_eq!(pwm_duty_config(14), Duty::Duty14Bit);
    assert_eq!(PWM_MAX_DUTY, (1 << PWM_BITS) - 1);
}
