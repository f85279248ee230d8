use rapid_scan::voltage::{calc_range_width, convert_to_voltage, sample_ticks, TICKS_PER_VOLT};

fn volts(ticks: i64) -> f32 {
    ticks as f32 / TICKS_PER_VOLT as f32
}

fn width_volts(range: u8) -> f32 {
    calc_range_width(range) as f32 / 4.0
}

fn check_widths() {
    assert_eq!(width_volts(0), 20.0); // +/-10 V
    assert_eq!(width_volts(1), 10.0); // +/-5 V
    assert_eq!(width_volts(2), 5.0); // +/-2.5 V
    assert_eq!(width_volts(3), 2.5); // +/-1.25 V
    assert_eq!(width_volts(4), 10.0); // 10 V
    assert_eq!(width_volts(5), 5.0); // 5 V
    assert_eq!(width_volts(6), 2.5); // 2.5 V
}

fn check_conversion() {
    let ch1_data = 1000.0f32;
    let ch2_data = 500.0f32;
    let result = convert_to_voltage(0, 0, 1000, 500);
    assert_eq!(volts(result.0), ch1_data * 20.0 / 2f32.powf(16.0) - 10.0);
    assert_eq!(volts(result.1), ch2_data * 20.0 / 2f32.powf(16.0) - 10.0);
}

#[test]
fn test_calc_width() {
    check_widths();
}

#[test]
fn helper_test_calc_width() {
    check_widths();
}

#[test]
fn test_converting_voltage() {
    check_conversion();
}

#[test]
fn helper_test_converting_voltage() {
    check_conversion();
}

#[test]
fn unknown_range_has_no_width() {
    assert_eq!(calc_range_width(7), 0);
    assert_eq!(calc_range_width(255), 0);
}

#[test]
fn unipolar_conversion_has_no_offset() {
    assert_eq!(convert_to_voltage(4, 6, 65535, 32768), (65535 * 40, 32768 * 10));
    assert_eq!(volts(sample_ticks(5, 65536)), 5.0);
}

#[test]
fn voltage_round_trip_on_every_range() {
    for range in 0u8..=6 {
        let width = calc_range_width(range) as i64;
        let offset = if range <= 3 { width * 32768 } else { 0 };
        for raw in [0i32, 1, 1000, 32767, 32768, 65535, -7, i32::MAX, i32::MIN] {
            let ticks = sample_ticks(range, raw);
            assert_eq!((ticks + offset) / width, raw as i64);
        }
    }
}

#[test]
fn bipolar_midscale_is_zero_volts() {
    for range in 0u8..=3 {
        assert_eq!(sample_ticks(range, 32768), 0);
    }
}
