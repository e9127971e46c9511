use dcf77faker::dcf77::Dcf77Data;

fn popcount_even(value: u64) -> bool {
    value.count_ones() % 2 == 0
}

#[test]
fn golden_frame_for_initial_stamp() {
    let frame = Dcf77Data::new().to_bits();
    assert_eq!(frame, 0x0640_890A_1812_0000);
}

#[test]
fn frame_markers_hold_all_day() {
    let mut data = Dcf77Data::new();
    for _ in 0..1440 {
        let frame = data.to_bits();
        assert_eq!(frame & 1, 0);
        assert_eq!((frame >> 20) & 1, 1);
        assert_eq!(frame >> 59, 0);
        data.increment_minute();
    }
}

#[test]
fn parity_groups_even_all_day() {
    let mut data = Dcf77Data::new();
    for _ in 0..1440 {
        let frame = data.to_bits();
        assert!(popcount_even((frame >> 21) & 0xFF));
        assert!(popcount_even((frame >> 29) & 0x7F));
        assert!(popcount_even((frame >> 36) & 0x7F_FFFF));
        data.increment_minute();
    }
}

#[test]
fn increment_carries_minute_ones() {
    let mut data = Dcf77Data::new();
    data.increment_minute();
    assert_eq!(data.minute_ones, 1);
    assert_eq!(data.minute_tens, 4);
    assert_eq!(data.hour_ones, 0);
    assert_eq!(data.hour_tens, 1);
}

#[test]
fn increment_carries_minute_tens() {
    let mut data = Dcf77Data::new();
    data.minute_ones = 9;
    data.minute_tens = 4;
    data.increment_minute();
    assert_eq!(data.minute_ones, 0);
    assert_eq!(data.minute_tens, 5);
    assert_eq!(data.hour_ones, 0);
    assert_eq!(data.hour_tens, 1);
}

#[test]
fn increment_carries_into_hour() {
    let mut data = Dcf77Data::new();
    data.minute_ones = 9;
    data.minute_tens = 5;
    data.increment_minute();
    assert_eq!(data.minute_ones, 0);
    assert_eq!(data.minute_tens, 0);
    assert_eq!(data.hour_ones, 1);
    assert_eq!(data.hour_tens, 1);
}

#[test]
fn increment_wraps_midnight() {
    let mut data = Dcf77Data::new();
    data.minute_ones = 9;
    data.minute_tens = 5;
    data.hour_ones = 3;
    data.hour_tens = 2;
    data.increment_minute();
    assert_eq!(data.minute_ones, 0);
    assert_eq!(data.minute_tens, 0);
    assert_eq!(data.hour_ones, 0);
    assert_eq!(data.hour_tens, 0);
    // the date deliberately does not roll over
    assert_eq!(data.day_of_month_tens, 1);
    assert_eq!(data.day_of_month_ones, 0);
    assert_eq!(data.day_of_week, 2);
}

#[test]
fn increment_carries_hour_ones() {
    let mut data = Dcf77Data::new();
    data.minute_ones = 9;
    data.minute_tens = 5;
    data.hour_ones = 9;
    data.hour_tens = 0;
    data.increment_minute();
    assert_eq!(data.hour_ones, 0);
    assert_eq!(data.hour_tens, 1);
    assert_eq!(data.minute_ones, 0);
    assert_eq!(data.minute_tens, 0);
}

#[test]
fn full_day_returns_to_start() {
    let start = Dcf77Data::new();
    let mut data = start;
    for _ in 0..1440 {
        data.increment_minute();
    }
    assert_eq!(data, start);
}

#[test]
fn hour_never_reaches_24() {
    let mut data = Dcf77Data::new();
    for _ in 0..1440 {
        let hour = u32::from(data.hour_tens) * 10 + u32::from(data.hour_ones);
        assert!(hour < 24);
        data.increment_minute();
    }
}

#[test]
fn decode_inverts_encode_all_day() {
    let mut data = Dcf77Data::new();
    for _ in 0..1440 {
        let decoded = Dcf77Data::from_bits(data.to_bits());
        assert_eq!(decoded, data);
        data.increment_minute();
    }
}

#[test]
fn decode_reads_fields() {
    let data = Dcf77Data::from_bits(0x0640_890A_1812_0000);
    assert_eq!(data, Dcf77Data::new());
    assert!(data.cest);
    assert!(!data.cet);
    assert_eq!(data.minute_tens, 4);
    assert_eq!(data.hour_tens, 1);
    assert_eq!(data.year_in_century_tens, 9);
}

#[test]
fn encode_places_civil_warning_and_flags() {
    let mut data = Dcf77Data::new();
    data.civil_warning = 0x2AAA;
    data.abnormal_operation = true;
    data.leap_second_announcement = true;
    let frame = data.to_bits();
    assert_eq!((frame >> 1) & 0x3FFF, 0x2AAA);
    assert_eq!((frame >> 15) & 1, 1);
    assert_eq!((frame >> 16) & 1, 0);
    assert_eq!((frame >> 19) & 1, 1);
    assert_eq!(Dcf77Data::from_bits(frame), data);
}
