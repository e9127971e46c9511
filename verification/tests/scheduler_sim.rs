use dcf77faker::dcf77::Dcf77Data;
use dcf77faker::pwm::{CarrierControl, CARRIER_PERIOD, FULL_DUTY, REDUCED_DUTY};
use dcf77faker::scheduler::{delay_millis, render_time, Scheduler, TICKS_PER_SECOND};
use dcf77faker::sim::SimCarrier;

fn run_ticks(scheduler: &mut Scheduler, carrier: &mut SimCarrier, ticks: u32) {
    for _ in 0..ticks {
        scheduler.tick(carrier);
    }
}

#[test]
fn carrier_presets_fit_the_period() {
    assert_eq!(CARRIER_PERIOD, 400);
    assert_eq!(FULL_DUTY, 200);
    assert_eq!(REDUCED_DUTY, 9);
}

#[test]
fn carrier_records_period_and_duty_together() {
    let mut carrier = SimCarrier::new();
    carrier.set_period_and_duty_cycle(CARRIER_PERIOD, 0);
    carrier.set_duty_cycle(FULL_DUTY);
    assert_eq!(carrier.periods_applied(), &vec![CARRIER_PERIOD]);
    assert_eq!(carrier.applied(), &vec![0, FULL_DUTY]);
}

#[test]
fn one_second_of_ticks_gives_one_duty_change() {
    let mut scheduler = Scheduler::new();
    let mut carrier = SimCarrier::new();
    run_ticks(&mut scheduler, &mut carrier, u32::from(TICKS_PER_SECOND));
    // the boot frame is all zeroes, so the one shifted bit is a zero
    assert_eq!(carrier.applied(), &vec![REDUCED_DUTY]);
    assert_eq!(scheduler.second, 0);
}

#[test]
fn ticks_before_the_wrap_do_nothing() {
    let mut scheduler = Scheduler::new();
    scheduler.counter = 0;
    let mut carrier = SimCarrier::new();
    run_ticks(&mut scheduler, &mut carrier, 31);
    assert_eq!(carrier.applied().len(), 0);
    assert!(!scheduler.take_update());
    scheduler.tick(&mut carrier);
    assert_eq!(carrier.applied().len(), 1);
    assert!(scheduler.take_update());
    assert!(!scheduler.take_update());
}

#[test]
fn one_minute_of_ticks_reencodes_once() {
    let mut scheduler = Scheduler::new();
    let mut carrier = SimCarrier::new();
    run_ticks(&mut scheduler, &mut carrier, 32 * 60);
    let duties = carrier.applied();
    assert_eq!(duties.len(), 60);
    // 59 bit shifts of the all-zero boot frame, then silence at second 59
    let silences = duties.iter().filter(|duty| **duty == 0).count();
    assert_eq!(silences, 1);
    assert_eq!(duties[59], 0);
    assert_eq!(duties.iter().filter(|duty| **duty == REDUCED_DUTY).count(), 59);
    // the minute boundary re-encoded the advanced stamp
    let mut expected = Dcf77Data::new();
    expected.increment_minute();
    assert_eq!(scheduler.data, expected);
    assert_eq!(scheduler.frame, expected.to_bits());
    assert_eq!(scheduler.second, 59);
}

#[test]
fn second_minute_shifts_the_encoded_frame() {
    let mut scheduler = Scheduler::new();
    let mut carrier = SimCarrier::new();
    run_ticks(&mut scheduler, &mut carrier, 32 * 60);
    let mut expected = Dcf77Data::new();
    expected.increment_minute();
    let frame = expected.to_bits();
    let mut second_minute = SimCarrier::new();
    run_ticks(&mut scheduler, &mut second_minute, 32 * 60);
    let duties = second_minute.applied();
    assert_eq!(duties.len(), 60);
    for (position, duty) in duties.iter().take(59).enumerate() {
        let bit = (frame >> position) & 1;
        let expected_duty = if bit == 1 { FULL_DUTY } else { REDUCED_DUTY };
        assert_eq!(*duty, expected_duty, "second {}", position);
    }
    assert_eq!(duties[59], 0);
}

#[test]
fn delay_budget_saturates() {
    assert_eq!(delay_millis(0), 0);
    assert_eq!(delay_millis(1_500), 1_500);
    assert_eq!(delay_millis(u128::from(u32::MAX)), u32::MAX);
    assert_eq!(delay_millis(u128::from(u32::MAX) + 1), u32::MAX);
    assert_eq!(delay_millis(1 << 40), u32::MAX);
}

#[test]
fn renders_the_boot_time() {
    let data = Dcf77Data::new();
    let text = render_time(&data, 0);
    assert_eq!(text, b"10.04.90 10:40:00".to_vec());
}

#[test]
fn renders_every_field_position() {
    let mut data = Dcf77Data::new();
    data.increment_minute();
    let text = render_time(&data, 37);
    assert_eq!(text, b"10.04.90 10:41:37".to_vec());
}
