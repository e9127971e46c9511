use dcf77faker::i2c_controller::{BusOp, BusStatus, I2cErrorByteInfo, I2cErrorKind};
use dcf77faker::i2c_display::I2cDisplaySercom0;
use dcf77faker::sim::SimBus;

fn all_ok(count: usize) -> Vec<BusStatus> {
    let mut statuses = Vec::new();
    for _ in 0..count {
        statuses.push(BusStatus { bus_error: false, arbitration_lost: false, acknowledged: true });
    }
    statuses
}

fn address_nack() -> BusStatus {
    BusStatus { bus_error: false, arbitration_lost: false, acknowledged: false }
}

#[test]
fn display_handle_holds_its_settings() {
    let mut display = I2cDisplaySercom0::new(0b010_0111, true);
    assert_eq!(display.display_address(), 0x27);
    assert!(display.wants_backlight());
    display.set_wants_backlight(false);
    assert!(!display.wants_backlight());
    assert_eq!(display.display_address(), 0x27);
}

#[test]
fn nibble_goes_out_as_three_writes() {
    let display = I2cDisplaySercom0::new(0x27, true);
    let mut bus = SimBus::flawless();
    let result = display.transmit_nibble(&mut bus, 0b0011, false);
    assert_eq!(result, Ok(()));
    // pin image 0x38: nibble high, backlight on; enable pulsed via bit 2
    assert_eq!(
        bus.issued_ops(),
        &vec![
            BusOp::Start(0x4E),
            BusOp::Write(0x38),
            BusOp::Stop,
            BusOp::Start(0x4E),
            BusOp::Write(0x3C),
            BusOp::Stop,
            BusOp::Start(0x4E),
            BusOp::Write(0x38),
            BusOp::Stop,
        ]
    );
}

#[test]
fn nibble_with_register_select_sets_data_bit() {
    let display = I2cDisplaySercom0::new(0x27, false);
    let mut bus = SimBus::flawless();
    let result = display.transmit_nibble(&mut bus, 0xA, true);
    assert_eq!(result, Ok(()));
    assert_eq!(
        bus.issued_ops(),
        &vec![
            BusOp::Start(0x4E),
            BusOp::Write(0xA1),
            BusOp::Stop,
            BusOp::Start(0x4E),
            BusOp::Write(0xA5),
            BusOp::Stop,
            BusOp::Start(0x4E),
            BusOp::Write(0xA1),
            BusOp::Stop,
        ]
    );
}

#[test]
fn byte_transmits_both_nibbles() {
    let display = I2cDisplaySercom0::new(0x27, false);
    let mut bus = SimBus::flawless();
    let result = display.transmit_byte(&mut bus, 0x5A, true);
    assert_eq!(result, Ok(()));
    // six one-byte transfers: three per nibble
    assert_eq!(bus.issued_ops().len(), 18);
    assert_eq!(bus.issued_ops()[1], BusOp::Write(0x51));
    assert_eq!(bus.issued_ops()[10], BusOp::Write(0xA1));
}

#[test]
fn byte_still_sends_lower_nibble_after_upper_fault() {
    let display = I2cDisplaySercom0::new(0x27, false);
    // the upper nibble's first transfer is never acknowledged; the lower
    // nibble still goes out, but the first fault is reported
    let mut statuses = vec![address_nack()];
    statuses.extend(all_ok(9));
    let mut bus = SimBus::new(statuses, Vec::new());
    let result = display.transmit_byte(&mut bus, 0x5A, false);
    let error = result.unwrap_err();
    assert_eq!(error.kind, I2cErrorKind::NotAcknowledged);
    assert_eq!(error.byte_info, I2cErrorByteInfo::Address(0x27));
    // the aborted transfer with its bus-releasing stop, then the full
    // lower nibble
    assert_eq!(bus.issued_ops().len(), 2 + 9);
}

#[test]
fn byte_reports_fault_when_both_halves_fault() {
    let display = I2cDisplaySercom0::new(0x27, false);
    let statuses = vec![address_nack(), address_nack()];
    let mut bus = SimBus::new(statuses, Vec::new());
    let result = display.transmit_byte(&mut bus, 0x5A, false);
    let error = result.unwrap_err();
    assert_eq!(error.kind, I2cErrorKind::NotAcknowledged);
    assert_eq!(error.byte_info, I2cErrorByteInfo::Address(0x27));
    assert_eq!(bus.issued_ops().len(), 2 + 2);
}

#[test]
fn lower_fault_surfaces_after_clean_upper() {
    let display = I2cDisplaySercom0::new(0x27, false);
    // upper nibble clean (nine statuses), lower nibble refused at once:
    // the fault still reaches the caller
    let mut statuses = all_ok(9);
    statuses.push(address_nack());
    let mut bus = SimBus::new(statuses, Vec::new());
    let result = display.transmit_byte(&mut bus, 0x5A, false);
    let error = result.unwrap_err();
    assert_eq!(error.kind, I2cErrorKind::NotAcknowledged);
    assert_eq!(error.byte_info, I2cErrorByteInfo::Address(0x27));
    assert_eq!(bus.issued_ops().len(), 9 + 2);
}

#[test]
fn update_backlight_writes_the_backlight_bit() {
    let display = I2cDisplaySercom0::new(0x27, true);
    let mut bus = SimBus::flawless();
    assert_eq!(display.update_backlight(&mut bus), Ok(()));
    assert_eq!(
        bus.issued_ops(),
        &vec![BusOp::Start(0x4E), BusOp::Write(0x08), BusOp::Stop]
    );
}

#[test]
fn set_location_issues_the_cursor_command() {
    let display = I2cDisplaySercom0::new(0x27, false);
    let mut bus = SimBus::flawless();
    assert_eq!(display.set_location(&mut bus, 20), Ok(()));
    // command byte 0x94: upper nibble 9, lower nibble 4
    assert_eq!(bus.issued_ops().len(), 18);
    assert_eq!(bus.issued_ops()[1], BusOp::Write(0x90));
    assert_eq!(bus.issued_ops()[10], BusOp::Write(0x40));
}

#[test]
fn write_text_sends_each_byte_until_a_fault() {
    let display = I2cDisplaySercom0::new(0x27, true);
    let mut bus = SimBus::flawless();
    let result = display.write_text(&mut bus, &b"Hi".to_vec());
    assert_eq!(result, Ok(()));
    assert_eq!(bus.issued_ops().len(), 36);

    // a byte whose transmission faults stops the text
    let mut statuses = vec![address_nack()];
    statuses.extend(all_ok(2));
    statuses.push(address_nack());
    let mut faulty = SimBus::new(statuses, Vec::new());
    let result = display.write_text(&mut faulty, &b"Hi".to_vec());
    let error = result.unwrap_err();
    assert_eq!(error.kind, I2cErrorKind::NotAcknowledged);
}

#[test]
fn basic_setup_converges_the_controller() {
    let display = I2cDisplaySercom0::new(0x27, true);
    let mut bus = SimBus::flawless();
    assert_eq!(display.basic_setup(&mut bus), Ok(()));
    // four bare nibbles and five command bytes
    assert_eq!(bus.issued_ops().len(), 4 * 9 + 5 * 18);
    // the first write switches towards 8-bit mode with the backlight on
    assert_eq!(bus.issued_ops()[1], BusOp::Write(0x38));
}
