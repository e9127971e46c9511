use dcf77faker::i2c_controller::{
    calculate_baud_divisor, receive, send, BusOp, BusStatus, I2cError, I2cErrorByteInfo,
    I2cErrorKind,
};
use dcf77faker::pwm::CORE_CLOCK_SPEED_HZ;
use dcf77faker::sim::{CountedSink, SimBus};

fn ok_status() -> BusStatus {
    BusStatus { bus_error: false, arbitration_lost: false, acknowledged: true }
}

fn nack_status() -> BusStatus {
    BusStatus { bus_error: false, arbitration_lost: false, acknowledged: false }
}

fn bus_error_status() -> BusStatus {
    BusStatus { bus_error: true, arbitration_lost: true, acknowledged: true }
}

fn arbitration_lost_status() -> BusStatus {
    BusStatus { bus_error: false, arbitration_lost: true, acknowledged: true }
}

#[test]
fn send_on_clean_bus() {
    let mut bus = SimBus::flawless();
    let result = send(&mut bus, 0x27, &vec![0xAB, 0xCD]);
    assert_eq!(result, Ok(()));
    assert_eq!(
        bus.issued_ops(),
        &vec![
            BusOp::Start(0x4E),
            BusOp::Write(0xAB),
            BusOp::Write(0xCD),
            BusOp::Stop,
        ]
    );
}

#[test]
fn send_to_invalid_address_touches_nothing() {
    let mut bus = SimBus::flawless();
    let result = send(&mut bus, 0x80, &vec![0x01]);
    assert_eq!(
        result,
        Err(I2cError {
            kind: I2cErrorKind::InvalidAddress,
            byte_info: I2cErrorByteInfo::Address(0x80),
        })
    );
    assert_eq!(bus.issued_ops().len(), 0);
}

#[test]
fn send_unacknowledged_address_stops_after_one_attempt() {
    let mut bus = SimBus::new(vec![nack_status()], Vec::new());
    let result = send(&mut bus, 0x27, &vec![0x55]);
    let error = result.unwrap_err();
    assert_eq!(error.kind, I2cErrorKind::NotAcknowledged);
    assert!(error.byte_info.is_address());
    assert_eq!(error.byte_info, I2cErrorByteInfo::Address(0x27));
    // exactly one transaction attempt, no retry; the stop only releases
    // the bus
    assert_eq!(bus.issued_ops(), &vec![BusOp::Start(0x4E), BusOp::Stop]);
}

#[test]
fn send_reports_bus_error_with_data_index() {
    let statuses = vec![ok_status(), ok_status(), bus_error_status()];
    let mut bus = SimBus::new(statuses, Vec::new());
    let result = send(&mut bus, 0x27, &vec![0x11, 0x22]);
    assert_eq!(
        result,
        Err(I2cError {
            kind: I2cErrorKind::BusError,
            byte_info: I2cErrorByteInfo::Data { index: 1, byte: 0x22 },
        })
    );
    assert_eq!(
        bus.issued_ops(),
        &vec![BusOp::Start(0x4E), BusOp::Write(0x11), BusOp::Write(0x22), BusOp::Stop]
    );
}

#[test]
fn send_reports_arbitration_loss_at_stop() {
    let statuses = vec![ok_status(), ok_status(), arbitration_lost_status()];
    let mut bus = SimBus::new(statuses, Vec::new());
    let result = send(&mut bus, 0x27, &vec![0x11]);
    assert_eq!(
        result,
        Err(I2cError {
            kind: I2cErrorKind::ArbitrationLost,
            byte_info: I2cErrorByteInfo::StopBit,
        })
    );
    // the bus is no longer ours: no further stop after arbitration loss
    assert_eq!(
        bus.issued_ops(),
        &vec![BusOp::Start(0x4E), BusOp::Write(0x11), BusOp::Stop]
    );
}

#[test]
fn send_after_arbitration_loss_issues_no_stop() {
    let statuses = vec![ok_status(), arbitration_lost_status()];
    let mut bus = SimBus::new(statuses, Vec::new());
    let result = send(&mut bus, 0x27, &vec![0x11]);
    assert_eq!(
        result,
        Err(I2cError {
            kind: I2cErrorKind::ArbitrationLost,
            byte_info: I2cErrorByteInfo::Data { index: 0, byte: 0x11 },
        })
    );
    assert_eq!(bus.issued_ops(), &vec![BusOp::Start(0x4E), BusOp::Write(0x11)]);
}

#[test]
fn receive_collects_until_sink_declines() {
    let mut bus = SimBus::new(Vec::new(), vec![0x10, 0x20, 0x30, 0x40]);
    let mut sink: CountedSink<3> = CountedSink::new();
    let result = receive(&mut bus, 0x27, &mut sink);
    assert_eq!(result, Ok(()));
    assert_eq!(sink.collected(), &vec![0x10, 0x20, 0x30]);
    assert_eq!(
        bus.issued_ops(),
        &vec![
            BusOp::Start(0x4F),
            BusOp::Read,
            BusOp::AckRead,
            BusOp::Read,
            BusOp::AckRead,
            BusOp::Read,
            BusOp::NackStop,
        ]
    );
}

#[test]
fn receive_from_invalid_address_touches_nothing() {
    let mut bus = SimBus::new(Vec::new(), vec![0x10]);
    let mut sink: CountedSink<1> = CountedSink::new();
    let result = receive(&mut bus, 0xFF, &mut sink);
    assert_eq!(
        result,
        Err(I2cError {
            kind: I2cErrorKind::InvalidAddress,
            byte_info: I2cErrorByteInfo::Address(0xFF),
        })
    );
    assert_eq!(bus.issued_ops().len(), 0);
    assert_eq!(sink.collected().len(), 0);
}

#[test]
fn receive_reports_fault_without_delivering_the_byte() {
    let statuses = vec![ok_status(), ok_status(), nack_status()];
    let mut bus = SimBus::new(statuses, vec![0x10, 0x20, 0x30]);
    let mut sink: CountedSink<3> = CountedSink::new();
    let result = receive(&mut bus, 0x27, &mut sink);
    assert_eq!(
        result,
        Err(I2cError {
            kind: I2cErrorKind::NotAcknowledged,
            byte_info: I2cErrorByteInfo::Data { index: 1, byte: 0x20 },
        })
    );
    // only the cleanly received first byte reached the sink, and the
    // failed transfer still attempted a stop
    assert_eq!(sink.collected(), &vec![0x10]);
    assert_eq!(
        bus.issued_ops(),
        &vec![
            BusOp::Start(0x4F),
            BusOp::Read,
            BusOp::AckRead,
            BusOp::Read,
            BusOp::Stop,
        ]
    );
}

#[test]
fn error_constructors_tag_the_phase() {
    let kind = I2cErrorKind::BusError;
    assert_eq!(
        kind.to_error(I2cErrorByteInfo::StopBit),
        I2cError { kind, byte_info: I2cErrorByteInfo::StopBit }
    );
    assert_eq!(
        kind.at_address(0x55),
        I2cError { kind, byte_info: I2cErrorByteInfo::Address(0x55) }
    );
    assert_eq!(
        kind.at_data_index(0xAA, 7),
        I2cError { kind, byte_info: I2cErrorByteInfo::Data { index: 7, byte: 0xAA } }
    );
    assert_eq!(kind.at_stop_bit(), I2cError { kind, byte_info: I2cErrorByteInfo::StopBit });
    assert!(I2cErrorByteInfo::Address(3).is_address());
    assert!(!I2cErrorByteInfo::StopBit.is_address());
    assert!(!I2cErrorByteInfo::Data { index: 0, byte: 0 }.is_address());
}

#[test]
fn controller_setup_programs_the_divisor() {
    let mut bus = SimBus::flawless();
    dcf77faker::i2c_controller::setup_controller(&mut bus, CORE_CLOCK_SPEED_HZ, 100_000);
    assert_eq!(bus.issued_ops(), &vec![BusOp::Configure(150)]);
}

#[test]
fn baud_divisor_for_the_design_clocks() {
    // 31 MHz core, 100 kHz bus: (310 - 0 - 10) / 2
    assert_eq!(calculate_baud_divisor(CORE_CLOCK_SPEED_HZ, 100_000), 150);
    // 8 MHz core, 100 kHz bus: (80 - 0 - 10) / 2
    assert_eq!(calculate_baud_divisor(8_000_000, 100_000), 35);
}
