use temperature_protocol::messages::{
    print_header, DeviceInfo, DeviceMessage, PrintHeaderStatus, RelayReport, SensorError,
    SensorReport,
};
use temperature_protocol::pwm::{PWMControl, RoomControl, SimpleControl};
use temperature_protocol::relay::{
    relay_control, DispatchNote, RelayConfirmationState, RelayControl, RelayState, RELAY_PORT,
};
use temperature_protocol::server::{
    correction, relay_hostname, Clock, Reaction, RelayOutcome, SensorOutcome, Server,
    BEDROOM_RELAY_EXPECTED_IP, BEDROOM_SENSOR_EXPECTED_IP, KIDS_RELAY_EXPECTED_IP,
    KIDS_SENSOR_EXPECTED_IP, MAX_MILLIS,
};

fn info(id: u32) -> Option<DeviceInfo> {
    Some(DeviceInfo { id: Some(id), started: false, offline_sec: None })
}

fn sensor(id: u32, deci: i32) -> SensorReport {
    SensorReport {
        info: info(id),
        temperature_deci: Some(deci),
        humidity_deci: Some(400),
        sensor_error: None,
        button: None,
    }
}

fn relay(id: u32, on: bool) -> RelayReport {
    RelayReport { info: info(id), relay_status: on }
}

fn clock(seconds: i64, second_of_day: u32) -> Clock {
    Clock { millis: seconds * 1000, second_of_day, second_of_day_ahead: second_of_day + 600 }
}

#[test]
fn header_status_of_reports() {
    assert_eq!(print_header(&None), PrintHeaderStatus::Failure);
    assert_eq!(
        print_header(&Some(DeviceInfo { id: None, started: true, offline_sec: Some(3) })),
        PrintHeaderStatus::Failure
    );
    assert_eq!(print_header(&info(0)), PrintHeaderStatus::Plain);
    assert_eq!(
        print_header(&Some(DeviceInfo { id: Some(1), started: true, offline_sec: None })),
        PrintHeaderStatus::HasStatusUpdate
    );
    assert_eq!(
        print_header(&Some(DeviceInfo { id: Some(1), started: false, offline_sec: Some(0) })),
        PrintHeaderStatus::HasStatusUpdate
    );
}

#[test]
fn relay_commands() {
    assert_eq!(relay_control(true, 0), RelayControl { dummy: true, state: RelayState::On, delay: 0 });
    assert_eq!(
        relay_control(false, 30_000),
        RelayControl { dummy: true, state: RelayState::Off, delay: 30_000 }
    );
    assert_eq!(RELAY_PORT, 4210);
    assert_eq!(relay_hostname(0), "esp8266-relay0.local");
    assert_eq!(relay_hostname(1), "esp8266-relay1.local");
    assert_eq!(relay_hostname(2), "esp8266-relay2.local");
    assert_eq!(correction(0), 0);
    assert_eq!(correction(1), -900_000_000);
    assert_eq!(correction(2), -600_000_000);
}

#[test]
fn confirmation_state_machine() {
    let mut s = RelayConfirmationState::default();
    assert_eq!(s, RelayConfirmationState { unconfirmed: false, confirmed_on_state: false });
    s.command_sent();
    assert_eq!(s, RelayConfirmationState { unconfirmed: true, confirmed_on_state: false });
    s.command_sent();
    assert_eq!(s, RelayConfirmationState { unconfirmed: true, confirmed_on_state: false });
    s.report_received(true);
    assert_eq!(s, RelayConfirmationState { unconfirmed: false, confirmed_on_state: true });
    s.command_sent();
    assert_eq!(s, RelayConfirmationState { unconfirmed: true, confirmed_on_state: true });
    s.report_received(false);
    assert_eq!(s, RelayConfirmationState { unconfirmed: false, confirmed_on_state: false });
    assert_eq!(DispatchNote::NotReached.annotation(), " [NRELAY]");
    assert_eq!(DispatchNote::Unconfirmed.annotation(), " [UNCONFIRMED]");
    assert_eq!(DispatchNote::LastReported(true).annotation(), " *ON");
    assert_eq!(DispatchNote::LastReported(false).annotation(), " *OFF");
    assert_eq!(DispatchNote::Plain.annotation(), "");
}

#[test]
fn sensor_report_without_id_or_reading_renews_last_seen_only() {
    let mut server = Server::new();
    let c = clock(1_000, 0);
    let mut r = sensor(0, 200);
    r.info = None;
    assert_eq!(server.new_sensor_report(7, &r, &c), SensorOutcome::MissingId);
    r.info = Some(DeviceInfo { id: None, started: true, offline_sec: None });
    assert_eq!(server.new_sensor_report(7, &r, &c), SensorOutcome::MissingId);
    let mut e = sensor(2, 0);
    e.temperature_deci = None;
    e.sensor_error = Some(SensorError::Checksum);
    assert_eq!(server.last_seen(7), Some(1_000));
    assert_eq!(server.last_seen(8), None);
    assert_eq!(server.new_sensor_report(8, &e, &clock(2_000, 0)), SensorOutcome::NoReading { id: 2 });
    assert_eq!(server.last_seen(8), Some(2_000));
    assert_eq!(server.last_seen(7), Some(1_000));
    assert_eq!(server.last_temp(0), None);
    assert_eq!(server.last_temp(2), None);
    assert_eq!(server.confirmation(2), RelayConfirmationState::default());
    // a sensor that reports only failures does not go stale
    assert_eq!(server.is_stale(8, 2_180), false);
    assert_eq!(server.is_stale(8, 2_181), true);
}

#[test]
fn unmanaged_sensor_is_recorded_only() {
    let mut server = Server::new();
    let out = server.new_sensor_report(9, &sensor(3, 187), &clock(1_000, 0));
    assert_eq!(out, SensorOutcome::Unmanaged { id: 3, temp: 18_700_000_000 });
    assert_eq!(server.last_temp(3), Some(18_700_000_000));
    assert_eq!(server.last_seen(9), Some(1_000));
    let out = server.new_sensor_report(9, &sensor(u32::MAX, -5), &clock(-1, 0));
    assert_eq!(out, SensorOutcome::Unmanaged { id: u32::MAX, temp: -500_000_000 });
    assert_eq!(server.last_seen(9), Some(-1));
}

#[test]
fn simple_room_is_controlled() {
    // room 1: target 21.5 all day, readings corrected by -0.9
    let mut server = Server::new();
    let out = server.new_sensor_report(5, &sensor(1, 220), &clock(50, 40_000));
    assert_eq!(
        out,
        SensorOutcome::Command {
            room: 1,
            temp: 21_100_000_000,
            target: 21_500_000_000,
            mode_on: true,
            delay_ms: 0,
            heater_on: true,
        }
    );
    assert_eq!(server.last_temp(1), Some(21_100_000_000));
    // within the dead band the mode stays
    let out = server.new_sensor_report(5, &sensor(1, 225), &clock(60, 40_060));
    assert_eq!(
        out,
        SensorOutcome::Command {
            room: 1,
            temp: 21_600_000_000,
            target: 21_500_000_000,
            mode_on: true,
            delay_ms: 0,
            heater_on: true,
        }
    );
    let out = server.new_sensor_report(5, &sensor(1, 226), &clock(70, 40_120));
    assert_eq!(
        out,
        SensorOutcome::Command {
            room: 1,
            temp: 21_700_000_000,
            target: 21_500_000_000,
            mode_on: false,
            delay_ms: 0,
            heater_on: false,
        }
    );
}

#[test]
fn pwm_room_is_controlled() {
    // bedroom at 12:45: target 16.5, falling; in ten minutes 16.5 - 9.0 * 600 / 23400
    let mut server = Server::new();
    let c = Clock { millis: 2_000_000, second_of_day: 45_900, second_of_day_ahead: 46_500 };
    let out = server.new_sensor_report(BEDROOM_SENSOR_EXPECTED_IP, &sensor(0, 160), &c);
    // the scheduled mode has come at the first reading: on since the epoch.
    // smooth 16.0, future target 16.269230769, above -0.269230769, bias -0.36:
    // dt = -0.629230769, on pulse 377538 ms, of which 2000000 ms have passed
    assert_eq!(
        out,
        SensorOutcome::Command {
            room: 0,
            temp: 16_000_000_000,
            target: 16_500_000_000,
            mode_on: false,
            delay_ms: 0,
            heater_on: false,
        }
    );
    // off was scheduled for now; the next reading finds the relay off since then.
    // smooth 16.0, dt as before: off pulse (1 - 0.629230769) * 600000 = 222461 ms
    let c = Clock { millis: 2_060_000, second_of_day: 45_900, second_of_day_ahead: 46_500 };
    let out = server.new_sensor_report(BEDROOM_SENSOR_EXPECTED_IP, &sensor(0, 160), &c);
    assert_eq!(
        out,
        SensorOutcome::Command {
            room: 0,
            temp: 16_000_000_000,
            target: 16_500_000_000,
            mode_on: true,
            delay_ms: 222_461 - 60_000,
            heater_on: false,
        }
    );
    assert_eq!(server.last_seen(BEDROOM_SENSOR_EXPECTED_IP), Some(2_060));
}

#[test]
fn relay_report_confirms_by_device_id() {
    let mut server = Server::new();
    let c = clock(500, 0);
    let mut r = relay(2, true);
    r.info = None;
    assert_eq!(server.new_relay_report(44, &r, &c), RelayOutcome::MissingId);
    assert_eq!(server.last_seen(44), Some(500));
    assert_eq!(server.relay_on(44), None);
    assert_eq!(
        server.new_relay_report(44, &relay(2, true), &c),
        RelayOutcome::Reported { id: 2, on: true, status: PrintHeaderStatus::Plain }
    );
    assert_eq!(server.relay_on(44), Some(true));
    assert_eq!(
        server.confirmation(2),
        RelayConfirmationState { unconfirmed: false, confirmed_on_state: true }
    );
    assert_eq!(server.confirmation(0), RelayConfirmationState::default());
    // a relay that belongs to no room is recorded by its host only
    let started = RelayReport {
        info: Some(DeviceInfo { id: Some(3), started: true, offline_sec: None }),
        relay_status: true,
    };
    assert_eq!(
        server.new_relay_report(45, &started, &c),
        RelayOutcome::Reported { id: 3, on: true, status: PrintHeaderStatus::HasStatusUpdate }
    );
    assert_eq!(server.relay_on(45), Some(true));
    assert_eq!(server.confirmation(3), RelayConfirmationState::default());
}

#[test]
fn command_stays_unconfirmed_until_the_relay_reports() {
    let mut server = Server::new();
    let out = server.new_sensor_report(5, &sensor(1, 100), &clock(10, 0));
    assert!(matches!(out, SensorOutcome::Command { room: 1, mode_on: true, delay_ms: 0, .. }));
    assert_eq!(server.relay_dispatched(1, 0, true), DispatchNote::Plain);
    assert_eq!(server.confirmation(1).unconfirmed, true);
    for k in 0..50 {
        let c = clock(20 + k, 0);
        server.new_sensor_report(5, &sensor(1, 100), &c);
        server.new_sensor_report(6, &sensor(0, 100), &c);
        server.new_relay_report(8, &relay(0, true), &c);
        server.new_relay_report(8, &relay(2, false), &c);
        server.keep_alive(5, &c);
        assert_eq!(server.relay_dispatched(1, 0, true), DispatchNote::Unconfirmed);
        assert_eq!(server.relay_dispatched(1, 500, true), DispatchNote::Unconfirmed);
        assert_eq!(server.relay_dispatched(1, 0, false), DispatchNote::NotReached);
        assert_eq!(server.confirmation(1).unconfirmed, true);
        assert_eq!(server.confirmation(1).confirmed_on_state, false);
    }
    server.new_relay_report(8, &relay(1, true), &clock(100, 0));
    assert_eq!(
        server.confirmation(1),
        RelayConfirmationState { unconfirmed: false, confirmed_on_state: true }
    );
    assert_eq!(server.relay_dispatched(1, 500, true), DispatchNote::LastReported(true));
    assert_eq!(server.relay_dispatched(1, 500, true), DispatchNote::Unconfirmed);
}

#[test]
fn dispatch_that_failed_leaves_the_relay_unconfirmed() {
    let mut server = Server::new();
    server.new_relay_report(8, &relay(0, true), &clock(5, 0));
    assert_eq!(
        server.confirmation(0),
        RelayConfirmationState { unconfirmed: false, confirmed_on_state: true }
    );
    assert_eq!(server.relay_dispatched(0, 0, false), DispatchNote::NotReached);
    assert_eq!(
        server.confirmation(0),
        RelayConfirmationState { unconfirmed: true, confirmed_on_state: true }
    );
    assert_eq!(server.relay_dispatched(0, 7, true), DispatchNote::Unconfirmed);
    assert_eq!(server.relay_dispatched(0, 7, false), DispatchNote::NotReached);
    assert_eq!(server.confirmation(0).unconfirmed, true);
    // the other relays are as they were
    assert_eq!(server.confirmation(1), RelayConfirmationState::default());
    assert_eq!(server.relay_dispatched(1, 7, true), DispatchNote::LastReported(false));
    server.new_relay_report(8, &relay(0, false), &clock(6, 0));
    assert_eq!(
        server.confirmation(0),
        RelayConfirmationState { unconfirmed: false, confirmed_on_state: false }
    );
}

#[test]
fn diagnostic_text() {
    let mut server = Server::new();
    assert_eq!(
        server.format_diag(1_000),
        "Temp0: N/A, Temp2: N/A\nFAIL: Bedroom sensor\nFAIL: Kids sensor"
    );
    // heard at the epoch counts as never heard
    assert_eq!(server.format_diag(180), "Temp0: N/A, Temp2: N/A");
    assert_eq!(
        server.format_diag(181),
        "Temp0: N/A, Temp2: N/A\nFAIL: Bedroom sensor\nFAIL: Kids sensor"
    );
    let c = clock(1_000, 0);
    server.new_sensor_report(BEDROOM_SENSOR_EXPECTED_IP, &sensor(0, 215), &c);
    server.new_sensor_report(KIDS_SENSOR_EXPECTED_IP, &sensor(2, 3), &c);
    assert_eq!(
        server.format_diag(1_100),
        "Temp0: 21.5, Temp2: -0.3\nFAIL: Bedroom relay\nFAIL: Kids relay"
    );
    server.new_relay_report(BEDROOM_RELAY_EXPECTED_IP, &relay(0, true), &c);
    server.new_relay_report(KIDS_RELAY_EXPECTED_IP, &relay(2, false), &c);
    assert_eq!(server.format_diag(1_180), "Temp0: 21.5 [ON], Temp2: -0.3");
    assert_eq!(
        server.format_diag(1_181),
        "Temp0: 21.5 [ON], Temp2: -0.3\nFAIL: Bedroom sensor\nFAIL: Kids sensor"
    );
    server.keep_alive(BEDROOM_SENSOR_EXPECTED_IP, &clock(1_100, 0));
    assert_eq!(
        server.format_diag(1_181),
        "Temp0: 21.5 [ON], Temp2: -0.3\nFAIL: Bedroom relay\nFAIL: Kids sensor"
    );
}

#[test]
fn staleness_and_availability() {
    let mut server = Server::new();
    assert_eq!(server.is_available(3, 100), false);
    assert_eq!(server.is_stale(3, 180), false);
    assert_eq!(server.is_stale(3, 181), true);
    server.keep_alive(3, &clock(1_000, 0));
    assert_eq!(server.is_available(3, 1_179), true);
    assert_eq!(server.is_available(3, 1_180), false);
    assert_eq!(server.is_stale(3, 1_180), false);
    assert_eq!(server.is_stale(3, 1_181), true);
    assert_eq!(server.is_stale(3, i64::MAX), true);
    assert_eq!(server.is_stale(3, i64::MIN), false);
    assert_eq!(server.is_available(3, i64::MIN), true);
    assert_eq!(Clock { millis: -1, second_of_day: 0, second_of_day_ahead: 0 }.timestamp(), -1);
    assert_eq!(Clock { millis: 1_999, second_of_day: 0, second_of_day_ahead: 0 }.timestamp(), 1);
}

#[test]
fn message_routing() {
    let mut server = Server::new();
    let c = clock(1_000, 0);
    let both = DeviceMessage { sensor: Some(sensor(3, 10)), relay: Some(relay(1, true)), format_diag: true };
    assert_eq!(
        server.on_message(1, &both, &c),
        Reaction::Sensor(SensorOutcome::Unmanaged { id: 3, temp: 1_000_000_000 })
    );
    assert_eq!(server.relay_on(1), None);
    let r = DeviceMessage { sensor: None, relay: Some(relay(1, true)), format_diag: true };
    assert_eq!(
        server.on_message(1, &r, &c),
        Reaction::Relay(RelayOutcome::Reported { id: 1, on: true, status: PrintHeaderStatus::Plain })
    );
    let d = DeviceMessage { sensor: None, relay: None, format_diag: true };
    assert_eq!(
        server.on_message(1, &d, &c),
        Reaction::Diag("Temp0: N/A, Temp2: N/A\nFAIL: Bedroom sensor\nFAIL: Kids sensor".to_string())
    );
    let none = DeviceMessage { sensor: None, relay: None, format_diag: false };
    assert_eq!(server.on_message(1, &none, &c), Reaction::Unknown);
    let late = Clock { millis: MAX_MILLIS, second_of_day: 0, second_of_day_ahead: 600 };
    let s = DeviceMessage { sensor: Some(sensor(0, 10)), relay: None, format_diag: false };
    assert!(matches!(server.on_message(1, &s, &late), Reaction::Sensor(SensorOutcome::Command { .. })));
}

#[test]
fn controls_the_server_starts_with() {
    let simple = RoomControl::Simple(SimpleControl::new());
    let pwm = RoomControl::PWM(PWMControl::new(-360_000_000));
    assert_ne!(simple, pwm);
}
