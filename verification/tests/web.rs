use temperature_protocol::messages::{DeviceInfo, RelayReport, SensorReport};
use temperature_protocol::server::{
    Clock, Server, BEDROOM_RELAY_EXPECTED_IP, BEDROOM_SENSOR_EXPECTED_IP, KIDS_SENSOR_EXPECTED_IP,
};
use temperature_protocol::web::{
    copied, retained, DisableHeaterRequest, DisableOutcome, RelayControlRequest, Room, RoomState,
    ServerState, StatusQuery, TemperaturePoint,
};

fn point(timestamp: i64) -> TemperaturePoint {
    TemperaturePoint { timestamp, temperature: 1, target: 2, heater_on: false, is_disabled: false }
}

fn stamps(points: &[TemperaturePoint]) -> Vec<i64> {
    points.iter().map(|p| p.timestamp).collect()
}

#[test]
fn rooms_by_name_and_device() {
    assert_eq!(Room::parse(&"bedroom".to_string()), Some(Room::Bedroom));
    assert_eq!(Room::parse(&"kids_bedroom".to_string()), Some(Room::KidsBedroom));
    assert_eq!(Room::parse(&"Bedroom".to_string()), None);
    assert_eq!(Room::parse(&"".to_string()), None);
    assert_eq!(Room::Bedroom.device_id(), 0);
    assert_eq!(Room::KidsBedroom.device_id(), 2);
    assert_eq!(Room::of_device(0), Some(Room::Bedroom));
    assert_eq!(Room::of_device(1), None);
    assert_eq!(Room::of_device(2), Some(Room::KidsBedroom));
    let request = RelayControlRequest { room: "kids_bedroom".to_string(), state: true };
    assert_eq!(request.target(), Some(Room::KidsBedroom));
    assert_eq!(RelayControlRequest { room: "attic".to_string(), state: true }.target(), None);
}

#[test]
fn history_keeps_six_hours() {
    let mut state = ServerState::new();
    state.update_history(0, 1_000, 1, 2, true);
    state.update_history(0, 2_000, 1, 2, false);
    state.update_history(2, 2_500, 5, 6, false);
    state.update_history(1, 2_600, 5, 6, false);
    state.update_history(7, 2_600, 5, 6, false);
    assert_eq!(stamps(&state.bedroom.temperature_history), vec![1_000, 2_000]);
    assert_eq!(stamps(&state.kids_bedroom.temperature_history), vec![2_500]);
    assert_eq!(
        state.bedroom.temperature_history[0],
        TemperaturePoint { timestamp: 1_000, temperature: 1, target: 2, heater_on: true, is_disabled: false }
    );
    state.update_history(0, 1_000 + 21_600, 1, 2, false);
    assert_eq!(stamps(&state.bedroom.temperature_history), vec![1_000, 2_000, 22_600]);
    state.update_history(0, 1_001 + 21_600, 1, 2, false);
    assert_eq!(stamps(&state.bedroom.temperature_history), vec![2_000, 22_600, 22_601]);
    // a point from before drops itself
    state.update_history(0, i64::MIN, 1, 2, false);
    assert_eq!(stamps(&state.bedroom.temperature_history), vec![2_000, 22_600, 22_601, i64::MIN]);
    state.update_history(0, i64::MAX, 1, 2, false);
    assert_eq!(stamps(&state.bedroom.temperature_history), vec![i64::MAX]);
    assert_eq!(stamps(&state.kids_bedroom.temperature_history), vec![2_500]);
}

#[test]
fn retained_and_copied() {
    let points = vec![point(5), point(1), point(9), point(5)];
    assert_eq!(stamps(&retained(&points, 5)), vec![5, 9, 5]);
    assert_eq!(stamps(&retained(&points, 10)), Vec::<i64>::new());
    assert_eq!(stamps(&retained(&points, i128::MIN)), vec![5, 1, 9, 5]);
    assert_eq!(copied(&points), points);
    let mut room = RoomState::new();
    room.record(point(3));
    assert_eq!(room.temperature_history, vec![point(3)]);
}

#[test]
fn status_since_the_last_update() {
    let mut state = ServerState::new();
    for t in [10, 20, 30] {
        state.update_history(0, t, 1, 2, false);
        state.update_history(2, t + 1, 1, 2, false);
    }
    state.bedroom.relay_state = true;
    state.kids_bedroom.disabled_until = Some(99);
    let all = state.get_status(&StatusQuery { last_update: None });
    assert_eq!(stamps(&all.bedroom.temperature_history), vec![10, 20, 30]);
    assert_eq!(stamps(&all.kids_bedroom.temperature_history), vec![11, 21, 31]);
    let some = state.get_status(&StatusQuery { last_update: Some(20) });
    assert_eq!(stamps(&some.bedroom.temperature_history), vec![30]);
    assert_eq!(stamps(&some.kids_bedroom.temperature_history), vec![21, 31]);
    assert_eq!(some.bedroom.relay_state, true);
    assert_eq!(some.kids_bedroom.disabled_until, Some(99));
    let none = state.get_status(&StatusQuery { last_update: Some(i64::MAX) });
    assert_eq!(none.bedroom.temperature_history.len(), 0);
    assert_eq!(StatusQuery { last_update: Some(20) }.includes(20), false);
    assert_eq!(StatusQuery { last_update: Some(20) }.includes(21), true);
    assert_eq!(StatusQuery { last_update: None }.includes(i64::MIN), true);
}

#[test]
fn disabling_a_heater() {
    let mut state = ServerState::new();
    let off = DisableHeaterRequest { room: "bedroom".to_string(), disable: true };
    assert_eq!(state.disable_heater(&off, 1_000), DisableOutcome::Done);
    assert_eq!(state.bedroom.disabled_until, Some(8_200));
    assert_eq!(state.kids_bedroom.disabled_until, None);
    state.control_relay(Room::Bedroom, true);
    assert_eq!(state.relay_state(Room::Bedroom), true);
    assert_eq!(state.relay_state(Room::KidsBedroom), false);
    assert_eq!(state.disable_heater(&off, 2_000), DisableOutcome::SwitchOff(Room::Bedroom));
    assert_eq!(state.bedroom.disabled_until, Some(9_200));
    assert_eq!(state.bedroom.relay_state, true);
    state.control_relay(Room::Bedroom, false);
    let on = DisableHeaterRequest { room: "bedroom".to_string(), disable: false };
    state.control_relay(Room::Bedroom, true);
    assert_eq!(state.disable_heater(&on, 3_000), DisableOutcome::Done);
    assert_eq!(state.bedroom.disabled_until, None);
    let nowhere = DisableHeaterRequest { room: "attic".to_string(), disable: true };
    assert_eq!(state.disable_heater(&nowhere, 3_000), DisableOutcome::InvalidRoom);
    let kids = DisableHeaterRequest { room: "kids_bedroom".to_string(), disable: true };
    assert_eq!(state.disable_heater(&kids, i64::MAX - 7_200), DisableOutcome::Done);
    assert_eq!(state.kids_bedroom.disabled_until, Some(i64::MAX));
}

#[test]
fn dashboard_follows_the_server() {
    let mut server = Server::new();
    let mut state = ServerState::new();
    state.update_history(0, 5, 1, 2, false);
    state.bedroom.disabled_until = Some(77);
    let info = Some(DeviceInfo { id: Some(0), started: false, offline_sec: None });
    let c = Clock { millis: 1_000_000, second_of_day: 5_400, second_of_day_ahead: 6_000 };
    let report = SensorReport {
        info,
        temperature_deci: Some(198),
        humidity_deci: None,
        sensor_error: None,
        button: None,
    };
    server.new_sensor_report(BEDROOM_SENSOR_EXPECTED_IP, &report, &c);
    server.new_relay_report(BEDROOM_RELAY_EXPECTED_IP, &RelayReport { info, relay_status: true }, &c);
    state.update_web_state(&server, &c);
    assert_eq!(state.bedroom.sensor_available, true);
    assert_eq!(state.bedroom.relay_available, true);
    assert_eq!(state.bedroom.relay_state, true);
    assert_eq!(state.bedroom.current_temp, 19_800_000_000);
    assert_eq!(state.bedroom.target_temp, 20_150_000_000);
    assert_eq!(state.bedroom.disabled_until, Some(77));
    assert_eq!(state.bedroom.temperature_history.len(), 1);
    assert_eq!(state.kids_bedroom.sensor_available, false);
    assert_eq!(state.kids_bedroom.relay_available, false);
    assert_eq!(state.kids_bedroom.relay_state, false);
    assert_eq!(state.kids_bedroom.current_temp, 0);
    assert_eq!(state.kids_bedroom.target_temp, 18_980_000_000);
    let later = Clock { millis: 1_180_000, second_of_day: 0, second_of_day_ahead: 600 };
    server.keep_alive(KIDS_SENSOR_EXPECTED_IP, &later);
    state.update_web_state(&server, &later);
    assert_eq!(state.bedroom.sensor_available, false);
    assert_eq!(state.bedroom.relay_state, true);
    assert_eq!(state.bedroom.target_temp, 21_000_000_000);
    assert_eq!(state.kids_bedroom.sensor_available, true);
}
