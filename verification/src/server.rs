//! The coordinator: it takes the messages of sensors and relays, keeps what
//! was last heard of each, asks a room's control strategy for a decision on
//! every reading, and tracks whether a relay has confirmed its last command.
//!
//! Hosts are IPv4 addresses as integers, times of day are seconds after
//! midnight, and temperatures are fixed-point numbers.

use crate::messages::device_id;
use crate::messages::header_status;
use crate::messages::print_header;
use crate::messages::DeviceMessage;
use crate::messages::PrintHeaderStatus;
use crate::messages::RelayReport;
use crate::messages::SensorReport;
use crate::pwm::Control;
use crate::pwm::PWMControl;
use crate::pwm::RoomControl;
use crate::pwm::SimpleControl;
use crate::relay::dispatch_note;
use crate::relay::DispatchNote;
use crate::relay::RelayConfirmationState;
use crate::schedule::room_table;
use crate::schedule::room_target;
use crate::schedule::scheduled;
use crate::schedule::ROOM_COUNT;
use crate::text::push_temperature;
use crate::text::temperature_text;
use crate::units::floor_div;
use crate::units::UNITS_PER_DECI;
use std::collections::HashMap;
use vstd::prelude::*;
use vstd::string::StringExecFns;

verus! {

/// The address from which the bedroom sensor reports: 192.168.0.200.
pub const BEDROOM_SENSOR_EXPECTED_IP: u32 = 0xC0A8_00C8;

/// The address from which the bedroom relay reports: 192.168.0.210.
pub const BEDROOM_RELAY_EXPECTED_IP: u32 = 0xC0A8_00D2;

/// The address from which the children's room sensor reports: 192.168.0.202.
pub const KIDS_SENSOR_EXPECTED_IP: u32 = 0xC0A8_00CA;

/// The address from which the children's room relay reports: 192.168.0.212.
pub const KIDS_RELAY_EXPECTED_IP: u32 = 0xC0A8_00D4;

/// A device that was silent for more than this many seconds is stale.
pub const STALE_AFTER_SECONDS: i64 = 180;

/// The bias with which the time-proportioning controls start: -0.36 degree.
pub const INITIAL_BIAS: i64 = -360_000_000;

/// The latest time, in milliseconds, at which a decision can be scheduled.
pub const MAX_MILLIS: i64 = 9_223_372_032_559_808_512;

/// What is added to the readings of a room's sensor.
pub open spec fn correction_of(room: int) -> int {
    if room == 1 {
        -900_000_000
    } else if room == 2 {
        -600_000_000
    } else {
        0
    }
}

/// What is added to the readings of a room's sensor.
pub fn correction(room: usize) -> (r: i64)
    ensures
        r == correction_of(room as int),
{
    if room == 1 {
        -900_000_000
    } else if room == 2 {
        -600_000_000
    } else {
        0
    }
}

/// The name under which the relay of a room is reached.
pub fn relay_hostname(room: usize) -> (r: &'static str)
    requires
        room < ROOM_COUNT,
    ensures
        r@ == if room == 0 {
            "esp8266-relay0.local"@
        } else if room == 1 {
            "esp8266-relay1.local"@
        } else {
            "esp8266-relay2.local"@
        },
{
    if room == 0 {
        "esp8266-relay0.local"
    } else if room == 1 {
        "esp8266-relay1.local"
    } else {
        "esp8266-relay2.local"
    }
}

/// How far ahead the target to come is looked up: ten minutes, in
/// seconds.
pub const LOOK_AHEAD_SECONDS: i64 = 600;

/// The time at which a message is handled.
#[derive(Debug, Clone, Copy, PartialEq, Eq, Structural)]
pub struct Clock {
    /// Milliseconds since the epoch.
    pub millis: i64,
    /// The local time of day now.
    pub second_of_day: u32,
    /// The local time of day `LOOK_AHEAD_SECONDS` from now.
    pub second_of_day_ahead: u32,
}

impl Clock {
    /// Seconds since the epoch.
    pub open spec fn seconds(self) -> int {
        self.millis / 1000
    }

    /// Seconds since the epoch.
    pub fn timestamp(&self) -> (r: i64)
        ensures
            r == self.seconds(),
    {
        floor_div(self.millis as i128, 1000) as i64
    }
}

/// What the coordinator makes of a sensor report.
#[derive(Debug, Clone, Copy, PartialEq, Eq, Structural)]
pub enum SensorOutcome {
    /// The report names no device: only its arrival was recorded.
    MissingId,
    /// The report carries no temperature: only its arrival was recorded.
    NoReading { id: u32 },
    /// The device belongs to no room: its temperature was recorded.
    Unmanaged { id: u32, temp: i64 },
    /// The room has no control strategy: its temperature was recorded.
    NoControl { id: u32, temp: i64, target: i64 },
    /// The room's strategy decided, and the decision is to be sent to the
    /// room's relay. `heater_on` is the mode of the heater until the delay
    /// has passed.
    Command { room: usize, temp: i64, target: i64, mode_on: bool, delay_ms: u32, heater_on: bool },
}

/// What the coordinator makes of a relay report.
#[derive(Debug, Clone, Copy, PartialEq, Eq, Structural)]
pub enum RelayOutcome {
    /// The report names no device: only its arrival was recorded.
    MissingId,
    /// The state of the relay was recorded.
    Reported { id: u32, on: bool, status: PrintHeaderStatus },
}

/// What the coordinator makes of a message.
#[derive(Debug, Clone, PartialEq, Eq)]
pub enum Reaction {
    Sensor(SensorOutcome),
    Relay(RelayOutcome),
    /// The diagnostic text, to be sent back to where the request came from.
    Diag(String),
    /// The message holds nothing that is known.
    Unknown,
}

/// The state of the coordinator, as contracts see it.
pub struct ServerView {
    /// When each host was last heard, in seconds since the epoch.
    pub last_message_timestamp: Map<u32, i64>,
    /// The last temperature of each device, corrected for the rooms.
    pub last_temp: Map<u32, i64>,
    /// The state that the relay at each host last reported.
    pub last_relay_on_status: Map<u32, bool>,
    /// What is known of each room's relay.
    pub relay_confirmations: Map<u32, RelayConfirmationState>,
    /// The control strategy of each room.
    pub controls: Seq<RoomControl>,
}

impl ServerView {
    /// What is known of the relay of room `id`; of one not heard of, that
    /// nothing is in flight and that it is off.
    pub open spec fn confirmation(self, id: u32) -> RelayConfirmationState {
        if self.relay_confirmations.contains_key(id) {
            self.relay_confirmations[id]
        } else {
            RelayConfirmationState::initial()
        }
    }

    /// Whether `host` was silent for longer than the staleness window; a
    /// host never heard counts as last heard at the epoch.
    pub open spec fn stale(self, host: u32, now: int) -> bool {
        now - (if self.last_message_timestamp.contains_key(host) {
            self.last_message_timestamp[host] as int
        } else {
            0
        }) > STALE_AFTER_SECONDS
    }

    /// Whether `host` was heard within the staleness window.
    pub open spec fn available(self, host: u32, now: int) -> bool {
        self.last_message_timestamp.contains_key(host) && now
            - self.last_message_timestamp[host] < STALE_AFTER_SECONDS
    }

    /// The state after a message from `host` at `now`.
    pub open spec fn heard(self, host: u32, now: int) -> ServerView {
        ServerView {
            last_message_timestamp: self.last_message_timestamp.insert(host, now as i64),
            ..self
        }
    }

    /// The state after a sensor report, and what is made of the report.
    ///
    /// Every report renews when its host was last heard. One without a
    /// device number or without a temperature does no more. For a device of
    /// a room the reading is corrected and recorded, the room's strategy is
    /// evaluated with the target now and the target in ten minutes, and its
    /// decision is taken as put into effect. For any other device the
    /// reading is recorded.
    pub open spec fn sensor_reported(self, host: u32, report: SensorReport, clock: Clock) -> (
        ServerView,
        SensorOutcome,
    ) {
        match (device_id(report.info), report.temperature_deci) {
            (None, _) => (self.heard(host, clock.seconds()), SensorOutcome::MissingId),
            (Some(id), None) => (
                self.heard(host, clock.seconds()),
                SensorOutcome::NoReading { id },
            ),
            (Some(id), Some(deci)) => {
                let seen = self.heard(host, clock.seconds());
                if id < ROOM_COUNT {
                    let room = id as int;
                    let target = scheduled(room_table(room), clock.second_of_day as int) as i64;
                    let future = scheduled(
                        room_table(room),
                        clock.second_of_day_ahead as int,
                    ) as i64;
                    let temp = (deci * UNITS_PER_DECI + correction_of(room)) as i64;
                    let recorded = ServerView {
                        last_temp: seen.last_temp.insert(id, temp),
                        ..seen
                    };
                    if room < self.controls.len() {
                        let control = self.controls[room];
                        let decision = control.decided(temp, target, future, clock.millis);
                        (
                            ServerView {
                                controls: self.controls.update(
                                    room,
                                    control.evaluated(
                                        temp,
                                        target,
                                        future,
                                        clock.millis,
                                    ).committed(decision.0, decision.1, clock.millis),
                                ),
                                ..recorded
                            },
                            SensorOutcome::Command {
                                room: id as usize,
                                temp,
                                target,
                                mode_on: decision.0,
                                delay_ms: decision.1,
                                heater_on: decision.0 != (decision.1 != 0),
                            },
                        )
                    } else {
                        (recorded, SensorOutcome::NoControl { id, temp, target })
                    }
                } else {
                    let temp = (deci * UNITS_PER_DECI) as i64;
                    (
                        ServerView { last_temp: seen.last_temp.insert(id, temp), ..seen },
                        SensorOutcome::Unmanaged { id, temp },
                    )
                }
            },
        }
    }

    /// The state after a relay report, and what is made of the report.
    ///
    /// The arrival is recorded in any case. A report with a device number
    /// records the relay's state for its host, and confirms the relay of
    /// the room with that number, whatever the host.
    pub open spec fn relay_reported(self, host: u32, report: RelayReport, clock: Clock) -> (
        ServerView,
        RelayOutcome,
    ) {
        let seen = self.heard(host, clock.seconds());
        match device_id(report.info) {
            None => (seen, RelayOutcome::MissingId),
            Some(id) => (
                ServerView {
                    last_relay_on_status: seen.last_relay_on_status.insert(
                        host,
                        report.relay_status,
                    ),
                    relay_confirmations: if id < ROOM_COUNT {
                        seen.relay_confirmations.insert(
                            id,
                            self.confirmation(id).reported(report.relay_status),
                        )
                    } else {
                        seen.relay_confirmations
                    },
                    ..seen
                },
                RelayOutcome::Reported {
                    id,
                    on: report.relay_status,
                    status: header_status(report.info),
                },
            ),
        }
    }

    /// The state after a command for the relay of room `id` was handed to
    /// the network: the relay is unconfirmed, whether the command could be
    /// sent or not, until it reports.
    pub open spec fn dispatched(self, id: u32) -> ServerView {
        ServerView {
            relay_confirmations: self.relay_confirmations.insert(
                id,
                self.confirmation(id).commanded(),
            ),
            ..self
        }
    }

    /// The last temperature of a device as text, or `N/A`.
    pub open spec fn temp_text(self, id: u32) -> Seq<char> {
        if self.last_temp.contains_key(id) {
            temperature_text(self.last_temp[id] as int)
        } else {
            "N/A"@
        }
    }

    /// The mark of a relay that last reported to be on.
    pub open spec fn relay_mark(self, host: u32) -> Seq<char> {
        if self.last_relay_on_status.contains_key(host) && self.last_relay_on_status[host] {
            " [ON]"@
        } else {
            ""@
        }
    }

    /// The failure line of a room: it names the sensor if that is stale,
    /// else the relay if that is stale.
    pub open spec fn failure_line(
        self,
        now: int,
        sensor: u32,
        relay: u32,
        sensor_line: Seq<char>,
        relay_line: Seq<char>,
    ) -> Seq<char> {
        if self.stale(sensor, now) {
            sensor_line
        } else if self.stale(relay, now) {
            relay_line
        } else {
            ""@
        }
    }

    /// The diagnostic text: the last temperatures of the bedroom and the
    /// children's room, each with the mark of its relay, and a failure line
    /// for each room of which a device is stale.
    pub open spec fn diag_text(self, now: int) -> Seq<char> {
        "Temp0: "@ + self.temp_text(0) + self.relay_mark(BEDROOM_RELAY_EXPECTED_IP) + ", Temp2: "@
            + self.temp_text(2) + self.relay_mark(KIDS_RELAY_EXPECTED_IP) + self.failure_line(
            now,
            BEDROOM_SENSOR_EXPECTED_IP,
            BEDROOM_RELAY_EXPECTED_IP,
            "\nFAIL: Bedroom sensor"@,
            "\nFAIL: Bedroom relay"@,
        ) + self.failure_line(
            now,
            KIDS_SENSOR_EXPECTED_IP,
            KIDS_RELAY_EXPECTED_IP,
            "\nFAIL: Kids sensor"@,
            "\nFAIL: Kids relay"@,
        )
    }
}

/// The coordinator.
#[derive(Clone)]
pub struct Server {
    last_message_timestamp: HashMap<u32, i64>,
    last_temp: HashMap<u32, i64>,
    last_relay_on_status: HashMap<u32, bool>,
    relay_confirmations: HashMap<u32, RelayConfirmationState>,
    controls: Vec<RoomControl>,
}

impl View for Server {
    type V = ServerView;

    closed spec fn view(&self) -> ServerView {
        ServerView {
            last_message_timestamp: self.last_message_timestamp@,
            last_temp: self.last_temp@,
            last_relay_on_status: self.last_relay_on_status@,
            relay_confirmations: self.relay_confirmations@,
            controls: self.controls@,
        }
    }
}

/// The strategies with which the coordinator starts: time-proportioning
/// for the bedroom and the children's room, thresholds for the room
/// between them.
pub open spec fn initial_controls() -> Seq<RoomControl> {
    seq![
        RoomControl::PWM(
            PWMControl {
                is_on: false,
                is_on_time: 0,
                smooth_t: None,
                initial_offset: INITIAL_BIAS,
                new_mode: true,
                new_mode_time: 0,
                last_on_time: None,
                last_off_time: None,
            },
        ),
        RoomControl::Simple(
            SimpleControl { is_on: false, last_on_time: None, last_off_time: None },
        ),
        RoomControl::PWM(
            PWMControl {
                is_on: false,
                is_on_time: 0,
                smooth_t: None,
                initial_offset: INITIAL_BIAS,
                new_mode: true,
                new_mode_time: 0,
                last_on_time: None,
                last_off_time: None,
            },
        ),
    ]
}

impl Server {
    /// A coordinator that has heard nothing.
    pub fn new() -> (r: Server)
        ensures
            r@ == (ServerView {
                last_message_timestamp: Map::empty(),
                last_temp: Map::empty(),
                last_relay_on_status: Map::empty(),
                relay_confirmations: Map::empty(),
                controls: initial_controls(),
            }),
    {
        let controls = vec![
            RoomControl::PWM(PWMControl::new(INITIAL_BIAS)),
            RoomControl::Simple(SimpleControl::new()),
            RoomControl::PWM(PWMControl::new(INITIAL_BIAS)),
        ];
        assert(controls@ =~= initial_controls());
        Server {
            last_message_timestamp: HashMap::new(),
            last_temp: HashMap::new(),
            last_relay_on_status: HashMap::new(),
            relay_confirmations: HashMap::new(),
            controls,
        }
    }

    /// What is known of the relay of room `id`.
    pub fn confirmation(&self, id: u32) -> (r: RelayConfirmationState)
        ensures
            r == self@.confirmation(id),
    {
        broadcast use vstd::std_specs::hash::group_hash_axioms;

        match self.relay_confirmations.get(&id) {
            Some(state) => *state,
            None => RelayConfirmationState::default(),
        }
    }

    /// The last temperature of a device, if it ever sent one.
    pub fn last_temp(&self, id: u32) -> (r: Option<i64>)
        ensures
            r == if self@.last_temp.contains_key(id) {
                Some(self@.last_temp[id])
            } else {
                None
            },
    {
        broadcast use vstd::std_specs::hash::group_hash_axioms;

        match self.last_temp.get(&id) {
            Some(t) => Some(*t),
            None => None,
        }
    }

    /// The state that the relay at `host` last reported, if it ever did.
    pub fn relay_on(&self, host: u32) -> (r: Option<bool>)
        ensures
            r == if self@.last_relay_on_status.contains_key(host) {
                Some(self@.last_relay_on_status[host])
            } else {
                None
            },
    {
        broadcast use vstd::std_specs::hash::group_hash_axioms;

        match self.last_relay_on_status.get(&host) {
            Some(on) => Some(*on),
            None => None,
        }
    }

    /// When `host` was last heard, if it ever was.
    pub fn last_seen(&self, host: u32) -> (r: Option<i64>)
        ensures
            r == if self@.last_message_timestamp.contains_key(host) {
                Some(self@.last_message_timestamp[host])
            } else {
                None
            },
    {
        broadcast use vstd::std_specs::hash::group_hash_axioms;

        match self.last_message_timestamp.get(&host) {
            Some(t) => Some(*t),
            None => None,
        }
    }

    /// Whether `host` is stale at `now`, in seconds since the epoch.
    pub fn is_stale(&self, host: u32, now: i64) -> (r: bool)
        ensures
            r == self@.stale(host, now as int),
    {
        let last: i64 = match self.last_seen(host) {
            Some(t) => t,
            None => 0,
        };
        now as i128 - last as i128 > STALE_AFTER_SECONDS as i128
    }

    /// Whether `host` was heard within the staleness window before `now`.
    pub fn is_available(&self, host: u32, now: i64) -> (r: bool)
        ensures
            r == self@.available(host, now as int),
    {
        match self.last_seen(host) {
            Some(t) => (now as i128 - t as i128) < STALE_AFTER_SECONDS as i128,
            None => false,
        }
    }

    /// Records a keep-alive datagram from `host`.
    pub fn keep_alive(&mut self, host: u32, clock: &Clock)
        ensures
            final(self)@ == old(self)@.heard(host, clock.seconds()),
    {
        broadcast use vstd::std_specs::hash::group_hash_axioms;

        self.last_message_timestamp.insert(host, clock.timestamp());
    }

    /// Takes in a sensor report from `host`.
    pub fn new_sensor_report(&mut self, host: u32, report: &SensorReport, clock: &Clock) -> (r:
        SensorOutcome)
        requires
            clock.millis <= MAX_MILLIS,
        ensures
            (final(self)@, r) == old(self)@.sensor_reported(host, *report, *clock),
    {
        broadcast use vstd::std_specs::hash::group_hash_axioms;

        self.last_message_timestamp.insert(host, clock.timestamp());
        if print_header(&report.info) == PrintHeaderStatus::Failure {
            return SensorOutcome::MissingId;
        }
        let id: u32 = match report.info {
            Some(info) => match info.id {
                Some(id) => id,
                None => {
                    return SensorOutcome::MissingId;
                },
            },
            None => {
                return SensorOutcome::MissingId;
            },
        };
        let deci: i32 = match report.temperature_deci {
            Some(deci) => deci,
            None => {
                return SensorOutcome::NoReading { id };
            },
        };
        let mut temp: i64 = (deci as i64) * UNITS_PER_DECI;
        if (id as usize) < ROOM_COUNT {
            let room = id as usize;
            proof {
                crate::schedule::lemma_room_tables_increasing(room as int);
                crate::schedule::lemma_scheduled_in_range(
                    room_table(room as int),
                    clock.second_of_day as int,
                );
                crate::schedule::lemma_scheduled_in_range(
                    room_table(room as int),
                    clock.second_of_day_ahead as int,
                );
            }
            let target_temp = room_target(room, clock.second_of_day);
            temp = temp + correction(room);
            self.last_temp.insert(id, temp);
            let future_target_temp = room_target(room, clock.second_of_day_ahead);
            if room < self.controls.len() {
                let mut control = self.controls[room];
                let (mode_on, delay_ms) = control.get_mode(
                    temp,
                    target_temp,
                    future_target_temp,
                    clock.millis,
                );
                control.set_output(mode_on, delay_ms, clock.millis);
                self.controls.set(room, control);
                let heater_on = mode_on != (delay_ms != 0);
                SensorOutcome::Command { room, temp, target: target_temp, mode_on, delay_ms, heater_on }
            } else {
                SensorOutcome::NoControl { id, temp, target: target_temp }
            }
        } else {
            self.last_temp.insert(id, temp);
            SensorOutcome::Unmanaged { id, temp }
        }
    }

    /// Takes in a relay report from `host`.
    pub fn new_relay_report(&mut self, host: u32, report: &RelayReport, clock: &Clock) -> (r:
        RelayOutcome)
        ensures
            (final(self)@, r) == old(self)@.relay_reported(host, *report, *clock),
    {
        broadcast use vstd::std_specs::hash::group_hash_axioms;

        let before = self.confirmation(match report.info {
            Some(info) => match info.id {
                Some(id) => id,
                None => 0,
            },
            None => 0,
        });
        self.last_message_timestamp.insert(host, clock.timestamp());
        let status = print_header(&report.info);
        let id: u32 = match report.info {
            Some(info) => match info.id {
                Some(id) => id,
                None => {
                    return RelayOutcome::MissingId;
                },
            },
            None => {
                return RelayOutcome::MissingId;
            },
        };
        let relay_is_on = report.relay_status;
        self.last_relay_on_status.insert(host, relay_is_on);
        if (id as usize) < ROOM_COUNT {
            let mut confirmation = before;
            confirmation.report_received(relay_is_on);
            self.relay_confirmations.insert(id, confirmation);
        }
        RelayOutcome::Reported { id, on: relay_is_on, status }
    }

    /// Records that the command for the relay of room `id` was handed to
    /// the network, and says what the log line notes of the relay. The
    /// relay is unconfirmed from then on until it reports, also where the
    /// command could not be sent.
    pub fn relay_dispatched(&mut self, id: u32, delay_ms: u32, sent: bool) -> (r: DispatchNote)
        ensures
            final(self)@ == old(self)@.dispatched(id),
            r == dispatch_note(old(self)@.confirmation(id), delay_ms, sent),
    {
        broadcast use vstd::std_specs::hash::group_hash_axioms;

        let before = self.confirmation(id);
        let mut confirmation = before;
        confirmation.command_sent();
        self.relay_confirmations.insert(id, confirmation);
        if !sent {
            DispatchNote::NotReached
        } else if before.unconfirmed {
            DispatchNote::Unconfirmed
        } else if delay_ms != 0 {
            DispatchNote::LastReported(before.confirmed_on_state)
        } else {
            DispatchNote::Plain
        }
    }

    /// The diagnostic text at `now`, in seconds since the epoch.
    pub fn format_diag(&self, now: i64) -> (r: String)
        ensures
            r@ == self@.diag_text(now as int),
    {
        let mut diag_message = String::from_str("Temp0: ");
        self.push_temp(&mut diag_message, 0);
        self.push_relay_mark(&mut diag_message, BEDROOM_RELAY_EXPECTED_IP);
        diag_message.append(", Temp2: ");
        self.push_temp(&mut diag_message, 2);
        self.push_relay_mark(&mut diag_message, KIDS_RELAY_EXPECTED_IP);
        if self.is_stale(BEDROOM_SENSOR_EXPECTED_IP, now) {
            diag_message.append("\nFAIL: Bedroom sensor");
        } else if self.is_stale(BEDROOM_RELAY_EXPECTED_IP, now) {
            diag_message.append("\nFAIL: Bedroom relay");
        } else {
            diag_message.append("");
        }
        if self.is_stale(KIDS_SENSOR_EXPECTED_IP, now) {
            diag_message.append("\nFAIL: Kids sensor");
        } else if self.is_stale(KIDS_RELAY_EXPECTED_IP, now) {
            diag_message.append("\nFAIL: Kids relay");
        } else {
            diag_message.append("");
        }
        diag_message
    }

    fn push_temp(&self, out: &mut String, id: u32)
        ensures
            final(out)@ == old(out)@ + self@.temp_text(id),
    {
        match self.last_temp(id) {
            Some(t) => push_temperature(out, t),
            None => out.append("N/A"),
        }
    }

    fn push_relay_mark(&self, out: &mut String, host: u32)
        ensures
            final(out)@ == old(out)@ + self@.relay_mark(host),
    {
        match self.relay_on(host) {
            Some(true) => out.append(" [ON]"),
            _ => out.append(""),
        }
    }
}

impl Server {
    /// Takes in a message from `host`.
    ///
    /// The message is handled as the first of these that it holds: a
    /// sensor report, a relay report, a diagnostic request. One that holds
    /// none of them changes nothing.
    pub fn on_message(&mut self, host: u32, msg: &DeviceMessage, clock: &Clock) -> (r: Reaction)
        requires
            clock.millis <= MAX_MILLIS,
        ensures
            match (msg.sensor, msg.relay) {
                (Some(report), _) => (final(self)@, r) == (
                    old(self)@.sensor_reported(host, report, *clock).0,
                    Reaction::Sensor(old(self)@.sensor_reported(host, report, *clock).1),
                ),
                (None, Some(report)) => (final(self)@, r) == (
                    old(self)@.relay_reported(host, report, *clock).0,
                    Reaction::Relay(old(self)@.relay_reported(host, report, *clock).1),
                ),
                (None, None) => {
                    &&& final(self)@ == old(self)@
                    &&& if msg.format_diag {
                        r matches Reaction::Diag(text) && text@ == old(self)@.diag_text(
                            clock.seconds(),
                        )
                    } else {
                        r == Reaction::Unknown
                    }
                },
            },
    {
        match (&msg.sensor, &msg.relay) {
            (Some(report), _) => Reaction::Sensor(self.new_sensor_report(host, report, clock)),
            (None, Some(report)) => Reaction::Relay(self.new_relay_report(host, report, clock)),
            (None, None) => {
                if msg.format_diag {
                    Reaction::Diag(self.format_diag(clock.timestamp()))
                } else {
                    Reaction::Unknown
                }
            },
        }
    }
}

/// A command stays in flight until its relay reports: no sensor report,
/// no keep-alive, no further command and no report that names another
/// relay confirms it.
pub proof fn lemma_unconfirmed_until_reported(
    s: ServerView,
    id: u32,
    host: u32,
    sensor: SensorReport,
    relay: RelayReport,
    clock: Clock,
    other: u32,
)
    requires
        s.confirmation(id).unconfirmed,
    ensures
        s.sensor_reported(host, sensor, clock).0.confirmation(id).unconfirmed,
        s.heard(host, clock.seconds()).confirmation(id).unconfirmed,
        s.dispatched(other).confirmation(id).unconfirmed,
        device_id(relay.info) != Some(id) ==> s.relay_reported(host, relay, clock).0.confirmation(
            id,
        ).unconfirmed,
{
}

/// A command that was handed to the network leaves its relay unconfirmed,
/// whether it could be sent or not, and a report of the relay of a room
/// confirms it with the state reported.
pub proof fn lemma_confirmation_cycle(s: ServerView, id: u32, host: u32, relay: RelayReport, clock: Clock)
    requires
        id < ROOM_COUNT,
        device_id(relay.info) == Some(id),
    ensures
        s.dispatched(id).confirmation(id).unconfirmed,
        s.dispatched(id).relay_reported(host, relay, clock).0.confirmation(id) == (
            RelayConfirmationState { unconfirmed: false, confirmed_on_state: relay.relay_status }
        ),
        s.relay_reported(host, relay, clock).0.confirmation(id) == (RelayConfirmationState {
            unconfirmed: false,
            confirmed_on_state: relay.relay_status,
        }),
{
}

} // verus!
