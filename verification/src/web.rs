//! The state that the dashboard shows, and what its requests do to it.

use crate::schedule::room_table;
use crate::schedule::room_target;
use crate::schedule::scheduled;
use crate::server::Clock;
use crate::server::Server;
use crate::server::ServerView;
use crate::server::BEDROOM_RELAY_EXPECTED_IP;
use crate::server::BEDROOM_SENSOR_EXPECTED_IP;
use crate::server::KIDS_RELAY_EXPECTED_IP;
use crate::server::KIDS_SENSOR_EXPECTED_IP;
use vstd::prelude::*;
use vstd::string::StringExecFns;

verus! {

/// For how many seconds the history of a room is kept: six hours.
pub const HISTORY_SECONDS: i64 = 21_600;

/// For how many seconds a heater stays disabled: two hours.
pub const DISABLE_SECONDS: i64 = 7_200;

/// One point of a room's history.
#[derive(Debug, Clone, Copy, PartialEq, Eq, Structural)]
pub struct TemperaturePoint {
    /// Seconds since the epoch.
    pub timestamp: i64,
    pub temperature: i64,
    pub target: i64,
    pub heater_on: bool,
    pub is_disabled: bool,
}

/// What the dashboard shows of one room.
#[derive(Debug, Clone)]
pub struct RoomState {
    pub sensor_available: bool,
    pub current_temp: i64,
    pub target_temp: i64,
    pub relay_available: bool,
    pub relay_state: bool,
    pub temperature_history: Vec<TemperaturePoint>,
    /// Until when the heater is disabled, in seconds since the epoch.
    pub disabled_until: Option<i64>,
}

/// What the dashboard shows.
#[derive(Debug, Clone)]
pub struct ServerState {
    pub bedroom: RoomState,
    pub kids_bedroom: RoomState,
}

/// A room of the dashboard.
#[derive(Debug, Clone, Copy, PartialEq, Eq, Structural)]
pub enum Room {
    Bedroom,
    KidsBedroom,
}

/// A request to switch the relay of a room.
#[derive(Debug, Clone)]
pub struct RelayControlRequest {
    pub room: String,
    pub state: bool,
}

/// A request for the state, with the time of the last point that the
/// dashboard has.
#[derive(Debug, Clone, Copy, PartialEq, Eq, Structural)]
pub struct StatusQuery {
    pub last_update: Option<i64>,
}

/// A request to disable the heater of a room, or to enable it again.
#[derive(Debug, Clone)]
pub struct DisableHeaterRequest {
    pub room: String,
    pub disable: bool,
}

/// What is to be done for a request to disable or enable a heater.
#[derive(Debug, Clone, Copy, PartialEq, Eq, Structural)]
pub enum DisableOutcome {
    /// The request names no room.
    InvalidRoom,
    /// The heater is on and is to be switched off; once that was done,
    /// the relay of the room is to be recorded as off.
    SwitchOff(Room),
    /// Nothing more is to be done.
    Done,
}

/// One room of the dashboard, as contracts see it.
pub struct RoomView {
    pub sensor_available: bool,
    pub current_temp: i64,
    pub target_temp: i64,
    pub relay_available: bool,
    pub relay_state: bool,
    pub temperature_history: Seq<TemperaturePoint>,
    pub disabled_until: Option<i64>,
}

/// The dashboard, as contracts see it.
pub struct DashboardView {
    pub bedroom: RoomView,
    pub kids_bedroom: RoomView,
}

impl View for RoomState {
    type V = RoomView;

    open spec fn view(&self) -> RoomView {
        RoomView {
            sensor_available: self.sensor_available,
            current_temp: self.current_temp,
            target_temp: self.target_temp,
            relay_available: self.relay_available,
            relay_state: self.relay_state,
            temperature_history: self.temperature_history@,
            disabled_until: self.disabled_until,
        }
    }
}

impl View for ServerState {
    type V = DashboardView;

    open spec fn view(&self) -> DashboardView {
        DashboardView { bedroom: self.bedroom@, kids_bedroom: self.kids_bedroom@ }
    }
}

/// The room that a request names, if it names one.
pub open spec fn room_named(name: Seq<char>) -> Option<Room> {
    if name == "bedroom"@ {
        Some(Room::Bedroom)
    } else if name == "kids_bedroom"@ {
        Some(Room::KidsBedroom)
    } else {
        None
    }
}

/// The room whose sensor has the number `id`, if the dashboard shows it.
pub open spec fn room_of_device(id: u32) -> Option<Room> {
    if id == 0 {
        Some(Room::Bedroom)
    } else if id == 2 {
        Some(Room::KidsBedroom)
    } else {
        None
    }
}

/// The points that are not older than `cutoff`, in their order.
pub open spec fn since(points: Seq<TemperaturePoint>, cutoff: int) -> Seq<TemperaturePoint> {
    points.filter(|p: TemperaturePoint| p.timestamp >= cutoff)
}

/// The room that nothing is known of.
pub open spec fn empty_room() -> RoomView {
    RoomView {
        sensor_available: false,
        current_temp: 0,
        target_temp: 0,
        relay_available: false,
        relay_state: false,
        temperature_history: Seq::empty(),
        disabled_until: None,
    }
}

impl Room {
    /// The number of the room's sensor and relay.
    pub open spec fn id(self) -> u32 {
        match self {
            Room::Bedroom => 0,
            Room::KidsBedroom => 2,
        }
    }

    /// The address from which the room's sensor reports.
    pub open spec fn sensor_host(self) -> u32 {
        match self {
            Room::Bedroom => BEDROOM_SENSOR_EXPECTED_IP,
            Room::KidsBedroom => KIDS_SENSOR_EXPECTED_IP,
        }
    }

    /// The address from which the room's relay reports.
    pub open spec fn relay_host(self) -> u32 {
        match self {
            Room::Bedroom => BEDROOM_RELAY_EXPECTED_IP,
            Room::KidsBedroom => KIDS_RELAY_EXPECTED_IP,
        }
    }

    /// The room that `name` names, if it names one.
    pub fn parse(name: &String) -> (r: Option<Room>)
        ensures
            r == room_named(name@),
    {
        if *name == String::from_str("bedroom") {
            Some(Room::Bedroom)
        } else if *name == String::from_str("kids_bedroom") {
            Some(Room::KidsBedroom)
        } else {
            None
        }
    }

    /// The number of the room's sensor and relay.
    pub fn device_id(&self) -> (r: u32)
        ensures
            r == self.id(),
    {
        match self {
            Room::Bedroom => 0,
            Room::KidsBedroom => 2,
        }
    }

    /// The room whose sensor has the number `id`, if the dashboard shows
    /// it.
    pub fn of_device(id: u32) -> (r: Option<Room>)
        ensures
            r == room_of_device(id),
    {
        if id == 0 {
            Some(Room::Bedroom)
        } else if id == 2 {
            Some(Room::KidsBedroom)
        } else {
            None
        }
    }
}

impl RoomView {
    /// The room with one more point in its history, and without the
    /// points that are more than six hours older than that one.
    pub open spec fn recorded(self, point: TemperaturePoint) -> RoomView {
        RoomView {
            temperature_history: since(
                self.temperature_history.push(point),
                point.timestamp - HISTORY_SECONDS,
            ),
            ..self
        }
    }

    /// The room as a request for the state sees it: with the points that
    /// are newer than the last one the dashboard has, or with all of them.
    pub open spec fn newer_than(self, query: StatusQuery) -> RoomView {
        RoomView {
            temperature_history: match query.last_update {
                Some(t) => since(self.temperature_history, t + 1),
                None => self.temperature_history,
            },
            ..self
        }
    }

    /// The room brought up to a coordinator's state: whether sensor and
    /// relay were heard within the staleness window, the last
    /// temperature, or zero if there is none, the target now, and the
    /// state that the relay last reported, or off.
    pub open spec fn refreshed(self, s: ServerView, room: Room, clock: Clock) -> RoomView {
        RoomView {
            sensor_available: s.available(room.sensor_host(), clock.seconds()),
            current_temp: if s.last_temp.contains_key(room.id()) {
                s.last_temp[room.id()]
            } else {
                0
            },
            target_temp: scheduled(room_table(room.id() as int), clock.second_of_day as int) as i64,
            relay_available: s.available(room.relay_host(), clock.seconds()),
            relay_state: s.last_relay_on_status.contains_key(room.relay_host())
                && s.last_relay_on_status[room.relay_host()],
            ..self
        }
    }
}

impl DashboardView {
    /// One room of the dashboard.
    pub open spec fn room(self, room: Room) -> RoomView {
        match room {
            Room::Bedroom => self.bedroom,
            Room::KidsBedroom => self.kids_bedroom,
        }
    }

    /// The dashboard with one room replaced.
    pub open spec fn with_room(self, room: Room, view: RoomView) -> DashboardView {
        match room {
            Room::Bedroom => DashboardView { bedroom: view, ..self },
            Room::KidsBedroom => DashboardView { kids_bedroom: view, ..self },
        }
    }

    /// The dashboard after a reading of the device `id`: the point is
    /// recorded for the room of the device, if the dashboard shows it.
    pub open spec fn history_updated(self, id: u32, point: TemperaturePoint) -> DashboardView {
        match room_of_device(id) {
            Some(room) => self.with_room(room, self.room(room).recorded(point)),
            None => self,
        }
    }

    /// The dashboard after the relay of a room was switched by hand.
    pub open spec fn relay_switched(self, room: Room, state: bool) -> DashboardView {
        self.with_room(room, RoomView { relay_state: state, ..self.room(room) })
    }

    /// The dashboard after a request to disable the heater of a room for
    /// two hours from `now`, or to enable it again, and what is left to
    /// do: a heater that is disabled while it is on is to be switched off.
    pub open spec fn heater_disabled(self, room: Option<Room>, disable: bool, now: int) -> (
        DashboardView,
        DisableOutcome,
    ) {
        match room {
            None => (self, DisableOutcome::InvalidRoom),
            Some(room) => (
                self.with_room(
                    room,
                    RoomView {
                        disabled_until: if disable {
                            Some((now + DISABLE_SECONDS) as i64)
                        } else {
                            None
                        },
                        ..self.room(room)
                    },
                ),
                if disable && self.room(room).relay_state {
                    DisableOutcome::SwitchOff(room)
                } else {
                    DisableOutcome::Done
                },
            ),
        }
    }
}

/// The points of `points` that are not older than `cutoff`.
pub fn retained(points: &Vec<TemperaturePoint>, cutoff: i128) -> (r: Vec<TemperaturePoint>)
    ensures
        r@ == since(points@, cutoff as int),
{
    let mut out: Vec<TemperaturePoint> = Vec::new();
    let mut i: usize = 0;
    let ghost keep = |p: TemperaturePoint| p.timestamp >= cutoff as int;
    assert(points@.take(0) =~= Seq::<TemperaturePoint>::empty());
    while i < points.len()
        invariant
            i <= points@.len(),
            keep == (|p: TemperaturePoint| p.timestamp >= cutoff as int),
            out@ == points@.take(i as int).filter(keep),
        decreases points@.len() - i,
    {
        let p = points[i];
        proof {
            assert(points@.take(i + 1).drop_last() =~= points@.take(i as int));
            assert(points@.take(i + 1).last() == p);
            reveal(Seq::filter);
        }
        if p.timestamp as i128 >= cutoff {
            out.push(p);
        }
        i = i + 1;
    }
    assert(points@.take(points@.len() as int) =~= points@);
    out
}

/// A copy of `points`.
pub fn copied(points: &Vec<TemperaturePoint>) -> (r: Vec<TemperaturePoint>)
    ensures
        r@ == points@,
{
    let mut out: Vec<TemperaturePoint> = Vec::new();
    let mut i: usize = 0;
    while i < points.len()
        invariant
            i <= points@.len(),
            out@ == points@.take(i as int),
        decreases points@.len() - i,
    {
        out.push(points[i]);
        assert(points@.take(i + 1) =~= points@.take(i as int).push(points@[i as int]));
        i = i + 1;
    }
    assert(points@.take(points@.len() as int) =~= points@);
    out
}

impl RoomState {
    /// A room of which nothing is known.
    pub fn new() -> (r: RoomState)
        ensures
            r@ == empty_room(),
    {
        RoomState {
            sensor_available: false,
            current_temp: 0,
            target_temp: 0,
            relay_available: false,
            relay_state: false,
            temperature_history: Vec::new(),
            disabled_until: None,
        }
    }

    /// Adds a point to the history and drops the points that are more
    /// than six hours older than it.
    pub fn record(&mut self, point: TemperaturePoint)
        ensures
            final(self)@ == old(self)@.recorded(point),
    {
        self.temperature_history.push(point);
        let kept = retained(
            &self.temperature_history,
            point.timestamp as i128 - HISTORY_SECONDS as i128,
        );
        self.temperature_history = kept;
    }

    /// The room as a request for the state sees it.
    pub fn newer_than(&self, query: &StatusQuery) -> (r: RoomState)
        ensures
            r@ == self@.newer_than(*query),
    {
        let history = match query.last_update {
            Some(t) => retained(&self.temperature_history, t as i128 + 1),
            None => copied(&self.temperature_history),
        };
        RoomState {
            sensor_available: self.sensor_available,
            current_temp: self.current_temp,
            target_temp: self.target_temp,
            relay_available: self.relay_available,
            relay_state: self.relay_state,
            temperature_history: history,
            disabled_until: self.disabled_until,
        }
    }

    /// Brings the room up to the state of the coordinator.
    pub fn refresh(&mut self, server: &Server, room: Room, clock: &Clock)
        ensures
            final(self)@ == old(self)@.refreshed(server@, room, *clock),
    {
        let (id, sensor, relay) = match room {
            Room::Bedroom => (0u32, BEDROOM_SENSOR_EXPECTED_IP, BEDROOM_RELAY_EXPECTED_IP),
            Room::KidsBedroom => (2u32, KIDS_SENSOR_EXPECTED_IP, KIDS_RELAY_EXPECTED_IP),
        };
        let now = clock.timestamp();
        proof {
            crate::schedule::lemma_scheduled_in_range(
                room_table(id as int),
                clock.second_of_day as int,
            );
        }
        self.sensor_available = server.is_available(sensor, now);
        self.current_temp = match server.last_temp(id) {
            Some(t) => t,
            None => 0,
        };
        self.target_temp = room_target(id as usize, clock.second_of_day);
        self.relay_available = server.is_available(relay, now);
        self.relay_state = match server.relay_on(relay) {
            Some(on) => on,
            None => false,
        };
    }
}

impl ServerState {
    /// A dashboard that knows nothing of either room.
    pub fn new() -> (r: ServerState)
        ensures
            r@ == (DashboardView { bedroom: empty_room(), kids_bedroom: empty_room() }),
    {
        ServerState { bedroom: RoomState::new(), kids_bedroom: RoomState::new() }
    }

    /// Adds a reading of the device `device_id` to the history of its
    /// room, and drops what is more than six hours older. A device that
    /// the dashboard does not show changes nothing.
    pub fn update_history(
        &mut self,
        device_id: u32,
        current_timestamp: i64,
        temp: i64,
        target_temp: i64,
        heater_on: bool,
    )
        ensures
            final(self)@ == old(self)@.history_updated(
                device_id,
                TemperaturePoint {
                    timestamp: current_timestamp,
                    temperature: temp,
                    target: target_temp,
                    heater_on,
                    is_disabled: false,
                },
            ),
    {
        let point = TemperaturePoint {
            timestamp: current_timestamp,
            temperature: temp,
            target: target_temp,
            heater_on,
            is_disabled: false,
        };
        match Room::of_device(device_id) {
            Some(Room::Bedroom) => self.bedroom.record(point),
            Some(Room::KidsBedroom) => self.kids_bedroom.record(point),
            None => {},
        }
    }

    /// Brings what the dashboard shows of both rooms up to the state of
    /// the coordinator.
    pub fn update_web_state(&mut self, server: &Server, clock: &Clock)
        ensures
            final(self)@ == (DashboardView {
                bedroom: old(self)@.bedroom.refreshed(server@, Room::Bedroom, *clock),
                kids_bedroom: old(self)@.kids_bedroom.refreshed(
                    server@,
                    Room::KidsBedroom,
                    *clock,
                ),
            }),
    {
        self.bedroom.refresh(server, Room::Bedroom, clock);
        self.kids_bedroom.refresh(server, Room::KidsBedroom, clock);
    }

    /// The state as a request for it sees it: each room with the points
    /// that are newer than the last one the dashboard has.
    pub fn get_status(&self, query: &StatusQuery) -> (r: ServerState)
        ensures
            r@ == (DashboardView {
                bedroom: self@.bedroom.newer_than(*query),
                kids_bedroom: self@.kids_bedroom.newer_than(*query),
            }),
    {
        ServerState {
            bedroom: self.bedroom.newer_than(query),
            kids_bedroom: self.kids_bedroom.newer_than(query),
        }
    }

    /// Whether the relay of a room is shown as on.
    pub fn relay_state(&self, room: Room) -> (r: bool)
        ensures
            r == self@.room(room).relay_state,
    {
        match room {
            Room::Bedroom => self.bedroom.relay_state,
            Room::KidsBedroom => self.kids_bedroom.relay_state,
        }
    }

    /// Records that the relay of a room was switched by hand.
    pub fn control_relay(&mut self, room: Room, state: bool)
        ensures
            final(self)@ == old(self)@.relay_switched(room, state),
    {
        match room {
            Room::Bedroom => {
                self.bedroom.relay_state = state;
            },
            Room::KidsBedroom => {
                self.kids_bedroom.relay_state = state;
            },
        }
    }

    /// Disables the heater of the room that a request names for two hours
    /// from `now`, or enables it again, and says what is left to do.
    pub fn disable_heater(&mut self, request: &DisableHeaterRequest, now: i64) -> (r:
        DisableOutcome)
        requires
            now + DISABLE_SECONDS <= i64::MAX,
        ensures
            (final(self)@, r) == old(self)@.heater_disabled(
                room_named(request.room@),
                request.disable,
                now as int,
            ),
    {
        let room = match Room::parse(&request.room) {
            Some(room) => room,
            None => {
                return DisableOutcome::InvalidRoom;
            },
        };
        let was_on = self.relay_state(room);
        let until = if request.disable {
            Some(now + DISABLE_SECONDS)
        } else {
            None
        };
        match room {
            Room::Bedroom => {
                self.bedroom.disabled_until = until;
            },
            Room::KidsBedroom => {
                self.kids_bedroom.disabled_until = until;
            },
        }
        if request.disable && was_on {
            DisableOutcome::SwitchOff(room)
        } else {
            DisableOutcome::Done
        }
    }
}

impl RelayControlRequest {
    /// The room whose relay the request switches, if it names one.
    pub fn target(&self) -> (r: Option<Room>)
        ensures
            r == room_named(self.room@),
    {
        Room::parse(&self.room)
    }
}

impl StatusQuery {
    /// Whether a point of the history is newer than what the dashboard
    /// has.
    pub fn includes(&self, timestamp: i64) -> (r: bool)
        ensures
            r == match self.last_update {
                Some(t) => timestamp > t,
                None => true,
            },
    {
        match self.last_update {
            Some(t) => timestamp > t,
            None => true,
        }
    }
}

} // verus!
