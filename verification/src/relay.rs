//! Relay commands, and what is known of whether a relay followed them.

use vstd::prelude::*;

verus! {

/// The port on which relays take commands.
pub const RELAY_PORT: u16 = 4210;

/// The state that a command asks a relay for.
#[derive(Debug, Clone, Copy, PartialEq, Eq, Structural)]
pub enum RelayState {
    On,
    Off,
}

/// The command that is sent to a relay.
#[derive(Debug, Clone, Copy, PartialEq, Eq, Structural)]
pub struct RelayControl {
    /// Always set, so that no command is an empty message.
    pub dummy: bool,
    /// The state to switch to.
    pub state: RelayState,
    /// After how many milliseconds to switch.
    pub delay: u32,
}

/// The command that switches a relay on or off after `delay` milliseconds.
pub fn relay_control(on: bool, delay: u32) -> (r: RelayControl)
    ensures
        r == (RelayControl {
            dummy: true,
            state: if on {
                RelayState::On
            } else {
                RelayState::Off
            },
            delay,
        }),
{
    RelayControl {
        dummy: true,
        state: if on {
            RelayState::On
        } else {
            RelayState::Off
        },
        delay,
    }
}

/// What is known of a relay: whether a command is in flight, and the state
/// that the relay last reported.
#[derive(Debug, Clone, Copy, PartialEq, Eq, Structural)]
pub struct RelayConfirmationState {
    /// A command was sent and no report has come since.
    pub unconfirmed: bool,
    /// The state that the relay last reported.
    pub confirmed_on_state: bool,
}

impl Default for RelayConfirmationState {
    /// Nothing in flight, and the relay off.
    fn default() -> (r: RelayConfirmationState)
        ensures
            r == (RelayConfirmationState { unconfirmed: false, confirmed_on_state: false }),
    {
        RelayConfirmationState { unconfirmed: false, confirmed_on_state: false }
    }
}

impl RelayConfirmationState {
    /// The state of a relay of which nothing is known yet.
    pub open spec fn initial() -> RelayConfirmationState {
        RelayConfirmationState { unconfirmed: false, confirmed_on_state: false }
    }

    /// The state after a command was sent: in flight, whatever it was.
    pub open spec fn commanded(self) -> RelayConfirmationState {
        RelayConfirmationState { unconfirmed: true, confirmed_on_state: self.confirmed_on_state }
    }

    /// The state after the relay reported `on`: confirmed, with that state.
    pub open spec fn reported(self, on: bool) -> RelayConfirmationState {
        RelayConfirmationState { unconfirmed: false, confirmed_on_state: on }
    }

    /// Records that a command was sent.
    pub fn command_sent(&mut self)
        ensures
            *final(self) == old(self).commanded(),
    {
        self.unconfirmed = true;
    }

    /// Records the state that the relay reported.
    pub fn report_received(&mut self, on: bool)
        ensures
            *final(self) == old(self).reported(on),
    {
        self.unconfirmed = false;
        self.confirmed_on_state = on;
    }
}

/// What a log line says of the relay when a command was handed to the
/// network.
#[derive(Debug, Clone, Copy, PartialEq, Eq, Structural)]
pub enum DispatchNote {
    /// The relay could not be reached.
    NotReached,
    /// An earlier command is still in flight.
    Unconfirmed,
    /// The state that the relay last reported, shown with a delayed command.
    LastReported(bool),
    /// Nothing to remark.
    Plain,
}

/// The note for a command with the given delay, by whether it was sent
/// and by what was known of the relay before.
pub open spec fn dispatch_note(before: RelayConfirmationState, delay_ms: u32, sent: bool) -> DispatchNote {
    if !sent {
        DispatchNote::NotReached
    } else if before.unconfirmed {
        DispatchNote::Unconfirmed
    } else if delay_ms != 0 {
        DispatchNote::LastReported(before.confirmed_on_state)
    } else {
        DispatchNote::Plain
    }
}

impl DispatchNote {
    /// The text of the note in a log line.
    pub open spec fn text(self) -> Seq<char> {
        match self {
            DispatchNote::NotReached => " [NRELAY]"@,
            DispatchNote::Unconfirmed => " [UNCONFIRMED]"@,
            DispatchNote::LastReported(true) => " *ON"@,
            DispatchNote::LastReported(false) => " *OFF"@,
            DispatchNote::Plain => ""@,
        }
    }

    /// The text of the note in a log line.
    pub fn annotation(&self) -> (r: &'static str)
        ensures
            r@ == self.text(),
    {
        match self {
            DispatchNote::NotReached => " [NRELAY]",
            DispatchNote::Unconfirmed => " [UNCONFIRMED]",
            DispatchNote::LastReported(true) => " *ON",
            DispatchNote::LastReported(false) => " *OFF",
            DispatchNote::Plain => "",
        }
    }
}

/// The confirmation state machine: a command puts a relay in flight from
/// any state, and a second one leaves it there; a report alone confirms it,
/// with the state reported.
pub proof fn lemma_confirmation_transitions(s: RelayConfirmationState, on: bool)
    ensures
        s.commanded().unconfirmed,
        s.commanded().commanded() == s.commanded(),
        !s.reported(on).unconfirmed,
        s.reported(on).confirmed_on_state == on,
        s.commanded().reported(on) == s.reported(on),
{
}

} // verus!
