//! The core of a home heating controller.
//!
//! Sensors and relays report over UDP in fragments, which
//! [`fragment_combiner`] puts together again. The coordinator in [`server`]
//! takes the messages, finds the target of a room in its [`schedule`], asks
//! the room's control strategy in [`pwm`] whether the heater is to run, and
//! tracks in [`relay`] terms whether a relay has confirmed its last command.
//! [`web`] holds what a dashboard shows, and [`logger`] what a log printer
//! decides.
//!
//! Nothing here reads a clock or a socket: times and datagrams come in as
//! arguments, and what is to be sent comes back as a value. Temperatures
//! are fixed-point numbers, see [`units`].

pub mod fragment_combiner;
pub mod logger;
pub mod messages;
pub mod pwm;
pub mod relay;
pub mod schedule;
pub mod server;
pub mod text;
pub mod units;
pub mod web;
