//! A scheduled notifier that alternates between a working interval and a
//! resting interval, announces every transition to a chat room, and removes
//! its announcements again when it is asked to stop.
//!
//! The crate holds the decisions of that program as verified functions on
//! plain values; reading the environment, files, the network and the
//! interrupt signal is left to the program built around it.
//!
//! - [`config`] checks the settings and keeps them.
//! - [`schedule`] has the two modes and the arithmetic of transition times.
//! - [`clock`] reads the clock and the time zone and writes clock times.
//! - [`message`] puts the time into a template and makes the broadcast.
//! - [`message_log`] writes and reads the log of sent messages.
//! - [`transport`] describes the requests to the chat service.
//! - [`cycle`] is the state machine that announces the transitions.
//! - [`cleanup`] is the state machine that deletes the messages at the end.
//! - [`text`] has helpers on characters that the others share.

pub mod text;
pub mod schedule;
pub mod config;
pub mod message;
pub mod message_log;
pub mod clock;
pub mod transport;
pub mod cycle;
pub mod cleanup;
