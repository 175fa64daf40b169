//! The decision-making core of OpenAudio, a desktop tool that publishes and
//! receives multichannel audio over a local network.
//!
//! The crate holds the session model of the desktop application, the rules by
//! which sessions start and stop, the preset format, the channel routing, the
//! texts shown to the user and the argument and packet bookkeeping of the
//! command-line receiver.  It performs no I/O: sockets, audio devices, threads
//! and drawing live in the program around it, which hands in plain values and
//! carries out the plans it gets back.

pub mod app;
pub mod asio_locks;
pub mod asio_subscribe;
pub mod browser;
pub mod channels;
pub mod control;
pub mod devices;
pub mod diagnostics;
pub mod doubles;
pub mod level;
pub mod load;
pub mod messages;
pub mod preset;
pub mod publish;
pub mod receiver;
pub mod rounding;
pub mod saving;
pub mod signal_monitor;
pub mod subscribe;
pub mod text;
pub mod theme;
pub mod ui_shell;
