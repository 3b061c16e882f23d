//! Startup sequencing and update flow of a desktop GUI shell.
//!
//! The shell itself is a thin program around a GUI framework: it registers a
//! fixed list of capabilities, installs a setup hook and hands control to the
//! framework's event loop. This library holds the decisions of that program as
//! plain functions on plain values, so that they can be stated and proved
//! without a window system: which capabilities are registered and in which
//! order ([`plugins`]), what the startup consists of and how a failed launch is
//! treated ([`startup`]), how an update attempt proceeds from the check to the
//! restart, one event at a time ([`update`]), and what holds of every whole
//! attempt ([`attempt`]).
pub mod attempt;
pub mod plugins;
pub mod startup;
pub mod update;
