//! Core of a serial screen receiver for the CBM 8032 terminal.
//!
//! A terminal device streams its screen contents over a raw serial line with
//! no explicit packet delimiters beyond a run of zero bytes. This crate
//! reconstructs discrete screen snapshots ([`frame::Cbm8032Frame`]) from that
//! stream with a self-synchronizing state machine
//! ([`sync::FrameSynchronizer`]), measures the rate at which frames arrive
//! ([`fps::Fps`]), and decides what a non-blocking consumer handle returns
//! ([`serial::HandleState`]). Everything here is pure logic on bytes and tick
//! counts; the serial port, the receiver thread and the channel that carries
//! completed frames live outside this crate and hand plain values in and out.

pub mod fps;
pub mod frame;
pub mod serial;
pub mod stream;
pub mod sync;
