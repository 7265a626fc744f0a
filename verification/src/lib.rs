//! Bridge between CAN channels and a Linux host that speaks the gs_usb protocol over USB.
//!
//! The crate decides; it touches neither the bus nor the USB peripheral.
//!
//! - [`control`] answers control requests and turns them into commands for a channel,
//! - [`bulk`] takes frames out of bulk transfers and writes responses into them,
//! - [`can`] tells what a channel does about a command, a frame or the end of a transmission,
//! - [`frame`], [`messages`] and [`bytes`] hold what these three share,
//! - [`wire`] states what the bytes on USB mean, byte by byte,
//! - [`steps`] states what a channel does about each event, step by step,
//! - [`laws`] states what holds of all of it together.
pub mod bulk;
pub mod bytes;
pub mod can;
pub mod control;
pub mod frame;
pub mod laws;
pub mod messages;
pub mod steps;
pub mod wire;
