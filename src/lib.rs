//! Framing protocol and packet-routing core for bridging a virtual IP
//! interface to serial, socket and MIDI transports.
pub mod header;
pub mod net;
pub mod transform;
pub mod frame;
pub mod config;
pub mod lifecycle;
pub mod handler;
