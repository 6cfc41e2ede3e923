//! Battery monitoring for Logitech devices: HID++ message encoding and reply
//! parsing, the per-device probing sequence, merging of battery sources and
//! the decisions of the polling loop.

pub mod proto;
pub mod text;
pub mod battery;
pub mod pairing;
pub mod transport;
pub mod probe;
pub mod ghub;
pub mod poller;
pub mod settings;
pub mod window;
