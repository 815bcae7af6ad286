//! Communication and command-dispatch core of a CO2 / temperature / humidity
//! sensor node: packet framing, the command catalog and its wire codec,
//! fixed-capacity command queues, the dispatcher, and both ends of the
//! serial link.

pub mod codec;
pub mod config;
pub mod dispatch;
pub mod framing;
pub mod hex;
pub mod host;
pub mod link;
pub mod queue;
pub mod sensor;
pub mod spsc;
