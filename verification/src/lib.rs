//! A small home-automation registry.
//!
//! A [`Home`](home::Home) owns a collection of named [`Room`](home::Room)s;
//! each room owns a collection of named devices (sockets and thermometers).
//! Every add, remove, lookup and report operation carries a contract that
//! pins down exactly how the registry changes and which error is returned
//! on which input.

pub mod devices;
pub mod home;
pub mod laws;
pub mod text;

pub use devices::{Device, DeviceError, SmartDevice, SmartSocket, SmartThermometer};
pub use home::{Home, HomeError, Room};
