//! Serial-port discovery, connection lifecycle, and frame forwarding.
//!
//! - [`ports`] picks the ports that an ESP32 may be attached to and names the
//!   devices on them,
//! - [`supervisor`] keeps the device registry in step with the ports,
//! - [`info`] is the firmware identification exchange,
//! - [`connection`] is a device's serial task and its open link: commands, frames and
//!   the session file,
//! - [`link`] puts the parts of an open link together.

pub mod connection;
pub mod info;
pub mod link;
pub mod ports;
pub mod supervisor;

pub use connection::run_serial_task;
pub use link::run_serial_connection;
pub use ports::detect_esp_ports;
pub use supervisor::{run_supervisor, spawn_device};
