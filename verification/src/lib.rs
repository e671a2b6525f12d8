//! Verified core of a serial-port bridge: a global configuration record,
//! value-to-setting conversions, and a registry of open port handles.
//!
//! All device I/O (enumerating, opening, reading, writing ports) happens
//! outside this library; the library holds the state and the decisions.

pub mod bridge;
pub mod config;
pub mod registry;

pub use bridge::SerialState;
pub use config::SerialPortConfig;
pub use registry::PortRegistry;
