//! Smooth brightness ramping for backlight devices.
//!
//! The library holds the verified core: the brightness value type with its
//! decimal and percentage parsing, the per-device ramp state machine, and the
//! target policy that the orchestrator applies to each discovered device.
//! Device discovery, file reads and writes, and thread handling live outside
//! the library and hand it plain values.

pub mod brightness;
pub mod policy;
pub mod ramp;


