//! Control core of a wearable intercom beltpack.
//!
//! The library holds the decision logic of the device: validated value
//! types (operator names, signal percentages, diagnostic codes), the
//! text composed for the screen, and the tick-by-tick state machine
//! that drives the display and the power-off hold gesture. Hardware
//! access (GPIO lines, the I2C display, network queries) lives outside
//! the library and only hands plain values in and out.

pub mod diagnostic;
pub mod digits;
pub mod errors;
pub mod orchestrator;
pub mod values;
