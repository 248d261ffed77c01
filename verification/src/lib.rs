//! Controller logic for an embedded smart clock: temperature-to-color
//! mapping, a persisted threshold store, a button-driven configuration
//! state machine, debouncing, clock synchronization and telemetry framing.
//!
//! Everything here is pure logic over plain values; the hardware drivers
//! (sensor bus, WiFi stack, display, PWM) live outside and exchange plain
//! integers and byte vectors with this crate.

pub mod clock;
pub mod color;
pub mod controller;
pub mod debounce;
pub mod fsm;
pub mod sensor;
pub mod store;
pub mod telemetry;
pub mod temp;
pub mod timejson;
