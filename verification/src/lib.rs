//! Soft-PWM rendering of system telemetry on an eight-pad indicator panel.

pub mod brightness;
pub mod clock;
pub mod discovery;
pub mod driver;
pub mod metrics;
pub mod pad;
pub mod reading;
pub mod sampler;
pub mod slot;
pub mod telemetry;
