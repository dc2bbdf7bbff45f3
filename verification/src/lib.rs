//! Hybrid ODE/event simulation scheduling and gradient-free optimiser control,
//! with every decision stated as a contract and proved.
//!
//! Continuous quantities (times on the integration axis, objective values,
//! step sizes, tolerances) enter the library as order keys: signed integers
//! that compare exactly as the quantities they stand for. Event times are
//! exact decimals.

pub mod beat;
pub mod data;
pub mod exact;
pub mod genetic;
pub mod key;
pub mod model;
pub mod objective;
pub mod neldermead;
pub mod optimizer;
pub mod order;
pub mod report;
pub mod run;
pub mod sampling;
pub mod stepper;
