#![verifier::loop_isolation(false)]

pub mod engine;
pub mod driver;
pub mod solver;
pub mod cache;
pub mod simulate;
