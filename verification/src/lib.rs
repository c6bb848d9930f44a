//! Sampling core for an AMD RAPL power monitor.
//!
//! The library holds the numeric heart of the monitor: decoding the
//! energy-unit exponent from the power-unit register, turning two timed
//! passes of raw energy-counter readings into per-core and package power
//! figures, summing them, and deciding what a sampling cycle publishes.
//! All arithmetic is exact: a power value is carried as an integer
//! numerator together with the power-of-two denominator given by the
//! energy-unit exponent. Reading the model-specific registers themselves
//! is I/O and stays outside the library; callers hand in the raw values.

pub mod metrics;
pub mod registers;
pub mod sampling;
pub mod topology;
