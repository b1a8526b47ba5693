//! Exposure-based aging risk scoring for PFAS measurements.
//!
//! Concentrations are fixed-point integers in thousandths of a unit, scores are
//! fixed-point integers in millionths of a point.

pub mod scoring;
pub mod laws;
pub mod calculator;
pub mod models;
pub mod analyzer;
pub mod io_handler;
pub mod report;
pub mod decimal;
