//! Verdicts of the test suites.

pub mod blargg;
pub mod gambatte;
pub mod gbmicrotest;
pub mod mooneye;
pub mod tearoom;
