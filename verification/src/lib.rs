//! Discrete core of a satellite visibility scan.
//!
//! The numeric geometry of a scan (sidereal polynomial, frame conversion,
//! trigonometry) works on binary floating point and lives with the program
//! that drives this library. What is exact lives here: angles in millionths
//! of a degree and their wrapping, the quadrant rules of the arctangent and
//! of the azimuth, the windows in which a target stands at or above the
//! elevation threshold, the order in which a scan visits steps and targets
//! and what it does when a propagation fails, the pass limit of the latitude
//! iteration, the budget of a polling tick, and epoch arithmetic.

pub mod angle;
pub mod driver;
pub mod epoch;
pub mod pacing;
pub mod quadrant;
pub mod report;
pub mod satutil;
pub mod solver;
pub mod window;
