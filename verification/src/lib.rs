//! Wire parcels read from QGAE edge files, and the decisions of the headless preview.

pub mod qgae;
pub mod roundtrip;
pub mod text;
pub mod bins;
pub mod paths;
pub mod args;
pub mod film;
