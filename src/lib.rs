//! Keeps a chosen application window active: target normalisation, window
//! location over system snapshots, the per-cycle worker decision and the
//! supervision controller's state machine.

pub mod text;
pub mod targets;
pub mod locate;
pub mod controller;
pub mod worker;
pub mod elevation;
