//! The probes, one for each capability.

pub mod cybergym;
pub mod fwa;
pub mod netarena;
pub mod osworld;
pub mod pibench;
