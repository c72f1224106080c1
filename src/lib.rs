//! Extraction of Mode-S frames from the sample bursts of a software-defined
//! radio, their rendering as ASCII-hex wire records, and the ordered handoff of
//! those records to a network delivery path.

pub mod acquisition;
pub mod delivery;
pub mod frame;
pub mod handoff;
pub mod hex;
pub mod progress;
pub mod radio;
pub mod record;
