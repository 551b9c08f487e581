//! Core of a recursive content-discovery scanner: the scan registry, the
//! response de-duplication cache, the pause coordinator, and the
//! checkpoint/restore state format.
//!
//! The HTTP work itself is out of scope: a driver asks the registry to record
//! scans as targets are discovered, consults the response cache before
//! emitting output, pauses cooperatively, and checkpoints the whole state to
//! disk on interrupt or timeout so a later run can resume where it left off.

pub mod json;
pub mod laws;
pub mod parse;
pub mod pause;
pub mod registry;
pub mod response;
pub mod restore;
pub mod scan;
pub mod serialize;
pub mod text;
pub mod watchdog;

pub use registry::FeroxScans;
pub use response::FeroxResponse;
pub use response::FeroxResponses;
pub use scan::FeroxScan;
pub use scan::ScanType;
pub use serialize::Configuration;
pub use serialize::FeroxState;
