//! Use cases: each orchestrates the entities through ports and the in-memory
//! loom store.

pub mod knots;
pub mod looms;
pub mod process;
pub mod registration;
pub mod status;

pub use crate::clock::format_timestamp;
pub use knots::{ConfigEventHandler, KnotAction, ManageKnot};
pub use looms::{
    DiscoverLooms, GetLoom, GetLoomActivity, ListLooms, LoomSummary, RegisterLoom, ReloadConfig,
    UnregisterLoom,
};
pub use process::{ProcessStrand, StrandContent};
pub use registration::StrandDir;
pub use status::{GetKnotStatus, KnotStatus, WriteState};
