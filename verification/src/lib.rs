//! The core of a file-first agent orchestration service: looms, knots and the
//! strands that trigger them.

pub mod activity;
pub mod clock;
pub mod debounce;
pub mod entities;
pub mod errors;
pub mod events;
pub mod in_memory_event_queue;
pub mod outside;
pub mod paths;
pub mod ports;
pub mod rig_state;
pub mod service_log;
pub mod session_resume;
pub mod store;
pub mod subprocess;
pub mod text;
pub mod tie_off_history;
pub mod time;
pub mod trace;
pub mod usecases;
