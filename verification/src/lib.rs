//! Verified core of a directory-to-object-store uploader.
//!
//! The crate decides; its caller acts. Everything that touches the outside
//! world (probing and listing the source directory, reading files, sending
//! bytes to the store, showing messages) is done by the caller, who reports
//! each result as an [`Event`](protocol::Event) and receives the
//! notifications to pass on, the uploads to start and the next thing to do.
//!
//! - [`request`] and [`invocation`]: what a run is asked to do, from a form
//!   or from a command line.
//! - [`protocol`]: the events that the caller reports, and the actions and
//!   directives it gets back.
//! - [`orchestrator`]: the state of one run and its answer to each event.
//! - [`key`], [`outcome`], [`summary`], [`progress`], [`notification`],
//!   [`error`]: the values that a run works with.
//! - [`model`]: the orchestrator as mathematics. Each answer of the
//!   executable orchestrator is proved equal to the model's.
//! - [`execution`], [`conduct`], [`resolution`], [`trace`]: what holds of
//!   every run of the model: every file is accounted for once, progress
//!   never falls, the order in which uploads resolve does not matter, a run
//!   completes once and never in silence.

pub mod conduct;
pub mod error;
pub mod execution;
pub mod invocation;
pub mod key;
pub mod model;
pub mod notification;
pub mod orchestrator;
pub mod outcome;
pub mod progress;
pub mod protocol;
pub mod request;
pub mod resolution;
pub mod success;
pub mod summary;
pub mod trace;
