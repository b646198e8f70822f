//! Duplicate-file detection by content hash.
//!
//! The crate holds the decisions of a duplicate filter: an ordered registry of
//! SHA-256 digests, the classification of each file as first-seen or
//! duplicate, and the handling of duplicates under a configurable policy.
//! It performs no input or output of its own. A handler states what it needs
//! from the outside as an [`Action`] and is told what happened as an
//! [`Event`]; the program around it carries the actions out:
//! it takes the first action from [`OperationHandler::pending`], and for each
//! action but `Finish` it hands the answering event to
//! [`OperationHandler::run`], which returns the next action.
//!
//! The modules:
//! - [`digest`]: digests, their byte order, SHA-256 and hexadecimal text;
//! - [`registry`]: the ordered registry with binary search;
//! - [`path`] and [`text`]: paths, notices, prompts and the operator's answers;
//! - [`config`]: the policy, the configuration and the command line;
//! - [`traits`]: actions, events and the handler interface;
//! - [`model`]: the filter as a state machine over mathematical values;
//! - [`filterbyhash`]: the handler, which follows the model;
//! - [`laws`]: what holds of every run.

pub mod config;
pub mod digest;
pub mod error;
pub mod filterbyhash;
pub mod laws;
pub mod model;
pub mod path;
pub mod registry;
pub mod text;
pub mod traits;

pub use config::{get_config, get_operation_handler, Argument, Config, InConflictDo};
pub use digest::Digest;
pub use error::FilterError;
pub use filterbyhash::{FilterByHash, Phase};
pub use path::check_absolute_path;
pub use registry::{HashRegistry, Location};
pub use traits::{Action, Event, OperationHandler};
