//! Aggregates outstanding tasks from calendars and issue trackers into one
//! sorted list, with per-source error isolation.
//!
//! The library computes and decides; it performs no input or output. A
//! front end sends the requests that the adapters ask for, hands back the
//! responses, and publishes what a refresh gave:
//!
//! - [`tasks`]: the task record, the order of tasks and the stable sort.
//! - [`manager`]: the registry of sources in the order of their names, and
//!   the tasks and failures of the latest refresh.
//! - [`sources`]: one adapter for each kind of remote system. An adapter
//!   that needs one response reads it in one call; an adapter that needs
//!   several is a state machine from state and response to the next
//!   request.
//! - [`json`], [`http`], [`time`], [`fields`], [`text`]: the values that
//!   the adapters read and write.
//! - [`error`]: the classes of failure, and the log of failures by source.
//! - [`display`]: the rules by which a front end shows tasks.
//!
//! Every function is verified against its contract, but for the calls
//! into other crates, which stand behind functions whose contracts are
//! taken on trust: reading dates (`chrono`), reading JSON (`json`),
//! encoding credentials (`base64`), reading an address (`url`), and adding
//! a character to a `String`.

pub mod display;
pub mod error;
pub mod fields;
pub mod http;
pub mod json;
pub mod manager;
pub mod sources;
pub mod tasks;
pub mod text;
pub mod time;

pub use sources::TaskSource;
pub use tasks::{Task, TaskManager};
