//! Process discovery by command name, and signal-name resolution.
//!
//! The library holds the logic of a named-process signal dispatcher: parsing
//! process identifiers out of process-table entry names, matching each
//! process's recorded command name against a target, and resolving
//! human-readable signal names to the platform's signal numbers.  Listing
//! the process table, reading each command-name record, and delivering
//! signals are left to the surrounding program, which hands the results in
//! as plain values.

pub mod discovery;
pub mod dispatch;
pub mod pid;
pub mod signals;

pub use discovery::check_entry;
pub use dispatch::any_unmatched;
pub use dispatch::signal_to_send;
pub use discovery::list_pids_by_comm;
pub use discovery::ProcEntry;
pub use pid::parse_pid_from_bytes;
pub use signals::list_all;
pub use signals::resolve;
pub use signals::SignalDescriptor;
