//! A local process supervisor: the decisions of its lifecycle controller,
//! termination sequencer, file-watch trigger, registry, control protocol and
//! backup store, stated and proved over plain values.

pub mod backup;
pub mod backup_text;
pub mod command;
pub mod commands;
pub mod processes;
pub mod registry;
pub mod socket;
pub mod status;

pub use backup::{Backup, BackupProcess, RecordPlace};
pub use command::{Arguments, Commands};
pub use commands::{Outcome, StartDecision, decide_start, start_outcome};
pub use processes::{
    ControlSignal, Ecosystem, KillStep, LogsMode, POLL_ATTEMPTS, ProcessState, ProcessStatus,
    ControlAction, RestartMode, change_restarts, exit_signal, path_ends_with, session_header,
};
pub use registry::{AppState, Process, parse_id};
pub use socket::{Answer, Request, Response, Verb, join_from, parse_request};
pub use status::decimal_string;
