use vstd::prelude::*;

use crate::processes::{ProcessState, ProcessStatus};
use crate::registry::{AppState, Process};
use crate::socket::{Response, response_text};

verus! {

/// How a control request ended; each maps to one fixed reply.
#[derive(Clone, Copy, Debug, PartialEq, Eq, Structural)]
pub enum Outcome {
    Started,
    AlreadyStarted,
    ProcessMissing,
    ConfigMissing,
    Stopped,
    Deleted,
    Restarted,
    NewConfigMissing,
    BackupSaved,
    BackupFailed,
    StatusOfOneUnsupported,
    UnknownCommand,
    NoCommand,
    IdsExhausted,
}

/// The reply line of each outcome.
pub open spec fn outcome_text(o: Outcome) -> Seq<char> {
    match o {
        Outcome::Started => "success Process started"@,
        Outcome::AlreadyStarted => "error Process already started"@,
        Outcome::ProcessMissing => "error Couldn't find the process"@,
        Outcome::ConfigMissing => "error The ecosystem file could not be found"@,
        Outcome::Stopped => "success The process is stopped"@,
        Outcome::Deleted => "success Process deleted successfully"@,
        Outcome::Restarted => "success Rebooted with a new ecosystem file. Don't forget to make a backup: fpm backup"@,
        Outcome::NewConfigMissing => "error Couldn't get new ecosystem file"@,
        Outcome::BackupSaved => "success Backup saved successfully"@,
        Outcome::BackupFailed => "error An error occurred while saving the backup"@,
        Outcome::StatusOfOneUnsupported => "success WIP! Contribute if you want!"@,
        Outcome::UnknownCommand => "error Unknown command"@,
        Outcome::NoCommand => "error The command was not found"@,
        Outcome::IdsExhausted => "error No identifier is left"@,
    }
}

fn success(m: &str) -> (r: Response)
    ensures
        r matches Response::Successfully(Some(t)) && t@ == m@,
{
    Response::Successfully(Some(String::from_str(m)))
}

fn failure(m: &str) -> (r: Response)
    ensures
        r matches Response::Error(t) && t@ == m@,
{
    Response::Error(String::from_str(m))
}

impl Outcome {
    /// The reply sent for this outcome.
    pub fn response(self) -> (r: Response)
        ensures
            response_text(r) == outcome_text(self),
    {
        proof {
            reveal_strlit("success ");
            reveal_strlit("error ");
        }
        match self {
            Outcome::Started => {
                let r = success("Process started");
                proof { reveal_strlit("Process started"); reveal_strlit("success Process started"); }
                assert(response_text(r) =~= outcome_text(self));
                r
            },
            Outcome::AlreadyStarted => {
                let r = failure("Process already started");
                proof { reveal_strlit("Process already started"); reveal_strlit("error Process already started"); }
                assert(response_text(r) =~= outcome_text(self));
                r
            },
            Outcome::ProcessMissing => {
                let r = failure("Couldn't find the process");
                proof { reveal_strlit("Couldn't find the process"); reveal_strlit("error Couldn't find the process"); }
                assert(response_text(r) =~= outcome_text(self));
                r
            },
            Outcome::ConfigMissing => {
                let r = failure("The ecosystem file could not be found");
                proof { reveal_strlit("The ecosystem file could not be found"); reveal_strlit("error The ecosystem file could not be found"); }
                assert(response_text(r) =~= outcome_text(self));
                r
            },
            Outcome::Stopped => {
                let r = success("The process is stopped");
                proof { reveal_strlit("The process is stopped"); reveal_strlit("success The process is stopped"); }
                assert(response_text(r) =~= outcome_text(self));
                r
            },
            Outcome::Deleted => {
                let r = success("Process deleted successfully");
                proof { reveal_strlit("Process deleted successfully"); reveal_strlit("success Process deleted successfully"); }
                assert(response_text(r) =~= outcome_text(self));
                r
            },
            Outcome::Restarted => {
                let r = success("Rebooted with a new ecosystem file. Don't forget to make a backup: fpm backup");
                proof { reveal_strlit("Rebooted with a new ecosystem file. Don't forget to make a backup: fpm backup"); reveal_strlit("success Rebooted with a new ecosystem file. Don't forget to make a backup: fpm backup"); }
                assert(response_text(r) =~= outcome_text(self));
                r
            },
            Outcome::NewConfigMissing => {
                let r = failure("Couldn't get new ecosystem file");
                proof { reveal_strlit("Couldn't get new ecosystem file"); reveal_strlit("error Couldn't get new ecosystem file"); }
                assert(response_text(r) =~= outcome_text(self));
                r
            },
            Outcome::BackupSaved => {
                let r = success("Backup saved successfully");
                proof { reveal_strlit("Backup saved successfully"); reveal_strlit("success Backup saved successfully"); }
                assert(response_text(r) =~= outcome_text(self));
                r
            },
            Outcome::BackupFailed => {
                let r = failure("An error occurred while saving the backup");
                proof { reveal_strlit("An error occurred while saving the backup"); reveal_strlit("error An error occurred while saving the backup"); }
                assert(response_text(r) =~= outcome_text(self));
                r
            },
            Outcome::StatusOfOneUnsupported => {
                let r = success("WIP! Contribute if you want!");
                proof { reveal_strlit("WIP! Contribute if you want!"); reveal_strlit("success WIP! Contribute if you want!"); }
                assert(response_text(r) =~= outcome_text(self));
                r
            },
            Outcome::UnknownCommand => {
                let r = failure("Unknown command");
                proof { reveal_strlit("Unknown command"); reveal_strlit("error Unknown command"); }
                assert(response_text(r) =~= outcome_text(self));
                r
            },
            Outcome::NoCommand => {
                let r = failure("The command was not found");
                proof { reveal_strlit("The command was not found"); reveal_strlit("error The command was not found"); }
                assert(response_text(r) =~= outcome_text(self));
                r
            },
            Outcome::IdsExhausted => {
                let r = failure("No identifier is left");
                proof { reveal_strlit("No identifier is left"); reveal_strlit("error No identifier is left"); }
                assert(response_text(r) =~= outcome_text(self));
                r
            },
        }
    }
}

/// What a start request does with a process it found.
#[derive(Clone, Copy, Debug, PartialEq, Eq, Structural)]
pub enum StartDecision {
    /// A child is tracked and alive: nothing is spawned.
    AlreadyStarted,
    /// The lifecycle controller is to be started.
    Launch,
}

pub open spec fn spec_start_decision(s: ProcessState, os_process_alive: bool) -> StartDecision {
    if s.uid.is_some() && os_process_alive {
        StartDecision::AlreadyStarted
    } else {
        StartDecision::Launch
    }
}

/// The decision of a start request on a process it found; `os_process_alive`
/// tells whether the tracked OS process, if any, still exists.
pub fn decide_start(state: &ProcessState, os_process_alive: bool) -> (r: StartDecision)
    ensures
        r == spec_start_decision(*state, os_process_alive),
{
    if state.is_running(os_process_alive) {
        StartDecision::AlreadyStarted
    } else {
        StartDecision::Launch
    }
}

/// The outcome a start request reports for a process it found.
pub fn start_outcome(d: StartDecision) -> (r: Outcome)
    ensures
        d == StartDecision::AlreadyStarted ==> r == Outcome::AlreadyStarted,
        d == StartDecision::Launch ==> r == Outcome::Started,
{
    match d {
        StartDecision::AlreadyStarted => Outcome::AlreadyStarted,
        StartDecision::Launch => Outcome::Started,
    }
}

/// Starting a process that is already running, however it was located,
/// is a no-op answered "already started": no launch is decided, and the
/// lifecycle controller's guard would not spawn a second child either.
pub proof fn lemma_start_running_is_noop(s: ProcessState, os_process_alive: bool)
    requires
        s.uid.is_some(),
        os_process_alive,
    ensures
        spec_start_decision(s, os_process_alive) == StartDecision::AlreadyStarted,
        s.should_stop || (s.uid.is_some() && os_process_alive),
{
}

} // verus!
