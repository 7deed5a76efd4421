//! The decoded login-accounting record and its classification.

use vstd::prelude::*;
use vstd::string::StringExecFns;

use crate::timefmt::{Timestamp, wf_timestamp};

verus! {

/// One decoded login-accounting entry, immutable once built.
#[derive(Clone, Debug)]
pub struct Record {
    /// Account name; empty for a dead-process entry.
    pub user: String,
    /// Terminal line; the key that ties a login to its later logout.
    pub tty_device: String,
    /// Origin host or kernel information, possibly empty.
    pub host: String,
    /// Process id; for a run-level record, `pid % 256` is the target level.
    pub pid: i32,
    /// The instant of the record.
    pub login_time: Timestamp,
    /// Whether the source marked the entry as an active user login.
    pub is_user_process: bool,
}

/// The mathematical image of a record.
pub struct RecordView {
    pub user: Seq<char>,
    pub tty_device: Seq<char>,
    pub host: Seq<char>,
    pub pid: int,
    pub login_time: Timestamp,
    pub is_user_process: bool,
}

impl View for Record {
    type V = RecordView;

    open spec fn view(&self) -> RecordView {
        RecordView {
            user: self.user@,
            tty_device: self.tty_device@,
            host: self.host@,
            pid: self.pid as int,
            login_time: self.login_time,
            is_user_process: self.is_user_process,
        }
    }
}

impl DeepView for Record {
    type V = RecordView;

    open spec fn deep_view(&self) -> RecordView {
        self.view()
    }
}

pub open spec fn wf_record(r: RecordView) -> bool {
    wf_timestamp(r.login_time)
}

/// What a record stands for in the report.
#[derive(PartialEq, Eq, Structural, Clone, Copy, Debug)]
pub enum RecordKind {
    UserSession,
    RunLevelChange,
    Shutdown,
    Reboot,
    DeadProcess,
    Other,
}

/// Classifies a record into exactly one kind, from its fields alone: an
/// active login wins; otherwise the reserved account names mark run-level,
/// shutdown and reboot entries; an empty account name marks a dead process;
/// anything else is ignored.
pub open spec fn spec_classify(r: RecordView) -> RecordKind {
    if r.is_user_process {
        RecordKind::UserSession
    } else if r.user == "runlevel"@ {
        RecordKind::RunLevelChange
    } else if r.user == "shutdown"@ {
        RecordKind::Shutdown
    } else if r.user == "reboot"@ {
        RecordKind::Reboot
    } else if r.user.len() == 0 {
        RecordKind::DeadProcess
    } else {
        RecordKind::Other
    }
}

pub fn classify(r: &Record) -> (k: RecordKind)
    ensures
        k == spec_classify(r@),
{
    if r.is_user_process {
        RecordKind::UserSession
    } else if r.user == String::from_str("runlevel") {
        RecordKind::RunLevelChange
    } else if r.user == String::from_str("shutdown") {
        RecordKind::Shutdown
    } else if r.user == String::from_str("reboot") {
        RecordKind::Reboot
    } else if r.user.as_str().is_empty() {
        RecordKind::DeadProcess
    } else {
        RecordKind::Other
    }
}

} // verus!
