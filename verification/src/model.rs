//! The data model of the queue as the worker sees it: job kinds,
//! script languages, the error kinds the worker distinguishes, and the
//! leased job row with the fields the worker reads.

use crate::json::JsonValue;
use vstd::prelude::*;

verus! {

/// Hard cap on the characters a job may log; crossing it is terminal.
pub const MAX_LOG_SIZE: usize = 50000;

/// The kind of a leased queue row.
#[derive(Clone, Copy, PartialEq, Eq, Debug, Structural)]
pub enum JobKind {
    Script,
    Preview,
    ScriptHub,
    Dependencies,
    Flow,
    FlowPreview,
}

/// The language of a script job; flows carry no language.
#[derive(Clone, Copy, PartialEq, Eq, Debug, Structural)]
pub enum ScriptLang {
    Python3,
    Deno,
}

impl ScriptLang {
    /// The label the metrics use for this language.
    pub fn as_str(&self) -> (r: &'static str)
        ensures
            self is Python3 ==> r@ == "python3"@,
            self is Deno ==> r@ == "deno"@,
    {
        match self {
            ScriptLang::Python3 => "python3",
            ScriptLang::Deno => "deno",
        }
    }
}

/// The declared type of one entrypoint parameter, as far as the
/// worker's transforms care: raw bytes and timestamps are decoded
/// before the call, everything else is passed as it came.
#[derive(Clone, Copy, PartialEq, Eq, Debug, Structural)]
pub enum ParamTyp {
    Bytes,
    Datetime,
    Other,
}

/// A leased queue row, with the fields the worker reads.  Timestamps
/// are milliseconds since the epoch.
pub struct QueuedJob {
    pub id: String,
    pub workspace_id: String,
    pub parent_job: Option<String>,
    pub created_by: String,
    pub permissioned_as: String,
    pub job_kind: JobKind,
    pub language: Option<ScriptLang>,
    pub script_hash: Option<i64>,
    pub script_path: Option<String>,
    pub schedule_path: Option<String>,
    pub raw_code: Option<String>,
    pub args: Option<JsonValue>,
    pub is_flow_step: bool,
    pub started_at: Option<i64>,
    pub canceled: bool,
}

/// The error kinds the worker distinguishes.  User-code failures are
/// `ExecutionErr`; invariant violations and missing required data are
/// `InternalErr`.
#[derive(Clone, PartialEq, Eq, Debug)]
pub enum JobError {
    InternalErr(String),
    ExecutionErr(String),
}

impl JobError {
    /// The message carried by the error, whichever kind it is.
    pub fn message(&self) -> (r: &String)
        ensures
            r@ == self.message_spec(),
    {
        match self {
            JobError::InternalErr(m) => m,
            JobError::ExecutionErr(m) => m,
        }
    }

    /// What `message` returns.
    pub open spec fn message_spec(&self) -> Seq<char> {
        match self {
            JobError::InternalErr(m) => m@,
            JobError::ExecutionErr(m) => m@,
        }
    }
}

} // verus!
