//! What becomes of a job once its child has run: a successful exit
//! yields the last streamed line as the job's JSON result, an exit in
//! failure yields an execution error carrying the last log lines, and
//! an earlier failure is passed through with its own wording.

use crate::model::JobError;
use crate::text::join_with;
use crate::text::join_strings;
use crate::text::split_lines;
use crate::text::split_lines_spec;
use vstd::prelude::*;
use vstd::string::StringExecFns;

verus! {

/// Whether `s` is a well-formed JSON document, as the JSON parser
/// accepts it.
pub uninterp spec fn is_json(s: Seq<char>) -> bool;

/// Relies on `serde_json::from_str::<serde_json::Value>`: parsing
/// self-describing JSON text succeeds exactly on well-formed JSON, and
/// whether it succeeds depends on the text alone.  The message handed
/// back on failure is the parser's own wording.
#[verifier::external_body]
fn check_json(s: &str) -> (r: Option<String>)
    ensures
        r is None <==> is_json(s@),
{
    match serde_json::from_str::<serde_json::Value>(s) {
        Ok(_) => None,
        Err(e) => Some(e.to_string()),
    }
}

/// The last lines of the log, at most five, joined with newlines.
pub open spec fn last_lines_text(logs: Seq<char>) -> Seq<char> {
    let lines = split_lines_spec(logs);
    let start: int = if lines.len() > 5 {
        lines.len() - 5
    } else {
        0
    };
    join_with(lines.skip(start), "\n"@)
}

/// The message of the error reported when the child exits in failure.
pub open spec fn exec_error_text(logs: Seq<char>) -> Seq<char> {
    "Error during execution of the script\nlast 5 logs lines:\n"@ + last_lines_text(logs)
}

/// The marker appended to the log when the child exits in failure.
pub open spec fn error_marker_text() -> Seq<char> {
    "\n\n--- ERROR ---\n"@
}

/// The start of the message reported when the last line is not JSON.
pub open spec fn not_parsable_prefix(last_line: Seq<char>) -> Seq<char> {
    "result "@ + last_line + " is not parsable.\n err: "@
}

/// The message of the error reported when the child never ran.
pub open spec fn before_termination_text(m: Seq<char>) -> Seq<char> {
    "error before termination: "@ + m
}

/// Interprets a finished run.  `status` holds whether the child
/// exited successfully, or the error that kept it from terminating on
/// its own.  On success the last streamed line must be JSON and is
/// the job's result; otherwise the job fails with an execution error,
/// and an exit in failure also marks the log.
pub fn interpret_result(status: &Result<bool, JobError>, last_line: &String, logs: &mut String)
    -> (r: Result<String, JobError>)
    ensures
        match status {
            Result::Ok(true) => {
                &&& is_json(last_line@) ==> r == Result::<String, JobError>::Ok(*last_line)
                &&& !is_json(last_line@) ==> {
                    &&& r is Err
                    &&& r->Err_0 is ExecutionErr
                    &&& not_parsable_prefix(last_line@).is_prefix_of(
                        r->Err_0->ExecutionErr_0@,
                    )
                }
                &&& *final(logs) == *old(logs)
            },
            Result::Ok(false) => {
                &&& r is Err
                &&& r->Err_0 is ExecutionErr
                &&& r->Err_0->ExecutionErr_0@ == exec_error_text(old(logs)@)
                &&& final(logs)@ == old(logs)@ + error_marker_text()
            },
            Result::Err(e) => {
                &&& r is Err
                &&& r->Err_0 is ExecutionErr
                &&& r->Err_0->ExecutionErr_0@ == before_termination_text(e.message_spec())
                &&& *final(logs) == *old(logs)
            },
        },
        r is Ok ==> status == Result::<bool, JobError>::Ok(true) && is_json(last_line@),
        old(logs)@.is_prefix_of(final(logs)@),
{
    match status {
        Result::Ok(true) => {
            match check_json(last_line.as_str()) {
                Option::None => Result::Ok(last_line.clone()),
                Option::Some(e) => {
                    let mut m = String::from_str("result ");
                    m.append(last_line.as_str());
                    m.append(" is not parsable.\n err: ");
                    let ghost pre = m@;
                    m.append(e.as_str());
                    proof {
                        assert(pre =~= not_parsable_prefix(last_line@));
                        assert(pre.is_prefix_of(m@)) by {
                            assert(m@.subrange(0, pre.len() as int) =~= pre);
                        }
                    }
                    Result::Err(JobError::ExecutionErr(m))
                },
            }
        },
        Result::Ok(false) => {
            let lines = split_lines(logs.as_str());
            let n = lines.len();
            let start: usize = if n > 5 {
                n - 5
            } else {
                0
            };
            let mut tail: Vec<String> = Vec::new();
            let mut i: usize = start;
            while i < n
                invariant
                    start <= i <= n,
                    n == lines@.len(),
                    tail@.len() == i - start,
                    forall|k: int| 0 <= k < i - start ==> tail@[k] == #[trigger] lines@[
                        start + k
                    ],
                decreases n - i,
            {
                tail.push(lines[i].clone());
                i += 1;
            }
            proof {
                assert forall|k: int| 0 <= k < tail.deep_view().len() implies tail.deep_view()[k]
                    == lines.deep_view().skip(start as int)[k] by {
                    assert(tail@[k] == lines@[start + k]);
                }
                assert(tail.deep_view() =~= lines.deep_view().skip(start as int));
            }
            let joined = join_strings(&tail, "\n");
            let mut m = String::from_str("Error during execution of the script\nlast 5 logs lines:\n");
            m.append(joined.as_str());
            proof {
                assert(m@ =~= exec_error_text(logs@));
            }
            logs.append("\n\n--- ERROR ---\n");
            proof {
                assert(old(logs)@.is_prefix_of(final(logs)@)) by {
                    assert(final(logs)@.subrange(0, old(logs)@.len() as int) =~= old(logs)@);
                }
            }
            Result::Err(JobError::ExecutionErr(m))
        },
        Result::Err(e) => {
            let mut m = String::from_str("error before termination: ");
            m.append(e.message().as_str());
            proof {
                assert(m@ =~= before_termination_text(e.message_spec()));
            }
            Result::Err(JobError::ExecutionErr(m))
        },
    }
}

} // verus!
