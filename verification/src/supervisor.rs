//! Bookkeeping for one supervised child process: the job's log text
//! with its hard cap, the last streamed line, periodic flushing, and
//! the cancellation and timeout rules.
//!
//! The surrounding process runs four cooperating tasks per child — a
//! waiter, a line streamer, a liveness pinger and the flush loop.
//! Everything those tasks decide is here: the streamer screens each
//! line through [`screen_line`], the flush loop feeds lines to
//! [`SupervisorState::on_line`], flushes through
//! [`SupervisorState::tick_flush`], folds in the externally observed
//! cancel flag with [`SupervisorState::observe_cancel`], and asks
//! [`timeout_exceeded`] whether to cancel for overrun.  Once
//! [`SupervisorState::done`] is set, the child is to be killed and no
//! further line is processed.

use crate::model::MAX_LOG_SIZE;
use crate::text::int_dec_of;
use crate::text::i32_to_string;
use vstd::prelude::*;
use vstd::string::StrSliceExecFns;
use vstd::string::StringExecFns;

verus! {

/// How often the liveness pinger refreshes the job's last ping, in
/// seconds.
pub const JOB_PING_PERIOD_SECS: u64 = 5;

/// How often the flush loop wakes to write the log out and read the
/// cancel flag, in milliseconds.  This cadence bounds how long a
/// cancellation goes unobserved.
pub const FLUSH_PERIOD_MS: u64 = 500;

/// The line that replaces one longer than the cap.
pub open spec fn line_too_big_text() -> Seq<char> {
    "Line is too big"@
}

/// The terminal message appended when the accumulated log crosses the
/// cap.
pub open spec fn overflow_text() -> Seq<char> {
    "Too many logs lines. Limit is 50000 chars. Killing job."@
}

/// Who a timeout cancellation is attributed to.
pub open spec fn timeout_canceled_by_text() -> Seq<char> {
    "timeout"@
}

/// The reason recorded for a timeout cancellation.
pub open spec fn timeout_reason_text(timeout: int) -> Seq<char> {
    "duration > "@ + int_dec_of(timeout)
}

/// What the streamer forwards for a read line, and whether it must
/// stop streaming: a line over the cap is replaced by a fixed message
/// and ends the run.
pub open spec fn screen_line_spec(line: Seq<char>) -> (Seq<char>, bool) {
    if line.len() > MAX_LOG_SIZE as nat {
        (line_too_big_text(), true)
    } else {
        (line, false)
    }
}

/// Screens one line read from the child, as the log streamer does:
/// the forwarded text and whether streaming must stop.
pub fn screen_line(line: String) -> (r: (String, bool))
    ensures
        (r.0@, r.1) == screen_line_spec(line@),
        r.0@.len() <= MAX_LOG_SIZE as nat,
{
    proof {
        reveal_strlit("Line is too big");
    }
    if line.as_str().unicode_len() > MAX_LOG_SIZE {
        (String::from_str("Line is too big"), true)
    } else {
        (line, false)
    }
}

/// The log state of one supervised child run.
pub struct SupervisorState {
    /// The job's log so far, the earlier phases' text included.
    pub logs: String,
    /// The most recent line from either stream.
    pub last_line: String,
    /// How many characters of `logs` have already been written out.
    pub flushed: usize,
    /// Whether the run is over: the child exited, was canceled, timed
    /// out, or logged past the cap.
    pub done: bool,
}

impl SupervisorState {
    /// The flush mark never passes the end of the log.
    pub open spec fn wf(&self) -> bool {
        self.flushed as nat <= self.logs@.len()
    }

    /// Starts supervising with the log and last line handed over from
    /// the earlier phases; nothing of the existing text is flushed
    /// again.
    pub fn begin(logs: String, last_line: String) -> (s: Self)
        ensures
            s.wf(),
            s.logs == logs,
            s.last_line == last_line,
            s.flushed as nat == logs@.len(),
            !s.done,
    {
        let flushed = logs.as_str().unicode_len();
        SupervisorState { logs, last_line, flushed, done: false }
    }

    /// Hands the log and the last line back when the run is over.
    pub fn into_parts(self) -> (r: (String, String))
        ensures
            r.0 == self.logs,
            r.1 == self.last_line,
    {
        (self.logs, self.last_line)
    }

    /// Takes one line from the streamer, as the flush loop does on a
    /// channel receive.  A log already over the cap takes the terminal
    /// message instead and ends the run; otherwise the line is
    /// appended after a newline and becomes the last line.  The log
    /// only ever grows.
    pub fn on_line(&mut self, line: &String)
        requires
            old(self).wf(),
        ensures
            final(self).wf(),
            final(self).flushed == old(self).flushed,
            old(self).logs@.is_prefix_of(final(self).logs@),
            old(self).logs@.len() > MAX_LOG_SIZE as nat ==> {
                &&& final(self).logs@ == old(self).logs@ + overflow_text()
                &&& final(self).done
                &&& final(self).last_line == old(self).last_line
            },
            old(self).logs@.len() <= MAX_LOG_SIZE as nat ==> {
                &&& final(self).logs@ == old(self).logs@ + "\n"@ + line@
                &&& final(self).done == old(self).done
                &&& final(self).last_line@ == line@
            },
            ({
                let after = receive_spec(
                    LogRun {
                        logs: old(self).logs@,
                        last_line: old(self).last_line@,
                        done: old(self).done,
                    },
                    line@,
                );
                final(self).logs@ == after.logs && final(self).last_line@ == after.last_line
                    && final(self).done == after.done
            }),
    {
        if self.logs.as_str().unicode_len() > MAX_LOG_SIZE {
            self.logs.append("Too many logs lines. Limit is 50000 chars. Killing job.");
            self.done = true;
            proof {
                assert(final(self).logs@ =~= old(self).logs@ + overflow_text());
                assert(old(self).logs@.is_prefix_of(final(self).logs@));
            }
        } else {
            self.logs.append("\n");
            self.logs.append(line.as_str());
            self.last_line = line.clone();
            proof {
                assert(final(self).logs@ =~= old(self).logs@ + "\n"@ + line@);
                assert(old(self).logs@.is_prefix_of(final(self).logs@));
            }
        }
    }

    /// The text to write out on a flush tick: everything appended
    /// since the last flush.  Afterwards the whole log counts as
    /// flushed.  The log itself does not change.
    pub fn tick_flush(&mut self) -> (to_send: String)
        requires
            old(self).wf(),
        ensures
            final(self).wf(),
            to_send@ == old(self).logs@.skip(old(self).flushed as int),
            final(self).logs == old(self).logs,
            final(self).last_line == old(self).last_line,
            final(self).done == old(self).done,
            final(self).flushed as nat == final(self).logs@.len(),
    {
        let end = self.logs.as_str().unicode_len();
        let piece = self.logs.as_str().substring_char(self.flushed, end);
        let out = String::from_str(piece);
        self.flushed = end;
        proof {
            assert(out@ =~= old(self).logs@.skip(old(self).flushed as int));
        }
        out
    }

    /// Folds in the cancel flag read from the queue: a canceled job
    /// ends the run; nothing else changes.
    pub fn observe_cancel(&mut self, canceled: bool)
        requires
            old(self).wf(),
        ensures
            final(self).wf(),
            final(self).done == (old(self).done || canceled),
            final(self).logs == old(self).logs,
            final(self).last_line == old(self).last_line,
            final(self).flushed == old(self).flushed,
    {
        if canceled {
            self.done = true;
        }
    }

}

/// Law: the flushes reconstruct the log exactly.  When everything
/// written out so far equals the log up to the flush mark, one more
/// flush — which [`SupervisorState::tick_flush`] promises hands out
/// precisely the text past the mark — extends what was written to the
/// whole log.  So the queue's copy, the concatenation of the flushed
/// pieces, is always a prefix of the in-memory log, and the whole of
/// it after the final flush.
pub proof fn lemma_flush_reconstructs(
    written: Seq<char>,
    logs: Seq<char>,
    flushed: int,
    sent: Seq<char>,
)
    requires
        0 <= flushed <= logs.len(),
        written == logs.take(flushed),
        sent == logs.skip(flushed),
    ensures
        written + sent == logs,
{
    assert(written + sent =~= logs);
}

/// The ghost view of a supervised run: the log, the last line, and
/// whether the run is over.
pub struct LogRun {
    pub logs: Seq<char>,
    pub last_line: Seq<char>,
    pub done: bool,
}

/// What one received line does to a run, exactly as
/// [`SupervisorState::on_line`] does it.
pub open spec fn receive_spec(m: LogRun, line: Seq<char>) -> LogRun {
    if m.logs.len() > MAX_LOG_SIZE as nat {
        LogRun { logs: m.logs + overflow_text(), last_line: m.last_line, done: true }
    } else {
        LogRun { logs: m.logs + "\n"@ + line, last_line: line, done: m.done }
    }
}

/// A whole run: every line the child emits is screened and received
/// in turn, until the run is over.
pub open spec fn replay(m: LogRun, lines: Seq<Seq<char>>) -> LogRun
    decreases lines.len(),
{
    if lines.len() == 0 || m.done {
        m
    } else {
        replay(receive_spec(m, screen_line_spec(lines[0]).0), lines.skip(1))
    }
}

/// Law: over any run, from any starting state, the log grows
/// monotonically, and its final length stays within the cap plus one
/// screened line, one newline and one terminal message — however many
/// lines the child emits and however long each is.  (A log handed
/// over already longer than that bound takes at most one terminal
/// message more.)
pub proof fn lemma_log_growth_and_cap(m: LogRun, lines: Seq<Seq<char>>)
    ensures
        m.logs.is_prefix_of(replay(m, lines).logs),
        m.done ==> replay(m, lines) == m,
        replay(m, lines).logs.len() <= (if m.logs.len() <= 2 * (MAX_LOG_SIZE as nat) + 1 {
            2 * (MAX_LOG_SIZE as nat) + 1
        } else {
            m.logs.len()
        }) + overflow_text().len(),
    decreases lines.len(),
{
    reveal_strlit("Line is too big");
    reveal_strlit("\n");
    if lines.len() == 0 || m.done {
    } else {
        let screened = screen_line_spec(lines[0]).0;
        assert(screened.len() <= MAX_LOG_SIZE as nat);
        let m1 = receive_spec(m, screened);
        lemma_log_growth_and_cap(m1, lines.skip(1));
        assert(m.logs.is_prefix_of(m1.logs));
    }
}

/// Whether the wall clock has passed the job's timeout: more than
/// `timeout` whole seconds elapsed since `started_at`.  A job with no
/// start time never times out.
pub open spec fn timeout_exceeded_spec(started_at: Option<i64>, now_ms: i64, timeout: i32) -> bool {
    match started_at {
        Option::Some(sa) => now_ms - sa >= 1000 * (timeout + 1),
        Option::None => false,
    }
}

/// Decides whether to cancel the job for overrun, as the flush loop
/// does on each tick.  Times are milliseconds since the epoch.
pub fn timeout_exceeded(started_at: Option<i64>, now_ms: i64, timeout: i32) -> (r: bool)
    requires
        0 <= now_ms < 0x4000000000000000,
        match started_at {
            Option::Some(sa) => 0 <= sa < 0x4000000000000000,
            Option::None => true,
        },
        0 <= timeout,
    ensures
        r == timeout_exceeded_spec(started_at, now_ms, timeout),
{
    match started_at {
        Option::Some(sa) => {
            let bound: i64 = 1000 * ((timeout as i64) + 1);
            now_ms - sa >= bound
        },
        Option::None => false,
    }
}

/// Who a timeout cancellation is attributed to.
pub fn timeout_canceled_by() -> (r: &'static str)
    ensures
        r@ == timeout_canceled_by_text(),
{
    "timeout"
}

/// The reason recorded when the supervisor cancels for overrun.
pub fn timeout_reason(timeout: i32) -> (r: String)
    ensures
        r@ == timeout_reason_text(timeout as int),
{
    let mut out = String::from_str("duration > ");
    let t = i32_to_string(timeout);
    out.append(t.as_str());
    proof {
        assert(out@ =~= timeout_reason_text(timeout as int));
    }
    out
}

/// The error reported when the child is killed before exiting on its
/// own.
pub fn interrupted_message() -> (r: String)
    ensures
        r@ == "execution interrupted"@,
{
    String::from_str("execution interrupted")
}

} // verus!
