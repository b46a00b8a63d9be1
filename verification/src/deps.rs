//! The dependency-resolution job: its log header, the cleaning of the
//! pinned lockfile the pinning tool writes, and the result line
//! recorded on success.

use crate::json::quoted;
use crate::json::append_quoted;
use crate::model::JobError;
use crate::model::QueuedJob;
use crate::text::join_with;
use crate::text::split_lines;
use crate::text::split_lines_spec;
use vstd::prelude::*;
use vstd::string::StrSliceExecFns;
use vstd::string::StringExecFns;

verus! {

/// The whitespace a lockfile line may begin with before its first
/// meaningful character: the characters with the Unicode White_Space
/// property.
pub open spec fn is_ws(c: char) -> bool {
    ||| c == '\u{9}'
    ||| c == '\u{a}'
    ||| c == '\u{b}'
    ||| c == '\u{c}'
    ||| c == '\u{d}'
    ||| c == ' '
    ||| c == '\u{85}'
    ||| c == '\u{a0}'
    ||| c == '\u{1680}'
    ||| ('\u{2000}' <= c && c <= '\u{200a}')
    ||| c == '\u{2028}'
    ||| c == '\u{2029}'
    ||| c == '\u{202f}'
    ||| c == '\u{205f}'
    ||| c == '\u{3000}'
}

/// Whether a line is a comment: its first character past leading
/// whitespace is `#`.  A blank line is no comment.
pub open spec fn comment_line_spec(l: Seq<char>) -> bool
    decreases l.len(),
{
    if l.len() == 0 {
        false
    } else if is_ws(l[0]) {
        comment_line_spec(l.skip(1))
    } else {
        l[0] == '#'
    }
}

proof fn lemma_comment_skip(l: Seq<char>, i: int)
    requires
        0 <= i <= l.len(),
        forall|j: int| 0 <= j < i ==> is_ws(l[j]),
    ensures
        comment_line_spec(l) == comment_line_spec(l.skip(i)),
    decreases i,
{
    if i > 0 {
        assert(is_ws(l[0]));
        assert forall|j: int| 0 <= j < i - 1 implies is_ws(l.skip(1)[j]) by {
            assert(l.skip(1)[j] == l[j + 1]);
        }
        lemma_comment_skip(l.skip(1), i - 1);
        assert(l.skip(1).skip(i - 1) =~= l.skip(i));
    } else {
        assert(l.skip(0) =~= l);
    }
}

fn is_ws_char(c: char) -> (r: bool)
    ensures
        r == is_ws(c),
{
    c == '\u{9}' || c == '\u{a}' || c == '\u{b}' || c == '\u{c}' || c == '\u{d}' || c == ' '
        || c == '\u{85}' || c == '\u{a0}' || c == '\u{1680}' || ('\u{2000}' <= c && c
        <= '\u{200a}') || c == '\u{2028}' || c == '\u{2029}' || c == '\u{202f}' || c == '\u{205f}'
        || c == '\u{3000}'
}

/// Whether the line's first character past leading whitespace is `#`.
pub fn is_comment_line(l: &str) -> (r: bool)
    ensures
        r == comment_line_spec(l@),
{
    let n = l.unicode_len();
    let mut i: usize = 0;
    while i < n && is_ws_char(l.get_char(i))
        invariant
            0 <= i <= n,
            n == l@.len(),
            forall|j: int| 0 <= j < i ==> is_ws(l@[j]),
        decreases n - i,
    {
        i += 1;
    }
    proof {
        lemma_comment_skip(l@, i as int);
    }
    if i == n {
        proof {
            assert(l@.skip(i as int) =~= Seq::<char>::empty());
        }
        false
    } else {
        let c = l.get_char(i);
        proof {
            assert(l@.skip(i as int)[0] == l@[i as int]);
            assert(!is_ws(l@[i as int]));
        }
        c == '#'
    }
}

/// The lines that stay after dropping comments, in order.
pub open spec fn kept_lines(lines: Seq<Seq<char>>) -> Seq<Seq<char>>
    decreases lines,
{
    if lines.len() == 0 {
        Seq::empty()
    } else if comment_line_spec(lines.last()) {
        kept_lines(lines.drop_last())
    } else {
        kept_lines(lines.drop_last()).push(lines.last())
    }
}

/// The lockfile as stored: the tool's output with comment lines
/// dropped and the rest joined with newlines.
pub open spec fn cleaned_lock_spec(content: Seq<char>) -> Seq<char> {
    join_with(kept_lines(split_lines_spec(content)), "\n"@)
}

/// Cleans the pinning tool's output for storing: every line whose
/// first meaningful character is `#` is dropped, the rest stay in
/// order, joined with newlines.
pub fn clean_lockfile(content: &str) -> (r: String)
    ensures
        r@ == cleaned_lock_spec(content@),
{
    let lines = split_lines(content);
    let mut tail: Vec<String> = Vec::new();
    let mut i: usize = 0;
    while i < lines.len()
        invariant
            0 <= i <= lines@.len(),
            lines.deep_view().len() == lines@.len(),
            tail.deep_view() == kept_lines(lines.deep_view().take(i as int)),
        decreases lines@.len() - i,
    {
        let ghost pre = tail.deep_view();
        let keep = !is_comment_line(lines[i].as_str());
        if keep {
            tail.push(lines[i].clone());
        }
        proof {
            assert(lines.deep_view().take(i + 1).drop_last() =~= lines.deep_view().take(i as int));
            assert(lines.deep_view().take(i + 1).last() == lines@[i as int]@);
            if keep {
                assert(tail.deep_view() =~= pre.push(lines@[i as int]@));
            }
        }
        i += 1;
    }
    proof {
        assert(lines.deep_view().take(lines.deep_view().len() as int) =~= lines.deep_view());
        assert(lines.deep_view() == split_lines_spec(content@));
    }
    crate::text::join_strings(&tail, "\n")
}

/// The result line recorded when lock generation succeeded, with the
/// cleaned lockfile as a JSON string.
pub open spec fn lock_success_text(lock: Seq<char>) -> Seq<char> {
    "{ \"success\": \"Successful lock file generation\", \"lock\": "@ + quoted(lock) + " }"@
}

/// Renders the result line recorded when lock generation succeeded.
pub fn lock_success_line(lock: &str) -> (r: String)
    ensures
        r@ == lock_success_text(lock@),
{
    let mut out = String::from_str(
        "{ \"success\": \"Successful lock file generation\", \"lock\": ",
    );
    append_quoted(lock, &mut out);
    out.append(" }");
    proof {
        assert(out@ =~= lock_success_text(lock@));
    }
    out
}

/// The log header written before the tool runs, showing the
/// requirements worked from.
pub open spec fn requirements_header_text(req: Seq<char>) -> Seq<char> {
    "content of requirements:\n"@ + req + "\n"@
}

/// Renders the log header for a dependency job.
pub fn requirements_header(req: &str) -> (r: String)
    ensures
        r@ == requirements_header_text(req@),
{
    let mut out = String::from_str("content of requirements:\n");
    out.append(req);
    out.append("\n");
    proof {
        assert(out@ =~= requirements_header_text(req@));
    }
    out
}

/// The requirements a dependency job works from: its inline code.  A
/// dependency job without one cannot run.
pub fn dependency_requirements(job: &QueuedJob) -> (r: Result<&String, JobError>)
    ensures
        match r {
            Result::Ok(req) => job.raw_code == Option::Some(*req),
            Result::Err(e) => job.raw_code is None && e is ExecutionErr
                && e->ExecutionErr_0@ == "missing requirements"@,
        },
{
    match &job.raw_code {
        Option::Some(req) => Result::Ok(req),
        Option::None => Result::Err(
            JobError::ExecutionErr(String::from_str("missing requirements")),
        ),
    }
}

} // verus!
