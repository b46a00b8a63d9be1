//! Verified text helpers the worker's rules are written with: decimal
//! rendering of integers, prefix tests, line splitting and joining.

use vstd::prelude::*;
use vstd::string::StrSliceExecFns;
use vstd::string::StringExecFns;

verus! {

/// The decimal digit `d` as a character.
pub open spec fn digit_char(d: nat) -> char {
    if d == 0 {
        '0'
    } else if d == 1 {
        '1'
    } else if d == 2 {
        '2'
    } else if d == 3 {
        '3'
    } else if d == 4 {
        '4'
    } else if d == 5 {
        '5'
    } else if d == 6 {
        '6'
    } else if d == 7 {
        '7'
    } else if d == 8 {
        '8'
    } else {
        '9'
    }
}

/// The decimal rendering of a natural number, most significant digit
/// first, with no leading zeros (except for zero itself).
pub open spec fn dec_of(n: nat) -> Seq<char>
    decreases n,
{
    if n < 10 {
        seq![digit_char(n)]
    } else {
        dec_of(n / 10).push(digit_char(n % 10))
    }
}

/// The decimal rendering of an integer: a minus sign before the
/// magnitude when negative.
pub open spec fn int_dec_of(n: int) -> Seq<char> {
    if n < 0 {
        seq!['-'] + dec_of((-n) as nat)
    } else {
        dec_of(n as nat)
    }
}

fn digit_str(d: u64) -> (r: &'static str)
    requires
        d < 10,
    ensures
        r@.len() == 1,
        r@[0] == digit_char(d as nat),
{
    proof {
        reveal_strlit("0");
        reveal_strlit("1");
        reveal_strlit("2");
        reveal_strlit("3");
        reveal_strlit("4");
        reveal_strlit("5");
        reveal_strlit("6");
        reveal_strlit("7");
        reveal_strlit("8");
        reveal_strlit("9");
    }
    match d {
        0 => "0",
        1 => "1",
        2 => "2",
        3 => "3",
        4 => "4",
        5 => "5",
        6 => "6",
        7 => "7",
        8 => "8",
        _ => "9",
    }
}

fn push_dec(n: u64, out: &mut String)
    ensures
        final(out)@ == old(out)@ + dec_of(n as nat),
    decreases n,
{
    if n >= 10 {
        push_dec(n / 10, out);
    }
    out.append(digit_str(n % 10));
    proof {
        if n >= 10 {
            assert(final(out)@ =~= old(out)@ + dec_of(n as nat));
        } else {
            assert(dec_of(n as nat) == seq![digit_char(n as nat)]);
            assert(final(out)@ =~= old(out)@ + dec_of(n as nat));
        }
    }
}

/// Renders `n` in decimal.
pub fn u64_to_string(n: u64) -> (r: String)
    ensures
        r@ == dec_of(n as nat),
{
    let mut s = String::new();
    push_dec(n, &mut s);
    proof {
        assert(s@ =~= dec_of(n as nat));
    }
    s
}

/// Renders `n` in decimal, with a leading minus sign when negative.
pub fn i64_to_string(n: i64) -> (r: String)
    ensures
        r@ == int_dec_of(n as int),
{
    let mut s = String::new();
    if n < 0 {
        proof {
            reveal_strlit("-");
        }
        s.append("-");
        let m: u64 = (-(n as i128)) as u64;
        push_dec(m, &mut s);
        proof {
            assert(s@ =~= int_dec_of(n as int));
        }
    } else {
        push_dec(n as u64, &mut s);
        proof {
            assert(s@ =~= int_dec_of(n as int));
        }
    }
    s
}

/// Renders `n` in decimal, with a leading minus sign when negative.
pub fn i32_to_string(n: i32) -> (r: String)
    ensures
        r@ == int_dec_of(n as int),
{
    i64_to_string(n as i64)
}

/// Whether `p` is a prefix of `s`, by characters.
pub fn has_prefix(s: &str, p: &str) -> (b: bool)
    ensures
        b == p@.is_prefix_of(s@),
{
    let n = p.unicode_len();
    let sn = s.unicode_len();
    if n > sn {
        return false;
    }
    let mut i: usize = 0;
    while i < n
        invariant
            0 <= i <= n,
            n == p@.len(),
            n <= sn == s@.len(),
            forall|j: int| 0 <= j < i ==> s@[j] == p@[j],
        decreases n - i,
    {
        if s.get_char(i) != p.get_char(i) {
            return false;
        }
        i += 1;
    }
    proof {
        assert(p@ =~= s@.subrange(0, p@.len() as int));
    }
    true
}

/// The index of the first occurrence of `c` in `s`, or `s.len()` when
/// `s` does not contain `c`.
pub open spec fn find_char(s: Seq<char>, c: char) -> int
    decreases s.len(),
{
    if s.len() == 0 {
        0
    } else if s[0] == c {
        0
    } else {
        1 + find_char(s.skip(1), c)
    }
}

pub proof fn lemma_find_char(s: Seq<char>, c: char)
    ensures
        0 <= find_char(s, c) <= s.len(),
        find_char(s, c) < s.len() ==> s[find_char(s, c)] == c,
        forall|j: int| 0 <= j < find_char(s, c) ==> s[j] != c,
    decreases s.len(),
{
    if s.len() > 0 && s[0] != c {
        lemma_find_char(s.skip(1), c);
        assert forall|j: int| 0 <= j < find_char(s, c) implies s[j] != c by {
            if j > 0 {
                assert(s.skip(1)[j - 1] != c);
            }
        }
    }
}

pub proof fn lemma_find_char_is(s: Seq<char>, c: char, i: int)
    requires
        0 <= i <= s.len(),
        i < s.len() ==> s[i] == c,
        forall|j: int| 0 <= j < i ==> s[j] != c,
    ensures
        find_char(s, c) == i,
{
    lemma_find_char(s, c);
    if find_char(s, c) < i {
        assert(s[find_char(s, c)] == c);
    }
}

/// A line with a final carriage return dropped: `"\r\n"` line endings
/// read the same as `"\n"`.
pub open spec fn strip_cr(l: Seq<char>) -> Seq<char> {
    if l.len() > 0 && l.last() == '\r' {
        l.drop_last()
    } else {
        l
    }
}

#[via_fn]
proof fn split_lines_spec_decreases(s: Seq<char>) {
    lemma_find_char(s, '\n');
}

/// The lines of `s`: segments separated by `'\n'` (a `'\r'` just
/// before the separator is dropped), with an optional final line
/// ending producing no empty last line.
pub open spec fn split_lines_spec(s: Seq<char>) -> Seq<Seq<char>>
    decreases s.len(),
        via split_lines_spec_decreases
{
    if s.len() == 0 {
        Seq::empty()
    } else {
        let i = find_char(s, '\n');
        if i == s.len() {
            seq![s]
        } else {
            seq![strip_cr(s.take(i))] + split_lines_spec(s.skip(i + 1))
        }
    }
}

/// Splits `s` into its lines.
pub fn split_lines(s: &str) -> (r: Vec<String>)
    ensures
        r.deep_view() == split_lines_spec(s@),
{
    let n = s.unicode_len();
    let mut r: Vec<String> = Vec::new();
    let mut pos: usize = 0;
    proof {
        assert(r.deep_view() =~= Seq::<Seq<char>>::empty());
        assert(s@.skip(0) =~= s@);
        assert(split_lines_spec(s@) =~= r.deep_view() + split_lines_spec(s@.skip(0)));
    }
    while pos < n
        invariant
            0 <= pos <= n,
            n == s@.len(),
            split_lines_spec(s@) == r.deep_view() + split_lines_spec(s@.skip(pos as int)),
        decreases n - pos,
    {
        let ghost rem = s@.skip(pos as int);
        // scan for the next newline
        let mut j: usize = pos;
        while j < n && s.get_char(j) != '\n'
            invariant
                pos <= j <= n,
                n == s@.len(),
                forall|k: int| pos <= k < j ==> s@[k] != '\n',
            decreases n - j,
        {
            j += 1;
        }
        proof {
            assert forall|k: int| 0 <= k < j - pos implies rem[k] != '\n' by {
                assert(rem[k] == s@[k + pos]);
            }
            if j < n {
                assert(rem[j - pos] == '\n');
            }
            lemma_find_char_is(rem, '\n', j - pos);
        }
        let ghost pre = r.deep_view();
        if j == n {
            // no further separator: the rest is the last line
            let line = s.substring_char(pos, n);
            r.push(String::from_str(line));
            proof {
                assert(line@ =~= rem);
                assert(split_lines_spec(rem) == seq![rem]);
                assert(r.deep_view() =~= pre.push(rem));
                assert(split_lines_spec(s@) =~= r.deep_view() + split_lines_spec(
                    s@.skip(n as int),
                ));
            }
            pos = n;
        } else {
            // the line ends just before `j`; drop a final '\r'
            let end = if j > pos && s.get_char(j - 1) == '\r' {
                j - 1
            } else {
                j
            };
            let line = s.substring_char(pos, end);
            r.push(String::from_str(line));
            proof {
                assert(rem.take(j - pos) =~= s@.subrange(pos as int, j as int));
                assert(line@ =~= strip_cr(rem.take(j - pos)));
                assert(rem.skip(j - pos + 1) =~= s@.skip(j + 1));
                assert(r.deep_view() =~= pre.push(line@));
                assert(split_lines_spec(s@) =~= r.deep_view() + split_lines_spec(
                    s@.skip(j + 1),
                ));
            }
            pos = j + 1;
        }
    }
    proof {
        assert(s@.skip(n as int) =~= Seq::<char>::empty());
        assert(split_lines_spec(s@) =~= r.deep_view());
    }
    r
}

/// The pieces of `v` joined with `sep` between consecutive pieces.
pub open spec fn join_with(v: Seq<Seq<char>>, sep: Seq<char>) -> Seq<char>
    decreases v.len(),
{
    if v.len() == 0 {
        Seq::empty()
    } else if v.len() == 1 {
        v[0]
    } else {
        v[0] + sep + join_with(v.skip(1), sep)
    }
}

pub proof fn lemma_join_push(a: Seq<Seq<char>>, x: Seq<char>, sep: Seq<char>)
    ensures
        a.len() == 0 ==> join_with(a.push(x), sep) == x,
        a.len() > 0 ==> join_with(a.push(x), sep) == join_with(a, sep) + sep + x,
    decreases a.len(),
{
    if a.len() == 0 {
        assert(join_with(a.push(x), sep) == a.push(x)[0]);
        assert(a.push(x)[0] == x);
    } else {
        lemma_join_push(a.skip(1), x, sep);
        assert(a.push(x).skip(1) =~= a.skip(1).push(x));
        if a.len() == 1 {
            assert(join_with(a.push(x), sep) == a[0] + sep + join_with(a.skip(1).push(x), sep));
            assert(a.skip(1).len() == 0);
            assert(join_with(a, sep) == a[0]);
        } else {
            assert(join_with(a.push(x), sep) == a[0] + sep + join_with(a.skip(1).push(x), sep));
            assert(a[0] + sep + (join_with(a.skip(1), sep) + sep + x) =~= (a[0] + sep
                + join_with(a.skip(1), sep)) + sep + x);
        }
    }
}

/// Joins the strings of `v` with `sep` between consecutive entries.
pub fn join_strings(v: &Vec<String>, sep: &str) -> (r: String)
    ensures
        r@ == join_with(v.deep_view(), sep@),
{
    let mut r = String::new();
    let mut i: usize = 0;
    while i < v.len()
        invariant
            0 <= i <= v.len(),
            r@ == join_with(v.deep_view().take(i as int), sep@),
        decreases v.len() - i,
    {
        if i > 0 {
            r.append(sep);
        }
        r.append(v[i].as_str());
        proof {
            let pre = v.deep_view().take(i as int);
            lemma_join_push(pre, v.deep_view()[i as int], sep@);
            assert(v.deep_view().take(i + 1) =~= pre.push(v.deep_view()[i as int]));
        }
        i += 1;
    }
    proof {
        assert(v.deep_view().take(v.deep_view().len() as int) =~= v.deep_view());
    }
    r
}

/// `s` with every occurrence of `p` replaced by `r`, scanning left to
/// right without overlap; the empty pattern replaces nothing.
pub open spec fn replace_all_spec(s: Seq<char>, p: Seq<char>, r: Seq<char>) -> Seq<char>
    decreases s.len(),
{
    if p.len() == 0 || s.len() < p.len() {
        s
    } else if s.take(p.len() as int) == p {
        r + replace_all_spec(s.skip(p.len() as int), p, r)
    } else {
        seq![s[0]] + replace_all_spec(s.skip(1), p, r)
    }
}

fn matches_at(s: &str, p: &str, pos: usize, n: usize, np: usize) -> (b: bool)
    requires
        n == s@.len(),
        np == p@.len(),
        pos + np <= n,
    ensures
        b == (s@.subrange(pos as int, pos + p@.len()) == p@),
{
    let mut i: usize = 0;
    while i < np
        invariant
            0 <= i <= np,
            n == s@.len(),
            np == p@.len(),
            pos + np <= n,
            forall|j: int| 0 <= j < i ==> s@[pos + j] == p@[j],
        decreases np - i,
    {
        if s.get_char(pos + i) != p.get_char(i) {
            proof {
                assert(s@.subrange(pos as int, pos + p@.len())[i as int] != p@[i as int]);
            }
            return false;
        }
        i += 1;
    }
    proof {
        assert(s@.subrange(pos as int, pos + p@.len()) =~= p@);
    }
    true
}

/// Replaces every occurrence of `p` in `s` with `rep`, left to right.
pub fn replace_all(s: &str, p: &str, rep: &str) -> (out: String)
    ensures
        out@ == replace_all_spec(s@, p@, rep@),
{
    let np = p.unicode_len();
    if np == 0 {
        return String::from_str(s);
    }
    let n = s.unicode_len();
    let mut out = String::new();
    let mut pos: usize = 0;
    proof {
        assert(s@.skip(0) =~= s@);
        assert(replace_all_spec(s@, p@, rep@) =~= out@ + replace_all_spec(s@.skip(0), p@, rep@));
    }
    while pos < n
        invariant
            0 <= pos <= n,
            n == s@.len(),
            np == p@.len(),
            np > 0,
            replace_all_spec(s@, p@, rep@) == out@ + replace_all_spec(
                s@.skip(pos as int),
                p@,
                rep@,
            ),
        decreases n - pos,
    {
        let ghost rem = s@.skip(pos as int);
        let ghost out_pre = out@;
        if n - pos >= np && matches_at(s, p, pos, n, np) {
            out.append(rep);
            proof {
                assert(rem.take(np as int) =~= s@.subrange(pos as int, pos + np));
                assert(rem.skip(np as int) =~= s@.skip(pos + np));
                assert(replace_all_spec(rem, p@, rep@) == rep@ + replace_all_spec(
                    s@.skip(pos + np),
                    p@,
                    rep@,
                ));
                assert(out@ + replace_all_spec(s@.skip(pos + np), p@, rep@) =~= (out_pre + rep@)
                    + replace_all_spec(s@.skip(pos + np), p@, rep@));
            }
            pos = pos + np;
        } else {
            let c = s.substring_char(pos, pos + 1);
            out.append(c);
            proof {
                if rem.len() >= np {
                    assert(rem.take(np as int) =~= s@.subrange(pos as int, pos + np));
                }
                assert(c@ =~= seq![rem[0]]);
                assert(rem.skip(1) =~= s@.skip(pos + 1));
                assert(replace_all_spec(rem, p@, rep@) == seq![rem[0]] + replace_all_spec(
                    s@.skip(pos + 1),
                    p@,
                    rep@,
                ));
                assert(out@ + replace_all_spec(s@.skip(pos + 1), p@, rep@) =~= (out_pre + c@)
                    + replace_all_spec(s@.skip(pos + 1), p@, rep@));
            }
            pos = pos + 1;
        }
    }
    proof {
        assert(s@.skip(n as int) =~= Seq::<char>::empty());
    }
    out
}

/// Whether `s` contains the character `c`.
pub fn contains_char(s: &str, c: char) -> (b: bool)
    ensures
        b == s@.contains(c),
{
    let n = s.unicode_len();
    let mut i: usize = 0;
    while i < n
        invariant
            0 <= i <= n,
            n == s@.len(),
            forall|j: int| 0 <= j < i ==> s@[j] != c,
        decreases n - i,
    {
        if s.get_char(i) == c {
            return true;
        }
        i += 1;
    }
    false
}

} // verus!
