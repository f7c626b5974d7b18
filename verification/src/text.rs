//! Verified text helpers for the SSE framing: prefix tests and splitting a
//! body chunk into lines (a line ends at `\n`; a `\r` directly before the
//! `\n` is not part of the line; a final segment without `\n` is kept as it
//! stands).

use vstd::prelude::*;

verus! {

/// `p` is a prefix of `s`.
pub open spec fn spec_is_prefix(p: Seq<char>, s: Seq<char>) -> bool {
    p.len() <= s.len() && s.subrange(0, p.len() as int) == p
}

/// The views of a sequence of strings.
pub open spec fn str_views(v: Seq<String>) -> Seq<Seq<char>> {
    v.map_values(|t: String| t@)
}

pub proof fn lemma_str_views_push(v: Seq<String>, x: String)
    ensures
        str_views(v.push(x)) == str_views(v).push(x@),
{
    assert(str_views(v.push(x)) =~= str_views(v).push(x@));
}

/// Whether `s` starts with `p`.
pub fn has_prefix(s: &str, p: &str) -> (r: bool)
    ensures
        r == spec_is_prefix(p@, s@),
{
    let sn = s.unicode_len();
    let pn = p.unicode_len();
    if pn > sn {
        return false;
    }
    let mut i: usize = 0;
    while i < pn
        invariant
            pn <= sn,
            sn == s@.len(),
            pn == p@.len(),
            i <= pn,
            forall|k: int| 0 <= k < i ==> s@[k] == p@[k],
        decreases pn - i,
    {
        if s.get_char(i) != p.get_char(i) {
            assert(s@.subrange(0, pn as int)[i as int] != p@[i as int]);
            return false;
        }
        i = i + 1;
    }
    assert(s@.subrange(0, pn as int) =~= p@);
    true
}

/// Whether two texts are the same sequence of characters.
pub fn str_eq(a: &str, b: &str) -> (r: bool)
    ensures
        r == (a@ == b@),
{
    let an = a.unicode_len();
    let bn = b.unicode_len();
    if an != bn {
        return false;
    }
    let r = has_prefix(a, b);
    proof {
        assert(a@.subrange(0, bn as int) =~= a@);
    }
    r
}

/// The position of the first `\n` at or after `i`, or the length when there
/// is none.
pub open spec fn first_nl_from(s: Seq<char>, i: int) -> int
    decreases s.len() - i,
{
    if i < 0 || i >= s.len() {
        s.len() as int
    } else if s[i] == '\n' {
        i
    } else {
        first_nl_from(s, i + 1)
    }
}

pub proof fn lemma_first_nl_ge(s: Seq<char>, i: int)
    requires
        0 <= i <= s.len(),
    ensures
        i <= first_nl_from(s, i) <= s.len(),
    decreases s.len() - i,
{
    if i < s.len() && s[i] != '\n' {
        lemma_first_nl_ge(s, i + 1);
    }
}

/// A scan that saw no `\n` in `[i, j)` and stopped at `j` found exactly
/// `first_nl_from(s, i)`.
pub proof fn lemma_first_nl_at(s: Seq<char>, i: int, j: int)
    requires
        0 <= i <= j <= s.len(),
        forall|k: int| i <= k < j ==> s[k] != '\n',
        j < s.len() ==> s[j] == '\n',
    ensures
        first_nl_from(s, i) == j,
    decreases j - i,
{
    if i < j {
        lemma_first_nl_at(s, i + 1, j);
    }
}

/// There is a `": "` separator starting at position `i` of `s`.
pub open spec fn sep_at(s: Seq<char>, i: int) -> bool {
    0 <= i && i + 2 <= s.len() && s[i] == ':' && s[i + 1] == ' '
}

/// The position of the first `": "` separator at or after `i`, or the
/// length when there is none.
pub open spec fn first_sep_from(s: Seq<char>, i: int) -> int
    decreases s.len() - i,
{
    if i < 0 || i + 2 > s.len() {
        s.len() as int
    } else if s[i] == ':' && s[i + 1] == ' ' {
        i
    } else {
        first_sep_from(s, i + 1)
    }
}

/// A scan that saw no separator in `[i, j)` and stopped at `j` found
/// exactly `first_sep_from(s, i)`.
pub proof fn lemma_first_sep_at(s: Seq<char>, i: int, j: int)
    requires
        0 <= i <= j <= s.len(),
        forall|k: int| i <= k < j ==> !sep_at(s, k),
        j + 2 <= s.len() ==> sep_at(s, j),
    ensures
        first_sep_from(s, i) == if j + 2 <= s.len() {
            j
        } else {
            s.len() as int
        },
    decreases j - i,
{
    if i < j {
        assert(!sep_at(s, i));
        lemma_first_sep_at(s, i + 1, j);
    }
}

/// A line with a trailing `\r` stripped, once.
pub open spec fn strip_cr(l: Seq<char>) -> Seq<char> {
    if l.len() > 0 && l.last() == '\r' {
        l.drop_last()
    } else {
        l
    }
}

/// The lines of `s` from position `pos` on.
pub open spec fn spec_lines_from(s: Seq<char>, pos: int) -> Seq<Seq<char>>
    decreases s.len() - pos,
    when 0 <= pos
    via spec_lines_from_decreases
{
    if pos < 0 || pos >= s.len() {
        Seq::empty()
    } else {
        let j = first_nl_from(s, pos);
        if j >= s.len() {
            seq![s.subrange(pos, s.len() as int)]
        } else {
            seq![strip_cr(s.subrange(pos, j))] + spec_lines_from(s, j + 1)
        }
    }
}

#[via_fn]
proof fn spec_lines_from_decreases(s: Seq<char>, pos: int) {
    if 0 <= pos && pos < s.len() {
        lemma_first_nl_ge(s, pos);
    }
}

/// The lines of `s`.
pub open spec fn spec_lines(s: Seq<char>) -> Seq<Seq<char>> {
    spec_lines_from(s, 0)
}

/// Split `s` into its lines.
pub fn split_lines(s: &str) -> (r: Vec<String>)
    ensures
        str_views(r@) == spec_lines(s@),
{
    let n = s.unicode_len();
    let mut out: Vec<String> = Vec::new();
    let mut pos: usize = 0;
    while pos < n
        invariant
            n == s@.len(),
            pos <= n,
            spec_lines(s@) == str_views(out@) + spec_lines_from(s@, pos as int),
        decreases n - pos,
    {
        let mut j: usize = pos;
        while j < n && s.get_char(j) != '\n'
            invariant
                n == s@.len(),
                pos <= j <= n,
                forall|k: int| pos <= k < j ==> s@[k] != '\n',
            decreases n - j,
        {
            j = j + 1;
        }
        proof {
            lemma_first_nl_at(s@, pos as int, j as int);
        }
        let line: String = if j == n {
            s.substring_char(pos, n).to_owned()
        } else if j > pos && s.get_char(j - 1) == '\r' {
            s.substring_char(pos, j - 1).to_owned()
        } else {
            s.substring_char(pos, j).to_owned()
        };
        proof {
            if j < n {
                assert(strip_cr(s@.subrange(pos as int, j as int)) =~= line@);
            }
            lemma_str_views_push(out@, line);
        }
        out.push(line);
        let next: usize = if j == n {
            n
        } else {
            j + 1
        };
        proof {
            if j < n {
                assert(spec_lines_from(s@, pos as int) == seq![line@] + spec_lines_from(
                    s@,
                    j + 1,
                ));
                assert(str_views(out@) + spec_lines_from(s@, next as int) =~= (str_views(
                    out@.drop_last(),
                ) + spec_lines_from(s@, pos as int)));
            } else {
                assert(spec_lines_from(s@, pos as int) =~= seq![line@]);
                assert(str_views(out@) + spec_lines_from(s@, next as int) =~= (str_views(
                    out@.drop_last(),
                ) + spec_lines_from(s@, pos as int)));
            }
        }
        pos = next;
    }
    assert(str_views(out@) + spec_lines_from(s@, pos as int) =~= str_views(out@));
    out
}

} // verus!
