//! The shape of external tool output: lines, whitespace-delimited columns,
//! row labels, and partition-row detection.
//!
//! The spec functions here are the single meaning of "line" and "column" that
//! every contract in the crate speaks of; the executable functions split real
//! text and are proved to produce exactly those lines and columns.

use vstd::prelude::*;

use crate::num::is_digit_char;

verus! {

/// True when `c` separates columns inside a line.  A carriage return counts
/// so that tool output with CRLF line ends parses the same way.
pub open spec fn is_space_char(c: char) -> bool {
    c == ' ' || c == '\t' || c == '\r'
}

/// Longest prefix of `s` holding no line break.
pub open spec fn line_prefix(s: Seq<char>) -> Seq<char>
    decreases s.len(),
{
    if s.len() == 0 || s[0] == '\n' {
        Seq::empty()
    } else {
        seq![s[0]] + line_prefix(s.drop_first())
    }
}

pub proof fn lemma_line_prefix_len(s: Seq<char>)
    ensures
        line_prefix(s).len() <= s.len(),
    decreases s.len(),
{
    if !(s.len() == 0 || s[0] == '\n') {
        lemma_line_prefix_len(s.drop_first());
    }
}

/// The lines of `s`: the segments between line breaks.
pub open spec fn lines_of(s: Seq<char>) -> Seq<Seq<char>>
    decreases s.len(),
    via lines_of_decreases
{
    let line = line_prefix(s);
    if line.len() == s.len() {
        seq![s]
    } else {
        seq![line] + lines_of(s.skip(line.len() as int + 1))
    }
}

#[via_fn]
proof fn lines_of_decreases(s: Seq<char>) {
    lemma_line_prefix_len(s);
}

/// `s` with leading column separators removed.
pub open spec fn strip_spaces(s: Seq<char>) -> Seq<char>
    decreases s.len(),
{
    if s.len() > 0 && is_space_char(s[0]) {
        strip_spaces(s.drop_first())
    } else {
        s
    }
}

pub proof fn lemma_strip_spaces_len(s: Seq<char>)
    ensures
        strip_spaces(s).len() <= s.len(),
        strip_spaces(s).len() > 0 ==> !is_space_char(strip_spaces(s)[0]),
    decreases s.len(),
{
    if s.len() > 0 && is_space_char(s[0]) {
        lemma_strip_spaces_len(s.drop_first());
    }
}

/// Longest prefix of `s` holding no column separator.
pub open spec fn word_prefix(s: Seq<char>) -> Seq<char>
    decreases s.len(),
{
    if s.len() == 0 || is_space_char(s[0]) {
        Seq::empty()
    } else {
        seq![s[0]] + word_prefix(s.drop_first())
    }
}

pub proof fn lemma_word_prefix_len(s: Seq<char>)
    ensures
        word_prefix(s).len() <= s.len(),
        s.len() > 0 && !is_space_char(s[0]) ==> word_prefix(s).len() >= 1,
    decreases s.len(),
{
    if !(s.len() == 0 || is_space_char(s[0])) {
        lemma_word_prefix_len(s.drop_first());
    }
}

/// The whitespace-delimited columns of one line, in order.
pub open spec fn columns_of(line: Seq<char>) -> Seq<Seq<char>>
    decreases line.len(),
    via columns_of_decreases
{
    let rest = strip_spaces(line);
    if rest.len() == 0 {
        Seq::empty()
    } else {
        let w = word_prefix(rest);
        seq![w] + columns_of(rest.skip(w.len() as int))
    }
}

#[via_fn]
proof fn columns_of_decreases(line: Seq<char>) {
    lemma_strip_spaces_len(line);
    let rest = strip_spaces(line);
    if rest.len() != 0 {
        lemma_word_prefix_len(rest);
        assert(word_prefix(rest).len() >= 1);
    }
}

/// True when `line`, after leading separators, starts with `label`.
pub open spec fn label_matches(line: Seq<char>, label: Seq<char>) -> bool {
    label.is_prefix_of(strip_spaces(line))
}

/// True when the line is a partition row: its first non-blank character is a
/// decimal digit.  That is the only structural mark that reliably separates
/// partition rows from headers and labels in the inspected output.
pub open spec fn is_partition_row(line: Seq<char>) -> bool {
    strip_spaces(line).len() > 0 && is_digit_char(strip_spaces(line)[0])
}

/// If the first `m` characters of `t` are no line break, and the one after
/// them (if any) is, then the line prefix of `t` is exactly those characters.
pub proof fn lemma_line_prefix_at(t: Seq<char>, m: int)
    requires
        0 <= m <= t.len(),
        forall|k: int| 0 <= k < m ==> t[k] != '\n',
        m < t.len() ==> t[m] == '\n',
    ensures
        line_prefix(t) == t.take(m),
    decreases m,
{
    if m == 0 {
        assert(line_prefix(t) =~= t.take(0));
    } else {
        lemma_line_prefix_at(t.drop_first(), m - 1);
        assert(seq![t[0]] + t.drop_first().take(m - 1) =~= t.take(m));
    }
}

/// The same, for leading column separators and `strip_spaces`.
pub proof fn lemma_strip_spaces_at(t: Seq<char>, m: int)
    requires
        0 <= m <= t.len(),
        forall|k: int| 0 <= k < m ==> is_space_char(#[trigger] t[k]),
        m < t.len() ==> !is_space_char(t[m]),
    ensures
        strip_spaces(t) == t.skip(m),
    decreases m,
{
    if m == 0 {
        assert(strip_spaces(t) =~= t.skip(0));
    } else {
        lemma_strip_spaces_at(t.drop_first(), m - 1);
        assert(t.drop_first().skip(m - 1) =~= t.skip(m));
    }
}

/// The same, for non-separator characters and `word_prefix`.
pub proof fn lemma_word_prefix_at(t: Seq<char>, m: int)
    requires
        0 <= m <= t.len(),
        forall|k: int| 0 <= k < m ==> !is_space_char(#[trigger] t[k]),
        m < t.len() ==> is_space_char(t[m]),
    ensures
        word_prefix(t) == t.take(m),
    decreases m,
{
    if m == 0 {
        assert(word_prefix(t) =~= t.take(0));
    } else {
        lemma_word_prefix_at(t.drop_first(), m - 1);
        assert(seq![t[0]] + t.drop_first().take(m - 1) =~= t.take(m));
    }
}

/// True when `c` separates columns.
pub fn char_is_space(c: char) -> (b: bool)
    ensures
        b == is_space_char(c),
{
    c == ' ' || c == '\t' || c == '\r'
}

/// First position at or after `from` holding a line break, or the length.
fn find_line_break(s: &str, from: usize, n: usize) -> (r: usize)
    requires
        from <= n == s@.len(),
    ensures
        from <= r <= n,
        forall|k: int| from <= k < r ==> s@[k] != '\n',
        r < n ==> s@[r as int] == '\n',
{
    let mut i: usize = from;
    while i < n
        invariant
            from <= i <= n == s@.len(),
            forall|k: int| from <= k < i ==> s@[k] != '\n',
        decreases n - i,
    {
        if s.get_char(i) == '\n' {
            return i;
        }
        i = i + 1;
    }
    i
}

/// First position at or after `from` holding a non-separator, or the length.
fn find_non_space(s: &str, from: usize, n: usize) -> (r: usize)
    requires
        from <= n == s@.len(),
    ensures
        from <= r <= n,
        forall|k: int| from <= k < r ==> is_space_char(#[trigger] s@[k]),
        r < n ==> !is_space_char(s@[r as int]),
{
    let mut i: usize = from;
    while i < n
        invariant
            from <= i <= n == s@.len(),
            forall|k: int| from <= k < i ==> is_space_char(#[trigger] s@[k]),
        decreases n - i,
    {
        if !char_is_space(s.get_char(i)) {
            return i;
        }
        i = i + 1;
    }
    i
}

/// First position at or after `from` holding a separator, or the length.
fn find_space(s: &str, from: usize, n: usize) -> (r: usize)
    requires
        from <= n == s@.len(),
    ensures
        from <= r <= n,
        forall|k: int| from <= k < r ==> !is_space_char(#[trigger] s@[k]),
        r < n ==> is_space_char(s@[r as int]),
{
    let mut i: usize = from;
    while i < n
        invariant
            from <= i <= n == s@.len(),
            forall|k: int| from <= k < i ==> !is_space_char(#[trigger] s@[k]),
        decreases n - i,
    {
        if char_is_space(s.get_char(i)) {
            return i;
        }
        i = i + 1;
    }
    i
}

/// Splits `s` into its lines.
pub fn split_lines(s: &str) -> (r: Vec<String>)
    ensures
        r.deep_view() == lines_of(s@),
{
    let n: usize = s.unicode_len();
    let mut out: Vec<String> = Vec::new();
    let mut pos: usize = 0;
    proof {
        assert(s@.skip(0) =~= s@);
        assert(out.deep_view() =~= Seq::<Seq<char>>::empty());
        assert(out.deep_view() + lines_of(s@.skip(0)) =~= lines_of(s@));
    }
    loop
        invariant_except_break
            pos <= n == s@.len(),
            out.deep_view() + lines_of(s@.skip(pos as int)) =~= lines_of(s@),
        ensures
            out.deep_view() == lines_of(s@),
        decreases n - pos,
    {
        let nl = find_line_break(s, pos, n);
        proof {
            lemma_line_prefix_at(s@.skip(pos as int), nl - pos);
            assert(s@.skip(pos as int).take(nl - pos) =~= s@.subrange(pos as int, nl as int));
        }
        let line = s.substring_char(pos, nl);
        let ghost prev = out.deep_view();
        out.push(String::from_str(line));
        proof {
            assert(out.deep_view() =~= prev.push(line@));
        }
        if nl == n {
            proof {
                assert(line_prefix(s@.skip(pos as int)).len() == s@.skip(pos as int).len());
                assert(lines_of(s@.skip(pos as int)) == seq![s@.skip(pos as int)]);
                assert(line@ =~= s@.skip(pos as int));
                assert(prev.push(line@) =~= prev + seq![s@.skip(pos as int)]);
            }
            break;
        }
        proof {
            let tail = s@.skip(pos as int);
            assert(line_prefix(tail).len() < tail.len());
            assert(lines_of(tail) == seq![line_prefix(tail)] + lines_of(
                tail.skip(line_prefix(tail).len() as int + 1)));
            assert(tail.skip(nl - pos + 1) =~= s@.skip(nl + 1));
            assert(prev.push(line@) + lines_of(s@.skip(nl + 1)) =~= prev + lines_of(
                s@.skip(pos as int)));
        }
        pos = nl + 1;
    }
    out
}

/// Splits one line into its whitespace-delimited columns.
pub fn split_columns(line: &str) -> (r: Vec<String>)
    ensures
        r.deep_view() == columns_of(line@),
{
    let n: usize = line.unicode_len();
    let mut out: Vec<String> = Vec::new();
    let mut pos: usize = 0;
    proof {
        assert(line@.skip(0) =~= line@);
        assert(out.deep_view() =~= Seq::<Seq<char>>::empty());
        assert(out.deep_view() + columns_of(line@.skip(0)) =~= columns_of(line@));
    }
    loop
        invariant_except_break
            pos <= n == line@.len(),
            out.deep_view() + columns_of(line@.skip(pos as int)) =~= columns_of(line@),
        ensures
            out.deep_view() == columns_of(line@),
        decreases n - pos,
    {
        let j = find_non_space(line, pos, n);
        proof {
            lemma_strip_spaces_at(line@.skip(pos as int), j - pos);
            assert(line@.skip(pos as int).skip(j - pos) =~= line@.skip(j as int));
        }
        if j == n {
            proof {
                assert(strip_spaces(line@.skip(pos as int)) =~= Seq::<char>::empty());
                assert(columns_of(line@.skip(pos as int)) =~= Seq::<Seq<char>>::empty());
            }
            break;
        }
        let e = find_space(line, j, n);
        proof {
            lemma_word_prefix_at(line@.skip(j as int), e - j);
            assert(line@.skip(j as int).take(e - j) =~= line@.subrange(j as int, e as int));
            assert(line@.skip(j as int).skip(e - j) =~= line@.skip(e as int));
            assert(columns_of(line@.skip(pos as int)) == seq![
                line@.subrange(j as int, e as int),
            ] + columns_of(line@.skip(e as int)));
        }
        let word = line.substring_char(j, e);
        let ghost prev = out.deep_view();
        out.push(String::from_str(word));
        proof {
            assert(out.deep_view() =~= prev.push(word@));
            assert(prev.push(word@) + columns_of(line@.skip(e as int)) =~= prev + columns_of(
                line@.skip(pos as int)));
        }
        pos = e;
    }
    out
}

/// True when `line`, after leading separators, starts with `label`.
pub fn line_label_matches(line: &str, label: &str) -> (b: bool)
    ensures
        b == label_matches(line@, label@),
{
    let n: usize = line.unicode_len();
    let m: usize = label.unicode_len();
    let j = find_non_space(line, 0, n);
    proof {
        lemma_strip_spaces_at(line@, j as int);
    }
    if m > n - j {
        assert(strip_spaces(line@).len() < label@.len());
        return false;
    }
    let mut k: usize = 0;
    while k < m
        invariant
            0 <= k <= m,
            m <= n - j,
            j <= n == line@.len(),
            m == label@.len(),
            strip_spaces(line@) == line@.skip(j as int),
            forall|t: int| 0 <= t < k ==> line@[j + t] == label@[t],
        decreases m - k,
    {
        if line.get_char(j + k) != label.get_char(k) {
            assert(!label@.is_prefix_of(line@.skip(j as int))) by {
                assert(line@.skip(j as int).subrange(0, m as int)[k as int] == line@[j + k]);
            }
            return false;
        }
        k = k + 1;
    }
    assert(label@ =~= line@.skip(j as int).subrange(0, m as int));
    true
}

/// True when the line is a partition row (first non-blank character a digit).
pub fn line_is_partition_row(line: &str) -> (b: bool)
    ensures
        b == is_partition_row(line@),
{
    let n: usize = line.unicode_len();
    let j = find_non_space(line, 0, n);
    proof {
        lemma_strip_spaces_at(line@, j as int);
    }
    if j == n {
        false
    } else {
        crate::num::char_is_digit(line.get_char(j))
    }
}

} // verus!
