//! Tabular output reader: find a labelled row in tool output and return one
//! of its whitespace-delimited columns verbatim.

use vstd::prelude::*;

use crate::error::StepError;
use crate::text::{
    columns_of, label_matches, line_label_matches, lines_of, split_columns, split_lines,
};

verus! {

/// Index of the first line that carries `label`; the line count when none does.
pub open spec fn first_match(lines: Seq<Seq<char>>, label: Seq<char>) -> int
    decreases lines.len(),
{
    if lines.len() == 0 {
        0
    } else {
        let p = first_match(lines.drop_last(), label);
        if p < lines.len() - 1 {
            p
        } else if label_matches(lines.last(), label) {
            lines.len() - 1
        } else {
            lines.len() as int
        }
    }
}

/// Once a match is found within a prefix, longer prefixes report the same one.
pub proof fn lemma_first_match_from(lines: Seq<Seq<char>>, label: Seq<char>, j: int)
    requires
        0 <= j <= lines.len(),
        first_match(lines.take(j), label) < j,
    ensures
        first_match(lines, label) == first_match(lines.take(j), label),
    decreases lines.len() - j,
{
    if j == lines.len() {
        assert(lines.take(j) =~= lines);
    } else {
        assert(lines.take(j + 1).drop_last() =~= lines.take(j));
        lemma_first_match_from(lines, label, j + 1);
    }
}

/// True when some line of `text` carries `label`.
pub open spec fn has_matching_row(text: Seq<char>, label: Seq<char>) -> bool {
    first_match(lines_of(text), label) < lines_of(text).len()
}

/// The first line of `text` that carries `label`.
pub open spec fn matching_row(text: Seq<char>, label: Seq<char>) -> Seq<char> {
    lines_of(text)[first_match(lines_of(text), label)]
}

/// True when `locate` succeeds: a labelled row exists and it has a column
/// at `column`.
pub open spec fn locate_ok(text: Seq<char>, label: Seq<char>, column: int) -> bool {
    has_matching_row(text, label) && column < columns_of(matching_row(text, label)).len()
}

/// The value `locate` returns on success.
pub open spec fn locate_value(text: Seq<char>, label: Seq<char>, column: int) -> Seq<char> {
    columns_of(matching_row(text, label))[column]
}

/// The error `locate` reports when it fails.
pub open spec fn locate_failure(text: Seq<char>, label: Seq<char>) -> StepError {
    if !has_matching_row(text, label) {
        StepError::RowNotFound
    } else {
        StepError::ColumnOutOfRange
    }
}

/// Scans `text` line by line for the first row that carries `row_label` (as
/// a label at the start of the row, not anywhere in it) and returns that
/// row's column number `column_index` (zero-based, whitespace-delimited)
/// verbatim.
pub fn locate(text: &str, row_label: &str, column_index: usize) -> (r: Result<String, StepError>)
    ensures
        r is Ok <==> locate_ok(text@, row_label@, column_index as int),
        r is Ok ==> r->Ok_0@ == locate_value(text@, row_label@, column_index as int),
        !locate_ok(text@, row_label@, column_index as int) ==> r == Result::<String,
            StepError>::Err(locate_failure(text@, row_label@)),
{
    let lines = split_lines(text);
    let ghost lv = lines_of(text@);
    let n = lines.len();
    let mut k: usize = 0;
    proof {
        assert(lv.take(0) =~= Seq::<Seq<char>>::empty());
    }
    while k < n
        invariant
            0 <= k <= n == lv.len(),
            lv == lines_of(text@),
            lines.deep_view() == lv,
            first_match(lv.take(k as int), row_label@) == k,
        decreases n - k,
    {
        let is_match = line_label_matches(lines[k].as_str(), row_label);
        proof {
            assert(lv.take(k + 1).drop_last() =~= lv.take(k as int));
            assert(lv.take(k + 1).last() == lv[k as int]);
            assert(lines[k as int]@ == lv[k as int]);
        }
        if is_match {
            proof {
                assert(first_match(lv.take(k + 1), row_label@) == k);
                lemma_first_match_from(lv, row_label@, k + 1);
            }
            let cols = split_columns(lines[k].as_str());
            proof {
                assert(matching_row(text@, row_label@) == lv[k as int]);
                assert(cols.deep_view() == columns_of(lv[k as int]));
                assert(cols.deep_view().len() == cols@.len());
            }
            if column_index < cols.len() {
                let v = cols[column_index].clone();
                proof {
                    assert(v@ == cols.deep_view()[column_index as int]);
                }
                return Ok(v);
            } else {
                return Err(StepError::ColumnOutOfRange);
            }
        }
        k = k + 1;
    }
    proof {
        assert(lv.take(n as int) =~= lv);
    }
    Err(StepError::RowNotFound)
}

} // verus!
