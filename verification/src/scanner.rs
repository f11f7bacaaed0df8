//! Partition table scanner: turn a full partition listing into records,
//! one per partition row, independent of how many rows exist.

use vstd::prelude::*;

use crate::error::StepError;
use crate::num::{dec_value, is_u64_numeral, parse_u64};
use crate::text::{
    columns_of, is_partition_row, line_is_partition_row, lines_of, split_columns, split_lines,
};

verus! {

/// One partition row: partition number, first sector, last sector.
#[derive(Clone, Copy, Debug, PartialEq, Eq, Structural)]
pub struct PartitionRecord {
    pub index: u64,
    pub start_sector: u64,
    pub end_sector: u64,
}

/// True when a partition row can be read: at least three columns, the first
/// three of them decimal `u64` numerals.
pub open spec fn row_well_formed(line: Seq<char>) -> bool {
    let cols = columns_of(line);
    &&& cols.len() >= 3
    &&& is_u64_numeral(cols[0])
    &&& is_u64_numeral(cols[1])
    &&& is_u64_numeral(cols[2])
}

/// The record a well-formed partition row denotes.
pub open spec fn row_record(line: Seq<char>) -> PartitionRecord {
    let cols = columns_of(line);
    PartitionRecord {
        index: dec_value(cols[0]) as u64,
        start_sector: dec_value(cols[1]) as u64,
        end_sector: dec_value(cols[2]) as u64,
    }
}

/// Index of the first partition row that cannot be read; the line count when
/// every partition row can.
pub open spec fn first_bad_row(lines: Seq<Seq<char>>) -> int
    decreases lines.len(),
{
    if lines.len() == 0 {
        0
    } else {
        let p = first_bad_row(lines.drop_last());
        if p < lines.len() - 1 {
            p
        } else if is_partition_row(lines.last()) && !row_well_formed(lines.last()) {
            lines.len() - 1
        } else {
            lines.len() as int
        }
    }
}

/// Once a bad row is found within a prefix, longer prefixes report the same one.
pub proof fn lemma_first_bad_row_from(lines: Seq<Seq<char>>, j: int)
    requires
        0 <= j <= lines.len(),
        first_bad_row(lines.take(j)) < j,
    ensures
        first_bad_row(lines) == first_bad_row(lines.take(j)),
    decreases lines.len() - j,
{
    if j == lines.len() {
        assert(lines.take(j) =~= lines);
    } else {
        assert(lines.take(j + 1).drop_last() =~= lines.take(j));
        lemma_first_bad_row_from(lines, j + 1);
    }
}

/// The records of the partition rows, in listing order.
pub open spec fn table_records(lines: Seq<Seq<char>>) -> Seq<PartitionRecord>
    decreases lines.len(),
{
    if lines.len() == 0 {
        Seq::empty()
    } else {
        let rest = table_records(lines.drop_last());
        if is_partition_row(lines.last()) && row_well_formed(lines.last()) {
            rest.push(row_record(lines.last()))
        } else {
            rest
        }
    }
}

/// True when every partition row of `text` can be read.
pub open spec fn table_ok(text: Seq<char>) -> bool {
    first_bad_row(lines_of(text)) == lines_of(text).len()
}

/// The records `scan` returns on success.
pub open spec fn scanned_records(text: Seq<char>) -> Seq<PartitionRecord> {
    table_records(lines_of(text))
}

/// The line `scan` reports when it fails.
pub open spec fn bad_row_line(text: Seq<char>) -> Seq<char> {
    lines_of(text)[first_bad_row(lines_of(text))]
}

/// Reads the full partition listing.  A line is a partition row iff its
/// first non-blank character is a decimal digit; such a row's columns are
/// partition number, start sector and end sector (later columns are
/// ignored).  A partition row with fewer than three columns, or with a
/// non-numeric value in them, fails with the offending line verbatim.
/// Zero partition rows are not an error here; that policy is the planner's.
pub fn scan(output_text: &str) -> (r: Result<Vec<PartitionRecord>, StepError>)
    ensures
        r is Ok <==> table_ok(output_text@),
        r is Ok ==> r->Ok_0@ == scanned_records(output_text@),
        !table_ok(output_text@) ==> (r matches Err(StepError::MalformedRow { line }) && line@
            == bad_row_line(output_text@)),
{
    let lines = split_lines(output_text);
    let ghost lv = lines_of(output_text@);
    let n = lines.len();
    let mut records: Vec<PartitionRecord> = Vec::new();
    let mut k: usize = 0;
    proof {
        assert(lv.take(0) =~= Seq::<Seq<char>>::empty());
    }
    while k < n
        invariant
            0 <= k <= n == lv.len(),
            lv == lines_of(output_text@),
            lines.deep_view() == lv,
            first_bad_row(lv.take(k as int)) == k,
            records@ == table_records(lv.take(k as int)),
        decreases n - k,
    {
        proof {
            assert(lv.take(k + 1).drop_last() =~= lv.take(k as int));
            assert(lv.take(k + 1).last() == lv[k as int]);
            assert(lines[k as int]@ == lv[k as int]);
        }
        let is_row = line_is_partition_row(lines[k].as_str());
        if is_row {
            let cols = split_columns(lines[k].as_str());
            proof {
                assert(cols.deep_view() == columns_of(lv[k as int]));
                assert(cols.deep_view().len() == cols@.len());
            }
            if cols.len() < 3 {
                proof {
                    assert(!row_well_formed(lv[k as int]));
                    assert(first_bad_row(lv.take(k + 1)) == k);
                    lemma_first_bad_row_from(lv, k + 1);
                }
                return Err(StepError::MalformedRow { line: lines[k].clone() });
            }
            proof {
                assert(cols@[0]@ == columns_of(lv[k as int])[0]);
                assert(cols@[1]@ == columns_of(lv[k as int])[1]);
                assert(cols@[2]@ == columns_of(lv[k as int])[2]);
            }
            let c0 = parse_u64(cols[0].as_str());
            let c1 = parse_u64(cols[1].as_str());
            let c2 = parse_u64(cols[2].as_str());
            match (c0, c1, c2) {
                (Some(index), Some(start_sector), Some(end_sector)) => {
                    proof {
                        assert(row_well_formed(lv[k as int]));
                        assert(first_bad_row(lv.take(k + 1)) == k + 1);
                    }
                    records.push(PartitionRecord { index, start_sector, end_sector });
                    proof {
                        assert(records@ =~= table_records(lv.take(k + 1)));
                    }
                },
                _ => {
                    proof {
                        assert(!row_well_formed(lv[k as int]));
                        assert(first_bad_row(lv.take(k + 1)) == k);
                        lemma_first_bad_row_from(lv, k + 1);
                    }
                    return Err(StepError::MalformedRow { line: lines[k].clone() });
                },
            }
        } else {
            proof {
                assert(first_bad_row(lv.take(k + 1)) == k + 1);
                assert(records@ =~= table_records(lv.take(k + 1)));
            }
        }
        k = k + 1;
    }
    proof {
        assert(lv.take(n as int) =~= lv);
    }
    Ok(records)
}

} // verus!
