//! The inspection steps, as computations over captured tool output: the
//! per-partition detail lookup and the whole-table size derivation.

use vstd::prelude::*;

use crate::error::StepError;
use crate::num::{dec_seq_of, u64_to_string};
use crate::planner::max_end_sector;
use crate::reader::{locate, locate_failure, locate_ok, locate_value};
use crate::scanner::{bad_row_line, scan, scanned_records, table_ok};

verus! {

/// Sector size, first and last sector offset, and partition size in sectors
/// for one partition, kept verbatim as the decimal strings the inspection
/// tool printed; parsing and overflow concerns stay with the caller.
#[derive(Debug, Clone, PartialEq, Eq)]
pub struct GptPartitionInformation {
    pub sector_size: String,
    pub first_sector: String,
    pub last_sector: String,
    pub partition_sectors: String,
}

/// The label of the sector-size row in the table listing.
pub open spec fn sector_size_label() -> Seq<char> {
    "Sector size"@
}

/// The label of the first-sector row in the per-partition detail.
pub open spec fn first_sector_label() -> Seq<char> {
    "First sector"@
}

/// The label of the last-sector row in the per-partition detail.
pub open spec fn last_sector_label() -> Seq<char> {
    "Last sector"@
}

/// The label of the partition-size row in the per-partition detail.
pub open spec fn partition_size_label() -> Seq<char> {
    "Partition size"@
}

/// Reads one partition's geometry out of captured tool output:
/// `print_output` from the whole-table listing (for the sector size, third
/// column of the "Sector size" row) and `detail_output` from the
/// per-partition detail (second column of the "First sector", "Last sector"
/// and "Partition size" rows).  The first lookup to fail, in that order,
/// decides the error.
pub fn get_gpt_partition_information(print_output: &str, detail_output: &str) -> (r: Result<
    GptPartitionInformation,
    StepError,
>)
    ensures
        r is Ok <==> (locate_ok(print_output@, sector_size_label(), 3) && locate_ok(
            detail_output@,
            first_sector_label(),
            2,
        ) && locate_ok(detail_output@, last_sector_label(), 2) && locate_ok(
            detail_output@,
            partition_size_label(),
            2,
        )),
        r matches Ok(info) ==> {
            &&& info.sector_size@ == locate_value(print_output@, sector_size_label(), 3)
            &&& info.first_sector@ == locate_value(detail_output@, first_sector_label(), 2)
            &&& info.last_sector@ == locate_value(detail_output@, last_sector_label(), 2)
            &&& info.partition_sectors@ == locate_value(detail_output@, partition_size_label(), 2)
        },
        !locate_ok(print_output@, sector_size_label(), 3) ==> r == Result::<
            GptPartitionInformation,
            StepError,
        >::Err(locate_failure(print_output@, sector_size_label())),
        locate_ok(print_output@, sector_size_label(), 3) && !locate_ok(
            detail_output@,
            first_sector_label(),
            2,
        ) ==> r == Result::<GptPartitionInformation, StepError>::Err(
            locate_failure(detail_output@, first_sector_label()),
        ),
        locate_ok(print_output@, sector_size_label(), 3) && locate_ok(
            detail_output@,
            first_sector_label(),
            2,
        ) && !locate_ok(detail_output@, last_sector_label(), 2) ==> r == Result::<
            GptPartitionInformation,
            StepError,
        >::Err(locate_failure(detail_output@, last_sector_label())),
        locate_ok(print_output@, sector_size_label(), 3) && locate_ok(
            detail_output@,
            first_sector_label(),
            2,
        ) && locate_ok(detail_output@, last_sector_label(), 2) && !locate_ok(
            detail_output@,
            partition_size_label(),
            2,
        ) ==> r == Result::<GptPartitionInformation, StepError>::Err(
            locate_failure(detail_output@, partition_size_label()),
        ),
{
    let sector_size = match locate(print_output, "Sector size", 3) {
        Ok(v) => v,
        Err(e) => {
            return Err(e);
        },
    };
    let first_sector = match locate(detail_output, "First sector", 2) {
        Ok(v) => v,
        Err(e) => {
            return Err(e);
        },
    };
    let last_sector = match locate(detail_output, "Last sector", 2) {
        Ok(v) => v,
        Err(e) => {
            return Err(e);
        },
    };
    let partition_sectors = match locate(detail_output, "Partition size", 2) {
        Ok(v) => v,
        Err(e) => {
            return Err(e);
        },
    };
    Ok(
        GptPartitionInformation {
            sector_size,
            first_sector,
            last_sector,
            partition_sectors,
        },
    )
}

/// Derives the sector size and the highest end sector across all partitions
/// from one captured whole-table listing, both as decimal strings.
///
/// The highest end sector is found by scanning every partition row, never by
/// assuming a fixed partition number, so a table with any row count,
/// numbering gaps, or reordered rows is read correctly.  Fails with the
/// sector-size lookup's error first, then with the scanner's, and with
/// `NoPartitionsFound` when the listing holds no partition row.
pub fn get_output_image_partition_size(output_text: &str) -> (r: Result<
    (String, String),
    StepError,
>)
    ensures
        r is Ok <==> (locate_ok(output_text@, sector_size_label(), 3) && table_ok(output_text@)
            && scanned_records(output_text@).len() > 0),
        r matches Ok(p) ==> {
            &&& p.0@ == locate_value(output_text@, sector_size_label(), 3)
            &&& p.1@ == dec_seq_of(max_end_sector(scanned_records(output_text@)))
        },
        !locate_ok(output_text@, sector_size_label(), 3) ==> r == Result::<
            (String, String),
            StepError,
        >::Err(locate_failure(output_text@, sector_size_label())),
        locate_ok(output_text@, sector_size_label(), 3) && !table_ok(output_text@) ==> (r matches
            Err(StepError::MalformedRow { line }) && line@ == bad_row_line(output_text@)),
        locate_ok(output_text@, sector_size_label(), 3) && table_ok(output_text@)
            && scanned_records(output_text@).len() == 0 ==> r == Result::<
            (String, String),
            StepError,
        >::Err(StepError::NoPartitionsFound),
{
    let sector_size = match locate(output_text, "Sector size", 3) {
        Ok(v) => v,
        Err(e) => {
            return Err(e);
        },
    };
    let records = match scan(output_text) {
        Ok(v) => v,
        Err(e) => {
            return Err(e);
        },
    };
    if records.len() == 0 {
        return Err(StepError::NoPartitionsFound);
    }
    let max_end = crate::planner::max_end_of(&records);
    let last_sector = u64_to_string(max_end);
    Ok((sector_size, last_sector))
}

} // verus!
