use gpt_shrink::error::StepError;
use gpt_shrink::scanner::{scan, PartitionRecord};

#[test]
fn scan_reads_every_partition_row() {
    let text = "\
Number  Start (sector)    End (sector)  Size       Code  Name
   1            2048         1050623   512.0 MiB   EF00  EFI system partition
   2         1050624         1083391   16.0 MiB    0C01  Microsoft reserved
";
    let records = scan(text).unwrap();
    assert_eq!(
        records,
        vec![
            PartitionRecord { index: 1, start_sector: 2048, end_sector: 1050623 },
            PartitionRecord { index: 2, start_sector: 1050624, end_sector: 1083391 },
        ]
    );
}

#[test]
fn scan_handles_numbering_gaps_and_reordered_rows() {
    // Partitions numbered {1, 2, 4, 5}: a gap at 3, and the final row is not
    // the highest-numbered one.  Every row is still read; no last-partition
    // index is assumed.
    let text = "\
Number  Start (sector)    End (sector)  Size       Code  Name
   1            2048          206847   100.0 MiB   EF00  EFI system partition
   2          206848          239615   16.0 MiB    0C01  Microsoft reserved
   5        61865984        62914559   512.0 MiB   2700  Recovery
   4          239616        61865983   29.4 GiB    0700  Basic data
";
    let records = scan(text).unwrap();
    assert_eq!(records.len(), 4);
    assert_eq!(records[2].index, 5);
    assert_eq!(records[3].index, 4);
    let max_end = records.iter().map(|r| r.end_sector).max().unwrap();
    assert_eq!(max_end, 62914559);
}

#[test]
fn scan_of_header_only_output_returns_no_records() {
    let text = "\
Disk disk.raw: 62914560 sectors, 30.0 GiB
Sector size (logical): 512 bytes
Number  Start (sector)    End (sector)  Size       Code  Name
";
    let records = scan(text).unwrap();
    assert!(records.is_empty());
    assert!(scan("").unwrap().is_empty());
}

#[test]
fn scan_reports_non_numeric_end_sector_with_the_line() {
    let text = "\
Number  Start (sector)    End (sector)  Size       Code  Name
   1            2048         1050623   512.0 MiB   EF00  EFI system partition
   2         1050624         corrupt   16.0 MiB    0C01  Microsoft reserved
";
    match scan(text) {
        Err(StepError::MalformedRow { line }) => {
            assert_eq!(
                line,
                "   2         1050624         corrupt   16.0 MiB    0C01  Microsoft reserved"
            );
        }
        other => panic!("expected MalformedRow, got {other:?}"),
    }
}

#[test]
fn scan_reports_a_row_with_too_few_columns() {
    let text = "  7\n";
    match scan(text) {
        Err(StepError::MalformedRow { line }) => assert_eq!(line, "  7"),
        other => panic!("expected MalformedRow, got {other:?}"),
    }
}

#[test]
fn scan_reports_an_end_sector_too_large_for_u64() {
    let text = " 1  2048  18446744073709551616  1.0 MiB  8300  data\n";
    match scan(text) {
        Err(StepError::MalformedRow { line }) => {
            assert_eq!(line, " 1  2048  18446744073709551616  1.0 MiB  8300  data");
        }
        other => panic!("expected MalformedRow, got {other:?}"),
    }
}
