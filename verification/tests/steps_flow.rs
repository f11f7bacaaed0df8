use gpt_shrink::error::StepError;
use gpt_shrink::num::{parse_u64, u64_to_string};
use gpt_shrink::steps::{get_gpt_partition_information, get_output_image_partition_size};

const PRINT_OUTPUT: &str = "\
Disk disk.raw: 62914560 sectors, 30.0 GiB
Sector size (logical): 512 bytes
Disk identifier (GUID): 0C253C4B-0000-0000-0000-000000000000
Partition table holds up to 128 entries
First usable sector is 34, last usable sector is 62914526

Number  Start (sector)    End (sector)  Size       Code  Name
   1            2048          206847   100.0 MiB   EF00  EFI system partition
   2          206848          239615   16.0 MiB    0C01  Microsoft reserved
   5        61865984        62914559   512.0 MiB   2700  Recovery
   4          239616        61865983   29.4 GiB    0700  Basic data
";

const DETAIL_OUTPUT: &str = "\
Partition GUID code: EBD0A0A2-B9E5-4433-87C0-68B6B72699C7 (Microsoft basic data)
Partition unique GUID: 0C253C4B-0000-0000-0000-00000000000A
First sector: 1048576 (at 512.0 MiB)
Last sector: 2097151 (at 1024.0 MiB)
Partition size: 1048576 sectors (512.0 MiB)
Attribute flags: 0000000000000000
Partition name: 'Basic data partition'
";

#[test]
fn partition_information_reads_all_four_values() {
    let info = get_gpt_partition_information(PRINT_OUTPUT, DETAIL_OUTPUT).unwrap();
    assert_eq!(info.sector_size, "512");
    assert_eq!(info.first_sector, "1048576");
    assert_eq!(info.last_sector, "2097151");
    assert_eq!(info.partition_sectors, "1048576");
}

#[test]
fn partition_information_reports_the_first_missing_row() {
    assert_eq!(
        get_gpt_partition_information("no table here", DETAIL_OUTPUT),
        Err(StepError::RowNotFound)
    );
    assert_eq!(
        get_gpt_partition_information(PRINT_OUTPUT, "no detail here"),
        Err(StepError::RowNotFound)
    );
}

#[test]
fn partition_size_scans_all_rows_despite_gaps() {
    // Partitions {1, 2, 4, 5}; row 5 is listed before row 4, and its end
    // sector is the highest.
    let (sector_size, last_sector) = get_output_image_partition_size(PRINT_OUTPUT).unwrap();
    assert_eq!(sector_size, "512");
    assert_eq!(last_sector, "62914559");
}

#[test]
fn partition_size_fails_hard_on_a_header_only_table() {
    let text = "\
Disk disk.raw: 62914560 sectors, 30.0 GiB
Sector size (logical): 512 bytes
Number  Start (sector)    End (sector)  Size       Code  Name
";
    assert_eq!(
        get_output_image_partition_size(text),
        Err(StepError::NoPartitionsFound)
    );
}

#[test]
fn partition_size_reports_a_malformed_row() {
    let text = "\
Sector size (logical): 512 bytes
   1            2048         corrupt   512.0 MiB   EF00  EFI system partition
";
    match get_output_image_partition_size(text) {
        Err(StepError::MalformedRow { line }) => {
            assert_eq!(
                line,
                "   1            2048         corrupt   512.0 MiB   EF00  EFI system partition"
            );
        }
        other => panic!("expected MalformedRow, got {other:?}"),
    }
}

#[test]
fn numerals_parse_and_format_exactly() {
    assert_eq!(parse_u64("0"), Some(0));
    assert_eq!(parse_u64("007"), Some(7));
    assert_eq!(parse_u64("62914559"), Some(62914559));
    assert_eq!(parse_u64("18446744073709551615"), Some(u64::MAX));
    assert_eq!(parse_u64("18446744073709551616"), None);
    assert_eq!(parse_u64(""), None);
    assert_eq!(parse_u64("+5"), None);
    assert_eq!(parse_u64("12 "), None);
    assert_eq!(u64_to_string(0), "0");
    assert_eq!(u64_to_string(32212527104), "32212527104");
    assert_eq!(u64_to_string(u64::MAX), "18446744073709551615");
    assert_eq!(parse_u64(&u64_to_string(62914559)), Some(62914559));
}
