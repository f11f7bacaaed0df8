use gpt_shrink::error::StepError;
use gpt_shrink::reader::locate;

const PRINT_OUTPUT: &str = "\
Disk disk.raw: 62914560 sectors, 30.0 GiB
Sector size (logical): 512 bytes
Disk identifier (GUID): 0C253C4B-0000-0000-0000-000000000000
Partition table holds up to 128 entries
First usable sector is 34, last usable sector is 62914526

Number  Start (sector)    End (sector)  Size       Code  Name
   1            2048         1050623   512.0 MiB   EF00  EFI system partition
   2         1050624         1083391   16.0 MiB    0C01  Microsoft reserved
";

#[test]
fn locate_finds_sector_size_in_third_column() {
    let v = locate(PRINT_OUTPUT, "Sector size", 3).unwrap();
    assert_eq!(v, "512");
}

#[test]
fn locate_reads_zero_indexed_columns_of_partition_row() {
    // A row such as this one is read in zero-indexed whitespace-delimited
    // columns: 0 = "3", 1 = "1048576", 2 = "2097151".
    let text = "\
Number  Start (sector)    End (sector)  Size       Code  Name
 3  1048576  2097151  524288   8300  Basic data
";
    assert_eq!(locate(text, "3", 0).unwrap(), "3");
    assert_eq!(locate(text, "3", 1).unwrap(), "1048576");
    assert_eq!(locate(text, "3", 2).unwrap(), "2097151");
}

#[test]
fn locate_matches_label_at_row_start_not_anywhere() {
    // "sector" appears inside the first line, but only the second line
    // carries "Last sector" as its label.
    let text = "\
First sector: 2048 (at 1.0 MiB)
Last sector: 4095 (at 2.0 MiB)
";
    assert_eq!(locate(text, "Last sector", 2).unwrap(), "4095");
    // The label row is found even with leading blanks before the label.
    let indented = "   Partition size: 524288 sectors (256.0 MiB)\n";
    assert_eq!(locate(indented, "Partition size", 2).unwrap(), "524288");
}

#[test]
fn locate_takes_the_first_matching_row() {
    let text = "\
Last sector: 100 (at 50.0 KiB)
Last sector: 200 (at 100.0 KiB)
";
    assert_eq!(locate(text, "Last sector", 2).unwrap(), "100");
}

#[test]
fn locate_reports_missing_row() {
    assert_eq!(
        locate(PRINT_OUTPUT, "Cylinder count", 3),
        Err(StepError::RowNotFound)
    );
    assert_eq!(locate("", "Sector size", 0), Err(StepError::RowNotFound));
}

#[test]
fn locate_reports_missing_column() {
    assert_eq!(
        locate(PRINT_OUTPUT, "Sector size", 9),
        Err(StepError::ColumnOutOfRange)
    );
}

#[test]
fn locate_handles_carriage_return_line_ends() {
    let text = "Disk disk.raw: 1000 sectors\r\nSector size (logical): 4096 bytes\r\n";
    assert_eq!(locate(text, "Sector size", 3).unwrap(), "4096");
}
