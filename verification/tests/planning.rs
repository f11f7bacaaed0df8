use gpt_shrink::error::StepError;
use gpt_shrink::planner::{plan, plan_checked, ShrinkTarget};
use gpt_shrink::scanner::PartitionRecord;

fn record(index: u64, start_sector: u64, end_sector: u64) -> PartitionRecord {
    PartitionRecord { index, start_sector, end_sector }
}

#[test]
fn plan_uses_the_highest_end_sector_and_reserves_gpt_room() {
    // sector_size = 512, end sectors {2048, 4096, 62914559}:
    // 512 * 62914559 + 34 * 512 = 32212254208 + 17408 = 32212271616.
    let records = vec![
        record(1, 34, 2048),
        record(2, 2049, 4096),
        record(3, 4097, 62914559),
    ];
    let target = plan(512, &records).unwrap();
    assert_eq!(
        target,
        ShrinkTarget {
            sector_size: 512,
            last_sector: 62914559,
            new_disk_size_bytes: 32212271616,
        }
    );
}

#[test]
fn plan_is_independent_of_row_order_and_numbering() {
    let a = vec![record(1, 34, 2048), record(2, 2049, 4096), record(3, 4097, 62914559)];
    let b = vec![record(3, 4097, 62914559), record(1, 34, 2048), record(2, 2049, 4096)];
    // The same records under gapped, non-monotonic numbering.
    let c = vec![record(5, 4097, 62914559), record(1, 34, 2048), record(4, 2049, 4096)];
    let planned_a = plan(512, &a).unwrap();
    assert_eq!(planned_a, plan(512, &b).unwrap());
    assert_eq!(planned_a, plan(512, &c).unwrap());
}

#[test]
fn plan_refuses_an_empty_table() {
    // Zero discoverable partitions is a hard stop, never a zero-size plan.
    let no_records: Vec<PartitionRecord> = Vec::new();
    assert_eq!(plan(512, &no_records), Err(StepError::NoPartitionsFound));
    assert_eq!(plan_checked(512, &no_records), Err(StepError::NoPartitionsFound));
}

#[test]
fn plan_checked_reports_an_overflowing_size() {
    let records = vec![record(1, 34, u64::MAX / 2)];
    assert_eq!(plan_checked(512, &records), Ok(None));
    // A fitting geometry passes through exactly.
    let small = vec![record(1, 34, 2048)];
    assert_eq!(
        plan_checked(4096, &small),
        Ok(Some(ShrinkTarget {
            sector_size: 4096,
            last_sector: 2048,
            new_disk_size_bytes: 4096 * 2048 + 34 * 4096,
        }))
    );
}
