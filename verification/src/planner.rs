//! Geometry calculator and shrink planner: the highest end sector across all
//! discovered partitions, and the minimal safe new image size.

use vstd::prelude::*;

use crate::error::StepError;
use crate::scanner::PartitionRecord;

verus! {

/// Sectors reserved after the last partition for the secondary GPT header
/// and partition-entry array.  This matches the partitioning scheme's backup
/// GPT size convention and is not configurable.
pub const SECONDARY_GPT_SECTORS: u64 = 34;

/// The highest end sector across `records`; 0 when there are none.
pub open spec fn max_end_sector(records: Seq<PartitionRecord>) -> int
    decreases records.len(),
{
    if records.len() == 0 {
        0
    } else {
        let m = max_end_sector(records.drop_last());
        if records.last().end_sector > m {
            records.last().end_sector as int
        } else {
            m
        }
    }
}

/// The planned image size in bytes: every sector up to the highest end
/// sector, plus room for the secondary GPT.
pub open spec fn planned_size(sector_size: int, last_sector: int) -> int {
    sector_size * last_sector + 34 * sector_size
}

/// The shrink target: what the resize step consumes.
#[derive(Clone, Copy, Debug, PartialEq, Eq, Structural)]
pub struct ShrinkTarget {
    pub sector_size: u64,
    pub last_sector: u64,
    pub new_disk_size_bytes: u64,
}

/// The maximum is reached by some record, and bounds every record.
pub proof fn lemma_max_end_sector_bounds(records: Seq<PartitionRecord>)
    ensures
        max_end_sector(records) >= 0,
        records.len() > 0 ==> exists|i: int|
            0 <= i < records.len() && records[i].end_sector == max_end_sector(records),
        forall|i: int| 0 <= i < records.len() ==> records[i].end_sector <= max_end_sector(records),
    decreases records.len(),
{
    if records.len() > 0 {
        lemma_max_end_sector_bounds(records.drop_last());
        let m = max_end_sector(records.drop_last());
        assert(forall|i: int|
            0 <= i < records.len() - 1 ==> records[i] == #[trigger] records.drop_last()[i]);
        assert forall|i: int|
            0 <= i < records.len() implies records[i].end_sector <= max_end_sector(records) by {
            if i < records.len() - 1 {
                assert(records.drop_last()[i] == records[i]);
                assert(records.drop_last()[i].end_sector <= m);
            }
        }
        if records.last().end_sector > m {
            assert(records[records.len() - 1].end_sector == max_end_sector(records));
        } else if records.len() == 1 {
            assert(records[0].end_sector == max_end_sector(records));
        } else {
            let i = choose|i: int|
                0 <= i < records.drop_last().len() && records.drop_last()[i].end_sector == m;
            assert(records[i].end_sector == max_end_sector(records));
        }
    }
}

/// Law: the highest end sector does not depend on the order in which the
/// rows were listed — any reordering of the same records plans the same size.
pub proof fn lemma_max_end_sector_permutation(r1: Seq<PartitionRecord>, r2: Seq<PartitionRecord>)
    requires
        r1.to_multiset() == r2.to_multiset(),
    ensures
        max_end_sector(r1) == max_end_sector(r2),
{
    broadcast use vstd::seq_lib::group_to_multiset_ensures;

    lemma_max_end_sector_bounds(r1);
    lemma_max_end_sector_bounds(r2);
    assert(r1.to_multiset().len() == r1.len());
    assert(r2.to_multiset().len() == r2.len());
    if r1.len() > 0 {
        let i1 = choose|i: int| 0 <= i < r1.len() && r1[i].end_sector == max_end_sector(r1);
        assert(r1.contains(r1[i1]));
        assert(r1.to_multiset().count(r1[i1]) > 0);
        assert(r2.to_multiset().count(r1[i1]) > 0);
        assert(r2.contains(r1[i1]));
        let j1 = choose|j: int| 0 <= j < r2.len() && r2[j] == r1[i1];
        assert(r2[j1].end_sector <= max_end_sector(r2));
        let i2 = choose|i: int| 0 <= i < r2.len() && r2[i].end_sector == max_end_sector(r2);
        assert(r2.contains(r2[i2]));
        assert(r2.to_multiset().count(r2[i2]) > 0);
        assert(r1.to_multiset().count(r2[i2]) > 0);
        assert(r1.contains(r2[i2]));
        let j2 = choose|j: int| 0 <= j < r1.len() && r1[j] == r2[i2];
        assert(r1[j2].end_sector <= max_end_sector(r1));
    }
}

/// Law: for any non-empty partition table the planned size is
/// `sector_size * max(end_sector) + 34 * sector_size`, and any reordering of
/// the same records — whatever their partition numbers — plans the same size.
pub proof fn lemma_planned_size_order_independent(
    sector_size: int,
    r1: Seq<PartitionRecord>,
    r2: Seq<PartitionRecord>,
)
    requires
        r1.to_multiset() == r2.to_multiset(),
    ensures
        planned_size(sector_size, max_end_sector(r1)) == planned_size(
            sector_size,
            max_end_sector(r2),
        ),
{
    lemma_max_end_sector_permutation(r1, r2);
}

/// Law: the highest end sector reads only the end sectors — partition
/// numbering, gaps in it, and the start sectors play no part.
pub proof fn lemma_max_end_sector_ignores_numbering(
    r1: Seq<PartitionRecord>,
    r2: Seq<PartitionRecord>,
)
    requires
        r1.map_values(|r: PartitionRecord| r.end_sector) == r2.map_values(
            |r: PartitionRecord| r.end_sector,
        ),
    ensures
        max_end_sector(r1) == max_end_sector(r2),
    decreases r1.len(),
{
    let e1 = r1.map_values(|r: PartitionRecord| r.end_sector);
    let e2 = r2.map_values(|r: PartitionRecord| r.end_sector);
    assert(e1.len() == r1.len());
    assert(e2.len() == r2.len());
    if r1.len() > 0 {
        let d1 = r1.drop_last().map_values(|r: PartitionRecord| r.end_sector);
        let d2 = r2.drop_last().map_values(|r: PartitionRecord| r.end_sector);
        assert forall|i: int| 0 <= i < d1.len() implies d1[i] == d2[i] by {
            assert(r1.drop_last()[i] == r1[i]);
            assert(r2.drop_last()[i] == r2[i]);
            assert(d1[i] == e1[i]);
            assert(d2[i] == e2[i]);
        }
        assert(d1 =~= d2);
        lemma_max_end_sector_ignores_numbering(r1.drop_last(), r2.drop_last());
        assert(r1.last().end_sector == e1[r1.len() - 1]);
        assert(r2.last().end_sector == e2[r2.len() - 1]);
    }
}

/// The highest end sector across `records`, as a value.
pub fn max_end_of(records: &Vec<PartitionRecord>) -> (r: u64)
    ensures
        r as int == max_end_sector(records@),
{
    let mut m: u64 = 0;
    let mut i: usize = 0;
    proof {
        assert(records@.take(0) =~= Seq::<PartitionRecord>::empty());
    }
    while i < records.len()
        invariant
            0 <= i <= records@.len(),
            m as int == max_end_sector(records@.take(i as int)),
        decreases records@.len() - i,
    {
        proof {
            assert(records@.take(i + 1).drop_last() =~= records@.take(i as int));
            assert(records@.take(i + 1).last() == records@[i as int]);
        }
        let e = records[i].end_sector;
        if e > m {
            m = e;
        }
        i = i + 1;
    }
    proof {
        assert(records@.take(records@.len() as int) =~= records@);
    }
    m
}

/// Computes the shrink target, refusing an overflowing size at run time.
///
/// Fails with `NoPartitionsFound` exactly when `records` is empty — an image
/// with no discoverable partitions means inspection itself went wrong, so
/// this is a hard stop, never a zero-size plan.  Otherwise the target is
/// exact: `sector_size * max_end_sector + 34 * sector_size`; `Ok(None)` is
/// returned when that does not fit in a `u64`.
pub fn plan_checked(sector_size: u64, records: &Vec<PartitionRecord>) -> (r: Result<
    Option<ShrinkTarget>,
    StepError,
>)
    ensures
        records@.len() == 0 <==> r matches Err(StepError::NoPartitionsFound),
        r is Err ==> r matches Err(StepError::NoPartitionsFound),
        (records@.len() > 0 && planned_size(sector_size as int, max_end_sector(records@))
            <= u64::MAX) <==> (r matches Ok(t) && t is Some),
        r matches Ok(Some(t)) ==> t.sector_size == sector_size && t.last_sector as int
            == max_end_sector(records@) && t.new_disk_size_bytes as int == planned_size(
            sector_size as int,
            max_end_sector(records@),
        ),
{
    if records.len() == 0 {
        return Err(StepError::NoPartitionsFound);
    }
    let last_sector = max_end_of(records);
    let ghost plan = planned_size(sector_size as int, max_end_sector(records@));
    proof {
        assert(sector_size as int * last_sector as int >= 0) by (nonlinear_arith)
            requires
                sector_size >= 0,
                last_sector >= 0,
        ;
    }
    let data_bytes = match sector_size.checked_mul(last_sector) {
        Some(b) => b,
        None => {
            assert(plan > u64::MAX);
            return Ok(None);
        },
    };
    let gpt_bytes = match SECONDARY_GPT_SECTORS.checked_mul(sector_size) {
        Some(b) => b,
        None => {
            assert(plan > u64::MAX);
            return Ok(None);
        },
    };
    let new_disk_size_bytes = match data_bytes.checked_add(gpt_bytes) {
        Some(b) => b,
        None => {
            assert(plan > u64::MAX);
            return Ok(None);
        },
    };
    Ok(
        Some(
            ShrinkTarget {
                sector_size,
                last_sector,
                new_disk_size_bytes,
            },
        ),
    )
}

/// Computes the shrink target from a known-fitting geometry.
///
/// Fails with `NoPartitionsFound` exactly when `records` is empty; otherwise
/// returns the exact target for `sector_size` and the highest end sector.
pub fn plan(sector_size: u64, records: &Vec<PartitionRecord>) -> (r: Result<
    ShrinkTarget,
    StepError,
>)
    requires
        records@.len() > 0 ==> planned_size(sector_size as int, max_end_sector(records@))
            <= u64::MAX,
    ensures
        records@.len() == 0 <==> r matches Err(StepError::NoPartitionsFound),
        records@.len() > 0 ==> (r matches Ok(t) && t.sector_size == sector_size
            && t.last_sector as int == max_end_sector(records@) && t.new_disk_size_bytes as int
            == planned_size(sector_size as int, max_end_sector(records@))),
{
    match plan_checked(sector_size, records) {
        Err(e) => Err(e),
        Ok(Some(t)) => Ok(t),
        Ok(None) => {
            proof {
                assert(false);
            }
            unreached()
        },
    }
}

} // verus!
