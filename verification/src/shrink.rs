//! Shrink executor: the two-attempt resize policy.
//!
//! The resize itself is an external command the caller runs; this module
//! decides, exactly, which command to run and what to do with each exit
//! status.  The policy is attempt A (with the shrink capability flag that
//! recent tool versions require), on failure attempt B (the identical
//! request with the flag removed, for older tool builds), on failure of B
//! report `ShrinkFailed` — never a third attempt.

use vstd::prelude::*;

use crate::error::StepError;
use crate::num::{dec_seq_of, dec_value, is_u64_numeral, parse_u64, u64_to_string};
use crate::planner::{planned_size, ShrinkTarget};

verus! {

/// One resize request: the image to resize, the exact byte count as a
/// decimal string, and whether the shrink capability flag is passed.
pub struct ResizeCommand {
    pub image_path: String,
    pub new_size: String,
    pub shrink_flag: bool,
}

/// The argument list a resize request stands for.
pub open spec fn resize_argv(path: Seq<char>, size: Seq<char>, shrink_flag: bool) -> Seq<
    Seq<char>,
> {
    if shrink_flag {
        seq!["resize"@, "--shrink"@, "-f"@, "raw"@, path, size]
    } else {
        seq!["resize"@, "-f"@, "raw"@, path, size]
    }
}

/// Law: the fallback argument list is the flagged one with exactly the
/// shrink flag (argument 1) removed; everything else is identical.
pub proof fn lemma_fallback_removes_flag_only(path: Seq<char>, size: Seq<char>)
    ensures
        resize_argv(path, size, false) == resize_argv(path, size, true).remove(1),
        resize_argv(path, size, true)[1] == "--shrink"@,
{
    assert(resize_argv(path, size, false) =~= resize_argv(path, size, true).remove(1));
}

impl ResizeCommand {
    /// The argument list to hand the external resize tool.
    pub fn argv(&self) -> (r: Vec<String>)
        ensures
            r.deep_view() == resize_argv(self.image_path@, self.new_size@, self.shrink_flag),
    {
        let mut v: Vec<String> = Vec::new();
        v.push(String::from_str("resize"));
        if self.shrink_flag {
            v.push(String::from_str("--shrink"));
        }
        v.push(String::from_str("-f"));
        v.push(String::from_str("raw"));
        v.push(self.image_path.clone());
        v.push(self.new_size.clone());
        proof {
            assert(v.deep_view() =~= resize_argv(self.image_path@, self.new_size@,
                self.shrink_flag));
        }
        v
    }
}

/// Which attempt a shrink session is at.
pub enum ShrinkPhase {
    /// The first request, carrying the shrink capability flag.
    FlaggedAttempt,
    /// The second request, identical but with the flag removed.
    FallbackAttempt,
}

/// A shrink operation in flight: the request being retried and where the
/// two-attempt policy stands.
pub struct ShrinkSession {
    pub image_path: String,
    pub new_size: String,
    pub new_disk_size_bytes: u64,
    pub phase: ShrinkPhase,
}

impl ShrinkSession {
    /// The session's size string spells its byte count.
    pub open spec fn wf(&self) -> bool {
        self.new_size@ == dec_seq_of(self.new_disk_size_bytes as int)
    }
}

/// What the caller must do next with a shrink session.
pub enum ShrinkStep {
    /// Run the given request and report its exit status.
    Retry(ShrinkSession, ResizeCommand),
    /// The image was resized.
    Done,
    /// Both attempts failed; nothing further is tried.
    Failed(StepError),
}

/// Opens a shrink session for `target`, returning the first request to run:
/// the resize to `target.new_disk_size_bytes` with the capability flag.
pub fn shrink_start(image_path: &str, target: &ShrinkTarget) -> (r: (ShrinkSession, ResizeCommand))
    ensures
        r.0.wf(),
        r.0.image_path@ == image_path@,
        r.0.new_disk_size_bytes == target.new_disk_size_bytes,
        r.0.phase is FlaggedAttempt,
        r.1.image_path@ == image_path@,
        r.1.new_size@ == dec_seq_of(target.new_disk_size_bytes as int),
        r.1.shrink_flag == true,
{
    let new_size = u64_to_string(target.new_disk_size_bytes);
    let session = ShrinkSession {
        image_path: String::from_str(image_path),
        new_size: new_size.clone(),
        new_disk_size_bytes: target.new_disk_size_bytes,
        phase: ShrinkPhase::FlaggedAttempt,
    };
    let command = ResizeCommand {
        image_path: String::from_str(image_path),
        new_size,
        shrink_flag: true,
    };
    (session, command)
}

/// Advances a shrink session on one exit status.
///
/// Success at either attempt finishes the operation.  A failed flagged
/// attempt yields exactly one fallback request: the identical arguments with
/// the shrink flag removed.  A failed fallback yields `ShrinkFailed` with
/// the image path and target size; no third attempt exists.
pub fn shrink_on_exit(session: ShrinkSession, succeeded: bool) -> (r: ShrinkStep)
    requires
        session.wf(),
    ensures
        succeeded <==> r is Done,
        r is Retry <==> (!succeeded && session.phase is FlaggedAttempt),
        (r matches ShrinkStep::Retry(next, command) ==> {
            &&& next.wf()
            &&& next.image_path@ == session.image_path@
            &&& next.new_size@ == session.new_size@
            &&& next.new_disk_size_bytes == session.new_disk_size_bytes
            &&& next.phase is FallbackAttempt
            &&& command.image_path@ == session.image_path@
            &&& command.new_size@ == session.new_size@
            &&& command.shrink_flag == false
        }),
        !succeeded && session.phase is FallbackAttempt ==> (r matches ShrinkStep::Failed(e)
            && e matches StepError::ShrinkFailed { image_path, new_disk_size_bytes }
            && image_path@ == session.image_path@ && new_disk_size_bytes
            == session.new_disk_size_bytes),
{
    if succeeded {
        return ShrinkStep::Done;
    }
    match session.phase {
        ShrinkPhase::FlaggedAttempt => {
            let command = ResizeCommand {
                image_path: session.image_path.clone(),
                new_size: session.new_size.clone(),
                shrink_flag: false,
            };
            let next = ShrinkSession {
                image_path: session.image_path,
                new_size: session.new_size,
                new_disk_size_bytes: session.new_disk_size_bytes,
                phase: ShrinkPhase::FallbackAttempt,
            };
            ShrinkStep::Retry(next, command)
        },
        ShrinkPhase::FallbackAttempt => {
            ShrinkStep::Failed(
                StepError::ShrinkFailed {
                    image_path: session.image_path,
                    new_disk_size_bytes: session.new_disk_size_bytes,
                },
            )
        },
    }
}

/// Computes the shrink target from the two decimal strings an inspection
/// step hands over, parsing late.
///
/// Fails with `MalformedNumber` (carrying the offending text) exactly when
/// one of the strings is not a decimal `u64` numeral, the sector size
/// checked first.  `Ok(None)` is returned when the planned size does not fit
/// in a `u64`; otherwise the target is exact.
pub fn shrink_target_from_text(sector_size: &str, last_sector: &str) -> (r: Result<
    Option<ShrinkTarget>,
    StepError,
>)
    ensures
        r is Err <==> (!is_u64_numeral(sector_size@) || !is_u64_numeral(last_sector@)),
        !is_u64_numeral(sector_size@) ==> (r matches Err(StepError::MalformedNumber { text })
            && text@ == sector_size@),
        is_u64_numeral(sector_size@) && !is_u64_numeral(last_sector@) ==> (r matches Err(
            StepError::MalformedNumber { text },
        ) && text@ == last_sector@),
        (is_u64_numeral(sector_size@) && is_u64_numeral(last_sector@) && planned_size(
            dec_value(sector_size@),
            dec_value(last_sector@),
        ) <= u64::MAX) <==> (r matches Ok(t) && t is Some),
        r matches Ok(Some(t)) ==> t.sector_size as int == dec_value(sector_size@)
            && t.last_sector as int == dec_value(last_sector@) && t.new_disk_size_bytes as int
            == planned_size(dec_value(sector_size@), dec_value(last_sector@)),
{
    let sector_size_value = match parse_u64(sector_size) {
        Some(v) => v,
        None => {
            return Err(StepError::MalformedNumber { text: String::from_str(sector_size) });
        },
    };
    let last_sector_value = match parse_u64(last_sector) {
        Some(v) => v,
        None => {
            return Err(StepError::MalformedNumber { text: String::from_str(last_sector) });
        },
    };
    let ghost plan = planned_size(dec_value(sector_size@), dec_value(last_sector@));
    proof {
        assert(sector_size_value as int * last_sector_value as int >= 0) by (nonlinear_arith)
            requires
                sector_size_value >= 0,
                last_sector_value >= 0,
        ;
    }
    let data_bytes = match sector_size_value.checked_mul(last_sector_value) {
        Some(b) => b,
        None => {
            assert(plan > u64::MAX);
            return Ok(None);
        },
    };
    let gpt_bytes = match sector_size_value.checked_mul(34) {
        Some(b) => b,
        None => {
            assert(plan > u64::MAX);
            return Ok(None);
        },
    };
    let new_disk_size_bytes = match data_bytes.checked_add(gpt_bytes) {
        Some(b) => b,
        None => {
            assert(plan > u64::MAX);
            return Ok(None);
        },
    };
    Ok(
        Some(
            ShrinkTarget {
                sector_size: sector_size_value,
                last_sector: last_sector_value,
                new_disk_size_bytes,
            },
        ),
    )
}

} // verus!
