use gpt_shrink::error::StepError;
use gpt_shrink::planner::ShrinkTarget;
use gpt_shrink::shrink::{shrink_on_exit, shrink_start, shrink_target_from_text, ShrinkStep};

fn target() -> ShrinkTarget {
    ShrinkTarget { sector_size: 512, last_sector: 62914559, new_disk_size_bytes: 32212271616 }
}

#[test]
fn first_attempt_carries_the_shrink_flag() {
    let (_, command) = shrink_start("disk.raw", &target());
    assert_eq!(
        command.argv(),
        vec!["resize", "--shrink", "-f", "raw", "disk.raw", "32212271616"]
    );
}

#[test]
fn fallback_retries_with_identical_arguments_minus_the_flag() {
    // The flagged invocation fails; the fallback succeeds.
    let mut invocations: Vec<Vec<String>> = Vec::new();
    let (session, command) = shrink_start("disk.raw", &target());
    invocations.push(command.argv());
    let step = shrink_on_exit(session, false);
    let (session, command) = match step {
        ShrinkStep::Retry(s, c) => (s, c),
        other => panic!("expected a fallback attempt, got {}", kind(&other)),
    };
    invocations.push(command.argv());
    match shrink_on_exit(session, true) {
        ShrinkStep::Done => {}
        other => panic!("expected success, got {}", kind(&other)),
    }
    assert_eq!(invocations.len(), 2);
    // Identical arguments, except that the flag (argument 1) is removed.
    let mut expected = invocations[0].clone();
    let removed = expected.remove(1);
    assert_eq!(removed, "--shrink");
    assert_eq!(invocations[1], expected);
}

#[test]
fn success_at_the_first_attempt_runs_nothing_more() {
    let (session, _) = shrink_start("disk.raw", &target());
    match shrink_on_exit(session, true) {
        ShrinkStep::Done => {}
        other => panic!("expected success, got {}", kind(&other)),
    }
}

#[test]
fn two_failures_yield_shrink_failed_and_no_third_attempt() {
    let mut invocations: Vec<Vec<String>> = Vec::new();
    let (session, command) = shrink_start("disk.raw", &target());
    invocations.push(command.argv());
    let step = shrink_on_exit(session, false);
    let (session, command) = match step {
        ShrinkStep::Retry(s, c) => (s, c),
        other => panic!("expected a fallback attempt, got {}", kind(&other)),
    };
    invocations.push(command.argv());
    match shrink_on_exit(session, false) {
        ShrinkStep::Failed(StepError::ShrinkFailed { image_path, new_disk_size_bytes }) => {
            assert_eq!(image_path, "disk.raw");
            assert_eq!(new_disk_size_bytes, 32212271616);
        }
        other => panic!("expected ShrinkFailed, got {}", kind(&other)),
    }
    // A failed fallback carries no further command: exactly two invocations.
    assert_eq!(invocations.len(), 2);
}

#[test]
fn shrink_target_parses_late_and_exactly() {
    let t = shrink_target_from_text("512", "62914559").unwrap().unwrap();
    assert_eq!(t, target());
}

#[test]
fn shrink_target_reports_malformed_numbers() {
    match shrink_target_from_text("512b", "62914559") {
        Err(StepError::MalformedNumber { text }) => assert_eq!(text, "512b"),
        other => panic!("expected MalformedNumber, got {other:?}"),
    }
    match shrink_target_from_text("512", "") {
        Err(StepError::MalformedNumber { text }) => assert_eq!(text, ""),
        other => panic!("expected MalformedNumber, got {other:?}"),
    }
}

#[test]
fn shrink_target_reports_an_overflowing_size() {
    assert_eq!(
        shrink_target_from_text("18446744073709551615", "2").unwrap(),
        None
    );
}

fn kind(step: &ShrinkStep) -> &'static str {
    match step {
        ShrinkStep::Retry(_, _) => "Retry",
        ShrinkStep::Done => "Done",
        ShrinkStep::Failed(_) => "Failed",
    }
}
