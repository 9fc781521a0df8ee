use meclipboard::cleanup::{CleanupAction, CleanupEvent, CleanupRun};
use meclipboard::settings::Settings;

const MIB: u64 = 1024 * 1024;

fn measured(text_bytes: u64, image_bytes: u64) -> CleanupEvent {
    CleanupEvent::StorageMeasured { text_bytes, image_bytes }
}

#[test]
fn retention_first_then_measure_within_cap() {
    let s = Settings { retention_days: 30, storage_cap_mb: 1, autostart: false };
    let (mut run, a) = CleanupRun::start(&s);
    assert_eq!(a, CleanupAction::RemoveExpired(30));
    assert_eq!(run.advance(CleanupEvent::ExpiredRemoved), CleanupAction::MeasureStorage);
    assert_eq!(run.advance(measured(MIB / 2, MIB / 2)), CleanupAction::RemoveUnreferencedFiles);
    assert_eq!(run.advance(CleanupEvent::UnreferencedFilesRemoved), CleanupAction::Finish);
    assert_eq!(run.advance(measured(10 * MIB, 0)), CleanupAction::Finish);
}

#[test]
fn no_retention_starts_with_measurement() {
    let s = Settings { retention_days: 0, storage_cap_mb: 1, autostart: false };
    let (_run, a) = CleanupRun::start(&s);
    assert_eq!(a, CleanupAction::MeasureStorage);
}

#[test]
fn over_cap_removes_in_batches_until_within() {
    let s = Settings { retention_days: 0, storage_cap_mb: 1, autostart: false };
    let (mut run, _) = CleanupRun::start(&s);
    assert_eq!(run.advance(measured(MIB, 1)), CleanupAction::MeasureStorage);
    assert_eq!(run.advance(measured(MIB, 1)), CleanupAction::RemoveOldest(10));
    assert_eq!(run.advance(CleanupEvent::OldestRemoved { removed: 3 }), CleanupAction::MeasureStorage);
    assert_eq!(run.advance(measured(MIB, 0)), CleanupAction::RemoveUnreferencedFiles);
    assert_eq!(run.advance(CleanupEvent::UnreferencedFilesRemoved), CleanupAction::Finish);
}

#[test]
fn round_removing_nothing_ends_rounds() {
    let s = Settings { retention_days: 0, storage_cap_mb: 0, autostart: false };
    let (mut run, _) = CleanupRun::start(&s);
    assert_eq!(run.advance(measured(1, 0)), CleanupAction::MeasureStorage);
    assert_eq!(run.advance(measured(1, 0)), CleanupAction::RemoveOldest(10));
    assert_eq!(run.advance(CleanupEvent::OldestRemoved { removed: 0 }), CleanupAction::RemoveUnreferencedFiles);
}

#[test]
fn failed_round_ends_sweep() {
    let s = Settings { retention_days: 0, storage_cap_mb: 0, autostart: false };
    let (mut run, _) = CleanupRun::start(&s);
    run.advance(measured(1, 0));
    assert_eq!(run.advance(measured(1, 0)), CleanupAction::RemoveOldest(10));
    assert_eq!(run.advance(CleanupEvent::RemovalFailed), CleanupAction::RemoveUnreferencedFiles);
    assert_eq!(run.advance(CleanupEvent::UnreferencedFilesRemoved), CleanupAction::Finish);
}

#[test]
fn at_most_one_hundred_rounds() {
    let s = Settings { retention_days: 0, storage_cap_mb: 0, autostart: false };
    let (mut run, _) = CleanupRun::start(&s);
    assert_eq!(run.advance(measured(5, 5)), CleanupAction::MeasureStorage);
    let mut rounds = 0;
    loop {
        match run.advance(measured(5, 5)) {
            CleanupAction::RemoveOldest(n) => {
                assert_eq!(n, 10);
                rounds += 1;
                match run.advance(CleanupEvent::OldestRemoved { removed: 10 }) {
                    CleanupAction::MeasureStorage => {}
                    CleanupAction::RemoveUnreferencedFiles => break,
                    other => panic!("unexpected {:?}", other),
                }
            }
            other => panic!("unexpected {:?}", other),
        }
    }
    assert_eq!(rounds, 100);
}

#[test]
fn out_of_order_report_ends_sweep() {
    let s = Settings { retention_days: 5, storage_cap_mb: 0, autostart: false };
    let (mut run, _) = CleanupRun::start(&s);
    assert_eq!(run.advance(measured(1, 1)), CleanupAction::Finish);
}

#[test]
fn huge_sizes_do_not_overflow_the_comparison() {
    let s = Settings { retention_days: 0, storage_cap_mb: u32::MAX, autostart: false };
    let (mut run, _) = CleanupRun::start(&s);
    assert_eq!(run.advance(measured(u64::MAX, u64::MAX)), CleanupAction::MeasureStorage);
}

#[test]
fn text_only_rounds_continue_while_over_cap() {
    let s = Settings { retention_days: 0, storage_cap_mb: 1, autostart: false };
    let (mut run, _) = CleanupRun::start(&s);
    assert_eq!(run.advance(measured(3 * MIB, 0)), CleanupAction::MeasureStorage);
    assert_eq!(run.advance(measured(3 * MIB, 0)), CleanupAction::RemoveOldest(10));
    assert_eq!(run.advance(CleanupEvent::OldestRemoved { removed: 10 }), CleanupAction::MeasureStorage);
    assert_eq!(run.advance(measured(2 * MIB, 0)), CleanupAction::RemoveOldest(10));
}
