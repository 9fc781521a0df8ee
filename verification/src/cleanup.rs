use vstd::prelude::*;
use crate::settings::Settings;

verus! {

/// Most removal rounds one sweep makes.
pub open spec fn max_rounds() -> nat {
    100
}

/// Entries removed per round.
pub open spec fn batch_size() -> i32 {
    10
}

/// What the sweep asks the storage layer to do next.
#[derive(Debug, Clone, Copy, PartialEq, Eq, Structural)]
pub enum CleanupAction {
    /// Remove the unpinned entries older than this many days, with the image
    /// files no remaining entry refers to.
    RemoveExpired(u32),
    /// Measure the text bytes in the database and the bytes of the image folder.
    MeasureStorage,
    /// Remove at most this many of the oldest unpinned entries, with the image
    /// files no remaining entry refers to.
    RemoveOldest(i32),
    /// Remove the image files that no entry refers to (such as those left by
    /// deleting an entry).
    RemoveUnreferencedFiles,
    /// The sweep is over.
    Finish,
}

/// What the storage layer reports back.
#[derive(Debug, Clone, Copy, PartialEq, Eq, Structural)]
pub enum CleanupEvent {
    /// The age-based removal ran (whether or not it succeeded).
    ExpiredRemoved,
    /// Text bytes in the database and bytes of the image folder.
    StorageMeasured { text_bytes: u64, image_bytes: u64 },
    /// A removal round succeeded and removed this many entries.
    OldestRemoved { removed: usize },
    /// A removal round failed.
    RemovalFailed,
    /// The unreferenced image files were removed (whether or not it succeeded).
    UnreferencedFilesRemoved,
}

/// Where a sweep stands.
#[derive(Debug, Clone, Copy, PartialEq, Eq, Structural)]
pub enum Stage {
    Expiry,
    FirstMeasure,
    Measure,
    Remove,
    Orphans,
    Done,
}

/// One storage sweep: the age-based removal when a retention period is set,
/// then removal rounds of the oldest unpinned entries while the storage is
/// over its cap (at most `max_rounds` of them, and only while a round removes
/// something), then the removal of image files that no entry refers to.
pub struct CleanupRun {
    cap_bytes: u64,
    stage: Stage,
    rounds: u32,
}

impl CleanupRun {
    pub closed spec fn cap(&self) -> u64 {
        self.cap_bytes
    }

    pub closed spec fn stage(&self) -> Stage {
        self.stage
    }

    /// Removal rounds asked for so far.
    pub closed spec fn rounds(&self) -> nat {
        self.rounds as nat
    }

    #[verifier::type_invariant]
    closed spec fn well_formed(&self) -> bool {
        &&& self.rounds <= max_rounds()
        &&& self.stage == Stage::Measure ==> self.rounds < max_rounds()
        &&& (self.stage == Stage::Expiry || self.stage == Stage::FirstMeasure) ==> self.rounds
            == 0
    }

    /// The stage and action that follow `event` in stage `stage` after
    /// `rounds` removal rounds, under a cap of `cap` bytes.
    pub open spec fn next(stage: Stage, rounds: nat, cap: u64, event: CleanupEvent) -> (
        Stage,
        nat,
        CleanupAction,
    ) {
        match (stage, event) {
            (Stage::Expiry, CleanupEvent::ExpiredRemoved) => (
                Stage::FirstMeasure,
                rounds,
                CleanupAction::MeasureStorage,
            ),
            (Stage::FirstMeasure, CleanupEvent::StorageMeasured { text_bytes, image_bytes }) => {
                if text_bytes + image_bytes > cap {
                    (Stage::Measure, rounds, CleanupAction::MeasureStorage)
                } else {
                    (Stage::Orphans, rounds, CleanupAction::RemoveUnreferencedFiles)
                }
            },
            (Stage::Measure, CleanupEvent::StorageMeasured { text_bytes, image_bytes }) => {
                if text_bytes + image_bytes > cap {
                    (Stage::Remove, rounds + 1, CleanupAction::RemoveOldest(batch_size()))
                } else {
                    (Stage::Orphans, rounds, CleanupAction::RemoveUnreferencedFiles)
                }
            },
            (Stage::Remove, CleanupEvent::OldestRemoved { removed }) => {
                if removed == 0 || rounds >= max_rounds() {
                    (Stage::Orphans, rounds, CleanupAction::RemoveUnreferencedFiles)
                } else {
                    (Stage::Measure, rounds, CleanupAction::MeasureStorage)
                }
            },
            (Stage::Remove, CleanupEvent::RemovalFailed) => (
                Stage::Orphans,
                rounds,
                CleanupAction::RemoveUnreferencedFiles,
            ),
            (Stage::Orphans, CleanupEvent::UnreferencedFilesRemoved) => (
                Stage::Done,
                rounds,
                CleanupAction::Finish,
            ),
            _ => (Stage::Done, rounds, CleanupAction::Finish),
        }
    }

    /// Starts a sweep under `settings`, with the first action to perform.
    pub fn start(settings: &Settings) -> (r: (CleanupRun, CleanupAction))
        ensures
            r.0.cap() == settings.storage_cap_mb as int * 1048576,
            r.0.rounds() == 0,
            settings.retention_days > 0 ==> r.0.stage() == Stage::Expiry && r.1
                == CleanupAction::RemoveExpired(settings.retention_days),
            settings.retention_days == 0 ==> r.0.stage() == Stage::FirstMeasure && r.1
                == CleanupAction::MeasureStorage,
    {
        let cap_bytes = settings.storage_cap_bytes();
        if settings.retention_enabled() {
            (
                CleanupRun { cap_bytes, stage: Stage::Expiry, rounds: 0 },
                CleanupAction::RemoveExpired(settings.retention_days),
            )
        } else {
            (
                CleanupRun { cap_bytes, stage: Stage::FirstMeasure, rounds: 0 },
                CleanupAction::MeasureStorage,
            )
        }
    }

    /// Takes the report of the last action and gives the next one.
    pub fn advance(&mut self, event: CleanupEvent) -> (r: CleanupAction)
        ensures
            ({
                let (stage, rounds, action) = CleanupRun::next(
                    old(self).stage(),
                    old(self).rounds(),
                    old(self).cap(),
                    event,
                );
                &&& final(self).stage() == stage
                &&& final(self).rounds() == rounds
                &&& r == action
            }),
            final(self).cap() == old(self).cap(),
            final(self).rounds() <= 100,
    {
        proof {
            use_type_invariant(&*self);
        }
        let mut rounds = self.rounds;
        let (stage, action) = match (self.stage, event) {
            (Stage::Expiry, CleanupEvent::ExpiredRemoved) => (
                Stage::FirstMeasure,
                CleanupAction::MeasureStorage,
            ),
            (Stage::FirstMeasure, CleanupEvent::StorageMeasured { text_bytes, image_bytes }) => {
                if text_bytes as u128 + image_bytes as u128 > self.cap_bytes as u128 {
                    (Stage::Measure, CleanupAction::MeasureStorage)
                } else {
                    (Stage::Orphans, CleanupAction::RemoveUnreferencedFiles)
                }
            },
            (Stage::Measure, CleanupEvent::StorageMeasured { text_bytes, image_bytes }) => {
                if text_bytes as u128 + image_bytes as u128 > self.cap_bytes as u128 {
                    rounds = rounds + 1;
                    (Stage::Remove, CleanupAction::RemoveOldest(10))
                } else {
                    (Stage::Orphans, CleanupAction::RemoveUnreferencedFiles)
                }
            },
            (Stage::Remove, CleanupEvent::OldestRemoved { removed }) => {
                if removed == 0 || rounds >= 100 {
                    (Stage::Orphans, CleanupAction::RemoveUnreferencedFiles)
                } else {
                    (Stage::Measure, CleanupAction::MeasureStorage)
                }
            },
            (Stage::Remove, CleanupEvent::RemovalFailed) => (
                Stage::Orphans,
                CleanupAction::RemoveUnreferencedFiles,
            ),
            (Stage::Orphans, CleanupEvent::UnreferencedFilesRemoved) => (
                Stage::Done,
                CleanupAction::Finish,
            ),
            _ => (Stage::Done, CleanupAction::Finish),
        };
        *self = CleanupRun { cap_bytes: self.cap_bytes, stage, rounds };
        action
    }
}

/// A sweep never asks for more than `max_rounds` removal rounds: each
/// `RemoveOldest` adds one round, and no state past the bound asks again.
pub proof fn lemma_rounds_bounded(stage: Stage, rounds: nat, cap: u64, event: CleanupEvent)
    requires
        rounds <= 100,
        stage == Stage::Measure ==> rounds < 100,
        (stage == Stage::Expiry || stage == Stage::FirstMeasure) ==> rounds == 0,
    ensures
        ({
            let (s2, r2, a) = CleanupRun::next(stage, rounds, cap, event);
            &&& r2 <= 100
            &&& s2 == Stage::Measure ==> r2 < 100
            &&& (s2 == Stage::Expiry || s2 == Stage::FirstMeasure) ==> r2 == 0
            &&& a is RemoveOldest ==> r2 == rounds + 1
            &&& !(a is RemoveOldest) ==> r2 == rounds
        }),
{
}

/// The number of removal rounds a sweep asks for while it takes `events`.
pub open spec fn removals_in_run(stage: Stage, rounds: nat, cap: u64, events: Seq<CleanupEvent>) -> nat
    decreases events.len(),
{
    if events.len() == 0 {
        0
    } else {
        let (s2, r2, a) = CleanupRun::next(stage, rounds, cap, events[0]);
        (if a is RemoveOldest {
            1nat
        } else {
            0nat
        }) + removals_in_run(s2, r2, cap, events.drop_first())
    }
}

/// Whatever the storage layer reports, one sweep asks for at most
/// `max_rounds` removal rounds in all.
pub proof fn lemma_sweep_removal_bound(
    stage: Stage,
    rounds: nat,
    cap: u64,
    events: Seq<CleanupEvent>,
)
    requires
        rounds <= 100,
        stage == Stage::Measure ==> rounds < 100,
        (stage == Stage::Expiry || stage == Stage::FirstMeasure) ==> rounds == 0,
    ensures
        rounds + removals_in_run(stage, rounds, cap, events) <= 100,
    decreases events.len(),
{
    if events.len() > 0 {
        let (s2, r2, a) = CleanupRun::next(stage, rounds, cap, events[0]);
        lemma_rounds_bounded(stage, rounds, cap, events[0]);
        lemma_sweep_removal_bound(s2, r2, cap, events.drop_first());
    }
}

/// Entries are removed for space only on a measurement over the cap: a
/// measurement within the cap ends the removal rounds and goes on to the
/// unreferenced files.
pub proof fn lemma_no_removal_within_cap(
    stage: Stage,
    rounds: nat,
    cap: u64,
    text_bytes: u64,
    image_bytes: u64,
)
    requires
        text_bytes + image_bytes <= cap,
    ensures
        ({
            let (s2, r2, a) = CleanupRun::next(
                stage,
                rounds,
                cap,
                CleanupEvent::StorageMeasured { text_bytes, image_bytes },
            );
            &&& !(a is RemoveOldest)
            &&& (stage == Stage::FirstMeasure || stage == Stage::Measure) ==> a
                == CleanupAction::RemoveUnreferencedFiles && s2 == Stage::Orphans
        }),
{
}

/// The phases follow each other: after the age-based removal comes a
/// measurement; a first measurement over the cap, whatever its split between
/// text and images, leads on to the removal rounds, and one within the cap to
/// the unreferenced files; after those the sweep is over.
pub proof fn lemma_phase_order(rounds: nat, cap: u64, text_bytes: u64, image_bytes: u64)
    ensures
        CleanupRun::next(Stage::Expiry, rounds, cap, CleanupEvent::ExpiredRemoved) == (
            Stage::FirstMeasure,
            rounds,
            CleanupAction::MeasureStorage,
        ),
        text_bytes + image_bytes > cap ==> CleanupRun::next(
            Stage::FirstMeasure,
            rounds,
            cap,
            CleanupEvent::StorageMeasured { text_bytes, image_bytes },
        ) == (Stage::Measure, rounds, CleanupAction::MeasureStorage),
        text_bytes + image_bytes <= cap ==> CleanupRun::next(
            Stage::FirstMeasure,
            rounds,
            cap,
            CleanupEvent::StorageMeasured { text_bytes, image_bytes },
        ) == (Stage::Orphans, rounds, CleanupAction::RemoveUnreferencedFiles),
        CleanupRun::next(Stage::Orphans, rounds, cap, CleanupEvent::UnreferencedFilesRemoved) == (
            Stage::Done,
            rounds,
            CleanupAction::Finish,
        ),
{
}

/// The storage cap is kept: while measurements are over the cap, the sweep
/// keeps removing rounds of entries as long as each round removes some and
/// fewer than `max_rounds` rounds were made.
pub proof fn lemma_continues_while_over_cap(
    rounds: nat,
    cap: u64,
    text_bytes: u64,
    image_bytes: u64,
    removed: usize,
)
    requires
        text_bytes + image_bytes > cap,
    ensures
        CleanupRun::next(
            Stage::Measure,
            rounds,
            cap,
            CleanupEvent::StorageMeasured { text_bytes, image_bytes },
        ) == (Stage::Remove, rounds + 1, CleanupAction::RemoveOldest(10)),
        removed > 0 && rounds < 100 ==> CleanupRun::next(
            Stage::Remove,
            rounds,
            cap,
            CleanupEvent::OldestRemoved { removed },
        ) == (Stage::Measure, rounds, CleanupAction::MeasureStorage),
{
}

/// The removal rounds stop only when a round removed nothing, the round
/// limit is reached, or a round failed; then the unreferenced files are removed.
pub proof fn lemma_rounds_end_with_file_removal(rounds: nat, cap: u64, event: CleanupEvent)
    ensures
        ({
            let (s2, r2, a) = CleanupRun::next(Stage::Remove, rounds, cap, event);
            &&& a is MeasureStorage ==> (event matches CleanupEvent::OldestRemoved { removed } && removed
                > 0 && rounds < 100)
            &&& (event matches CleanupEvent::OldestRemoved { removed } && (removed == 0 || rounds
                >= 100)) ==> a == CleanupAction::RemoveUnreferencedFiles
            &&& event == CleanupEvent::RemovalFailed ==> a == CleanupAction::RemoveUnreferencedFiles
        }),
{
}

/// Every removal round answers a measurement over the cap.
pub proof fn lemma_removal_needs_excess(stage: Stage, rounds: nat, cap: u64, event: CleanupEvent)
    ensures
        ({
            let (s2, r2, a) = CleanupRun::next(stage, rounds, cap, event);
            a is RemoveOldest ==> (event matches CleanupEvent::StorageMeasured {
                text_bytes,
                image_bytes,
            } && text_bytes + image_bytes > cap && stage == Stage::Measure)
        }),
{
}

/// A finished sweep stays finished.
pub proof fn lemma_done_is_final(rounds: nat, cap: u64, event: CleanupEvent)
    ensures
        CleanupRun::next(Stage::Done, rounds, cap, event) == (
            Stage::Done,
            rounds,
            CleanupAction::Finish,
        ),
{
}

} // verus!
