//! The orchestrator's state machine: fetch the listing page, extract the
//! links, download each file in link order, then report. The machine is
//! linear — no retries, no backward transitions — and any stage failure
//! moves it to `Failed`, where it stays and asks for nothing further.
//! The caller performs each requested action and hands the outcome back as
//! the next event.

use vstd::prelude::*;

verus! {

/// Where a run stands.
#[derive(Debug, Clone, Copy, PartialEq, Eq, Structural)]
pub enum Stage {
    Idle,
    Fetching,
    Extracting,
    Downloading { next: usize, total: usize },
    Done { total: usize },
    Failed,
}

/// What the caller reports back: the outcome of the action it performed.
#[derive(Debug, Clone, Copy, PartialEq, Eq, Structural)]
pub enum Event {
    Begin,
    PageFetched,
    FetchFailed,
    LinksExtracted { count: usize },
    ExtractFailed,
    FileSaved,
    SaveFailed,
}

/// What the machine asks the caller to do next.
#[derive(Debug, Clone, Copy, PartialEq, Eq, Structural)]
pub enum Action {
    FetchPage,
    ExtractLinks,
    SaveFile { index: usize },
    ReportDone { downloaded: usize },
    ReportFailure,
}

/// A stage the machine can actually be in: a download in progress always
/// has links left to save.
pub open spec fn stage_wf(s: Stage) -> bool {
    match s {
        Stage::Downloading { next, total } => next < total,
        _ => true,
    }
}

/// The stage after `e` arrives in stage `s`. An event that does not belong
/// to the stage counts as a failure.
pub open spec fn next_stage(s: Stage, e: Event) -> Stage {
    match (s, e) {
        (Stage::Idle, Event::Begin) => Stage::Fetching,
        (Stage::Fetching, Event::PageFetched) => Stage::Extracting,
        (Stage::Extracting, Event::LinksExtracted { count }) => if count == 0 {
            Stage::Done { total: 0 }
        } else {
            Stage::Downloading { next: 0, total: count }
        },
        (Stage::Downloading { next, total }, Event::FileSaved) => if next + 1 == total {
            Stage::Done { total }
        } else {
            Stage::Downloading { next: (next + 1) as usize, total }
        },
        _ => Stage::Failed,
    }
}

/// The action the caller is asked to perform on that transition; `None`
/// once the machine can ask nothing more.
pub open spec fn transition_action(s: Stage, e: Event) -> Option<Action> {
    match (s, e) {
        (Stage::Idle, Event::Begin) => Some(Action::FetchPage),
        (Stage::Fetching, Event::PageFetched) => Some(Action::ExtractLinks),
        (Stage::Fetching, Event::FetchFailed) => Some(Action::ReportFailure),
        (Stage::Extracting, Event::LinksExtracted { count }) => if count == 0 {
            Some(Action::ReportDone { downloaded: 0 })
        } else {
            Some(Action::SaveFile { index: 0 })
        },
        (Stage::Extracting, Event::ExtractFailed) => Some(Action::ReportFailure),
        (Stage::Downloading { next, total }, Event::FileSaved) => if next + 1 == total {
            Some(Action::ReportDone { downloaded: total })
        } else {
            Some(Action::SaveFile { index: (next + 1) as usize })
        },
        (Stage::Downloading { .. }, Event::SaveFailed) => Some(Action::ReportFailure),
        _ => None,
    }
}

/// Moves the machine one step: the new stage, and what the caller is to do.
pub fn step(s: Stage, e: Event) -> (r: (Stage, Option<Action>))
    requires
        stage_wf(s),
    ensures
        r.0 == next_stage(s, e),
        r.1 == transition_action(s, e),
        stage_wf(r.0),
{
    match (s, e) {
        (Stage::Idle, Event::Begin) => (Stage::Fetching, Some(Action::FetchPage)),
        (Stage::Fetching, Event::PageFetched) => (Stage::Extracting, Some(Action::ExtractLinks)),
        (Stage::Fetching, Event::FetchFailed) => (Stage::Failed, Some(Action::ReportFailure)),
        (Stage::Extracting, Event::LinksExtracted { count }) => if count == 0 {
            (Stage::Done { total: 0 }, Some(Action::ReportDone { downloaded: 0 }))
        } else {
            (Stage::Downloading { next: 0, total: count }, Some(Action::SaveFile { index: 0 }))
        },
        (Stage::Extracting, Event::ExtractFailed) => (Stage::Failed, Some(Action::ReportFailure)),
        (Stage::Downloading { next, total }, Event::FileSaved) => if next + 1 == total {
            (Stage::Done { total }, Some(Action::ReportDone { downloaded: total }))
        } else {
            (
                Stage::Downloading { next: next + 1, total },
                Some(Action::SaveFile { index: next + 1 }),
            )
        },
        (Stage::Downloading { .. }, Event::SaveFailed) => (
            Stage::Failed,
            Some(Action::ReportFailure),
        ),
        _ => (Stage::Failed, None),
    }
}

/// A failed listing-page fetch ends the run at once: the machine reports
/// the failure and, being in `Failed`, never asks for an extraction or a
/// download afterwards.
pub proof fn lemma_fetch_failure_halts(e: Event)
    ensures
        next_stage(Stage::Fetching, Event::FetchFailed) == Stage::Failed,
        transition_action(Stage::Fetching, Event::FetchFailed) == Some(Action::ReportFailure),
        next_stage(Stage::Failed, e) == Stage::Failed,
        transition_action(Stage::Failed, e) == None::<Action>,
{
}

/// An empty link sequence is a valid terminal state: the run completes,
/// reporting zero files downloaded, without entering the download stage.
pub proof fn lemma_empty_extraction_completes()
    ensures
        next_stage(Stage::Extracting, Event::LinksExtracted { count: 0 }) == (Stage::Done {
            total: 0,
        }),
        transition_action(Stage::Extracting, Event::LinksExtracted { count: 0 }) == Some(
            Action::ReportDone { downloaded: 0 },
        ),
{
}

/// Downloads proceed in link order: saving file `next` of `total` asks for
/// file `next + 1`, until the last save completes the run with `total`
/// files downloaded.
pub proof fn lemma_downloads_in_order(next: usize, total: usize)
    requires
        next < total,
    ensures
        next + 1 < total ==> transition_action(
            Stage::Downloading { next, total },
            Event::FileSaved,
        ) == Some(Action::SaveFile { index: (next + 1) as usize }),
        next + 1 == total ==> transition_action(
            Stage::Downloading { next, total },
            Event::FileSaved,
        ) == Some(Action::ReportDone { downloaded: total }),
{
}

} // verus!
