//! The orchestrator's decision logic as a state machine: which stage a
//! run is in, what the outside world reported back, and which action to
//! perform next. The I/O shell drives the machine in a loop, performing
//! each prescribed action and handing the resulting event back; every
//! decision of the run is taken here.

use vstd::prelude::*;

verus! {

/// The stage a pipeline run is in.
#[derive(Debug, Clone, Copy, PartialEq, Eq, Structural)]
pub enum Stage {
    /// Nothing has happened yet; resolution is in flight.
    Start,
    /// Every package resolved to a repository URL.
    Resolved,
    /// All acquisitions were joined; the workspace is populated.
    Acquired,
    /// The scanner exited successfully.
    Scanned,
    /// The findings were rendered and written.
    Rendered,
    /// The scanner failed after the workspace was populated.
    ScanFailed,
    /// Resolution failed: the run stops before anything is materialized.
    Aborted,
    /// The workspace was removed; the run is over.
    CleanedUp,
}

/// What the outside world reports back after performing an action.
#[derive(Debug, Clone, Copy, PartialEq, Eq, Structural)]
pub enum Event {
    /// Bulk resolution finished, successfully or not.
    ResolutionDone { ok: bool },
    /// Every acquisition was joined.
    AcquisitionDone,
    /// The scanner exited, successfully or not.
    ScanDone { ok: bool },
    /// The rendered output was written.
    RenderDone,
    /// The failure diagnostic was written to the error stream.
    ErrorReported,
    /// The workspace was removed.
    CleanupDone,
}

/// What the orchestrator asks the outside world to do next.
#[derive(Debug, Clone, Copy, PartialEq, Eq, Structural)]
pub enum Action {
    /// Launch all acquisitions concurrently and join every one.
    Acquire,
    /// Invoke the scanner over the workspace.
    Scan,
    /// Render the findings and write them out.
    Render,
    /// Write the failure diagnostic to the error stream.
    ReportError,
    /// Remove the acquisition workspace.
    Cleanup,
    /// The run is over.
    Stop,
}

/// The transition relation: next stage and next action for each stage
/// and event. A resolution failure aborts before any filesystem
/// mutation; a scan failure is reported, skips rendering, and still
/// reaches cleanup; the success path renders and then cleans up. An
/// event that does not belong to the stage leaves the stage unchanged
/// and stops.
pub open spec fn spec_step(stage: Stage, event: Event) -> (Stage, Action) {
    match (stage, event) {
        (Stage::Start, Event::ResolutionDone { ok: true }) => (Stage::Resolved, Action::Acquire),
        (Stage::Start, Event::ResolutionDone { ok: false }) => (Stage::Aborted, Action::ReportError),
        (Stage::Resolved, Event::AcquisitionDone) => (Stage::Acquired, Action::Scan),
        (Stage::Acquired, Event::ScanDone { ok: true }) => (Stage::Scanned, Action::Render),
        (Stage::Acquired, Event::ScanDone { ok: false }) => (Stage::ScanFailed, Action::ReportError),
        (Stage::Scanned, Event::RenderDone) => (Stage::Rendered, Action::Cleanup),
        (Stage::ScanFailed, Event::ErrorReported) => (Stage::ScanFailed, Action::Cleanup),
        (Stage::Rendered, Event::CleanupDone) => (Stage::CleanedUp, Action::Stop),
        (Stage::ScanFailed, Event::CleanupDone) => (Stage::CleanedUp, Action::Stop),
        (Stage::Aborted, Event::ErrorReported) => (Stage::Aborted, Action::Stop),
        (s, _) => (s, Action::Stop),
    }
}

/// Whether the workspace may have been populated by the time this stage
/// is reached.
pub open spec fn spec_workspace_populated(stage: Stage) -> bool {
    match stage {
        Stage::Acquired | Stage::Scanned | Stage::Rendered | Stage::ScanFailed => true,
        _ => false,
    }
}

/// One orchestrator decision.
pub fn step(stage: Stage, event: Event) -> (r: (Stage, Action))
    ensures
        r == spec_step(stage, event),
{
    match (stage, event) {
        (Stage::Start, Event::ResolutionDone { ok }) => {
            if ok {
                (Stage::Resolved, Action::Acquire)
            } else {
                (Stage::Aborted, Action::ReportError)
            }
        }
        (Stage::Resolved, Event::AcquisitionDone) => (Stage::Acquired, Action::Scan),
        (Stage::Acquired, Event::ScanDone { ok }) => {
            if ok {
                (Stage::Scanned, Action::Render)
            } else {
                (Stage::ScanFailed, Action::ReportError)
            }
        }
        (Stage::Scanned, Event::RenderDone) => (Stage::Rendered, Action::Cleanup),
        (Stage::ScanFailed, Event::ErrorReported) => (Stage::ScanFailed, Action::Cleanup),
        (Stage::Rendered, Event::CleanupDone) => (Stage::CleanedUp, Action::Stop),
        (Stage::ScanFailed, Event::CleanupDone) => (Stage::CleanedUp, Action::Stop),
        (Stage::Aborted, Event::ErrorReported) => (Stage::Aborted, Action::Stop),
        (s, _) => (s, Action::Stop),
    }
}

/// Cleanup is only ever prescribed once the workspace may be populated,
/// and an aborted run never acquires, scans, renders or cleans up:
/// a resolution failure stops the run before any filesystem mutation.
pub proof fn lemma_cleanup_only_after_acquisition(stage: Stage, event: Event)
    ensures
        spec_step(stage, event).1 == Action::Cleanup ==> spec_workspace_populated(stage),
        stage == Stage::Aborted ==> spec_step(stage, event).1 == Action::Stop,
{
}

/// Each action is prescribed only from its proper stage: acquisition
/// only after a successful resolution, a scan only after acquisition,
/// rendering only after a successful scan.
pub proof fn lemma_actions_follow_stages(stage: Stage, event: Event)
    ensures
        spec_step(stage, event).1 == Action::Acquire ==> stage == Stage::Start && event == (
        Event::ResolutionDone { ok: true }),
        spec_step(stage, event).1 == Action::Scan ==> stage == Stage::Resolved && event
            == Event::AcquisitionDone,
        spec_step(stage, event).1 == Action::Render ==> stage == Stage::Acquired && event == (
        Event::ScanDone { ok: true }),
{
}

/// A populated workspace is never abandoned: whatever the scanner
/// reported, every step taken from a populated stage either stays
/// populated or ends the run at the cleaned-up stage.
pub proof fn lemma_populated_until_cleaned(stage: Stage, event: Event)
    ensures
        spec_workspace_populated(stage) ==> spec_workspace_populated(spec_step(stage, event).0)
            || spec_step(stage, event).0 == Stage::CleanedUp,
{
}

/// The scan-failure path still reaches cleanup: the failure is
/// reported, rendering is skipped, the workspace is removed, and the
/// run ends.
pub proof fn lemma_scan_failure_reaches_cleanup()
    ensures
        spec_step(Stage::Acquired, Event::ScanDone { ok: false }) == (
            Stage::ScanFailed,
            Action::ReportError,
        ),
        spec_step(Stage::ScanFailed, Event::ErrorReported) == (Stage::ScanFailed, Action::Cleanup),
        spec_step(Stage::ScanFailed, Event::CleanupDone) == (Stage::CleanedUp, Action::Stop),
{
}

} // verus!
