use sbom_scanner::npm::{
    aggregate_resolutions, resolve_reply, select_npm_packages, RegistryReply, SbomEntry,
};
use sbom_scanner::pipeline::{step, Action, Event, Stage};
use sbom_scanner::scan::{clone_args, render_report, Finding, ScanReport};

#[test]
fn success_path_runs_every_stage_then_cleans_up() {
    let (s, a) = step(Stage::Start, Event::ResolutionDone { ok: true });
    assert_eq!((s, a), (Stage::Resolved, Action::Acquire));
    let (s, a) = step(s, Event::AcquisitionDone);
    assert_eq!((s, a), (Stage::Acquired, Action::Scan));
    let (s, a) = step(s, Event::ScanDone { ok: true });
    assert_eq!((s, a), (Stage::Scanned, Action::Render));
    let (s, a) = step(s, Event::RenderDone);
    assert_eq!((s, a), (Stage::Rendered, Action::Cleanup));
    let (s, a) = step(s, Event::CleanupDone);
    assert_eq!((s, a), (Stage::CleanedUp, Action::Stop));
}

#[test]
fn resolution_failure_aborts_without_cleanup() {
    let (s, a) = step(Stage::Start, Event::ResolutionDone { ok: false });
    assert_eq!((s, a), (Stage::Aborted, Action::ReportError));
    let (s, a) = step(s, Event::ErrorReported);
    assert_eq!((s, a), (Stage::Aborted, Action::Stop));
}

#[test]
fn scan_failure_reports_skips_rendering_and_still_cleans_up() {
    let (s, a) = step(Stage::Acquired, Event::ScanDone { ok: false });
    assert_eq!((s, a), (Stage::ScanFailed, Action::ReportError));
    let (s, a) = step(s, Event::ErrorReported);
    assert_eq!((s, a), (Stage::ScanFailed, Action::Cleanup));
    let (s, a) = step(s, Event::CleanupDone);
    assert_eq!((s, a), (Stage::CleanedUp, Action::Stop));
}

#[test]
fn unexpected_event_stops_without_changing_stage() {
    let (s, a) = step(Stage::Resolved, Event::CleanupDone);
    assert_eq!((s, a), (Stage::Resolved, Action::Stop));
}

#[test]
fn end_to_end_left_pad_scenario() {
    // One SBOM entry with the ecosystem prefix.
    let entries = vec![SbomEntry {
        name: "npm:left-pad".to_string(),
        version: "1.3.0".to_string(),
    }];
    let packages = select_npm_packages(&entries);
    assert_eq!(packages.len(), 1);
    assert_eq!(packages[0].name, "left-pad");
    assert_eq!(packages[0].version, "1.3.0");

    // The registry lookup resolves the declared repository field.
    let reply = RegistryReply::Repository(
        "git+https://github.com/stevemao/left-pad.git".to_string(),
    );
    let outcomes = vec![resolve_reply(&reply)];
    let resolved = aggregate_resolutions(&packages, &outcomes).unwrap();
    assert_eq!(resolved.len(), 1);
    assert_eq!(resolved[0].1, "https://github.com/stevemao/left-pad");

    // Acquisition checks out the pinned tag into the package's directory.
    let args = clone_args(&resolved[0].0, &resolved[0].1);
    assert_eq!(args[2], "1.3.0");
    assert_eq!(args[6], "./packages/left-pad");

    // The orchestrator walks the success path.
    let (s, _) = step(Stage::Start, Event::ResolutionDone { ok: true });
    let (s, _) = step(s, Event::AcquisitionDone);
    let (s, a) = step(s, Event::ScanDone { ok: true });
    assert_eq!(a, Action::Render);
    assert_eq!(s, Stage::Scanned);

    // Clean-mode rendering prints one block with the package path.
    let finding = Finding {
        path: Some("left-pad/index.js".to_string()),
        check_id: Some("javascript.audit.code-string-concat".to_string()),
        confidence: None,
        impact: None,
        message: None,
        start_line: Some(1),
        end_line: Some(2),
    };
    let report = ScanReport { results: Some(vec![finding]) };
    let rendered = render_report(&report);
    assert_eq!(
        rendered,
        "--- \n\n\
         Finding in package: left-pad/index.js\n\
         Rule: code-string-concat\n\
         Lines: 1-2\n\
         \n--- \n\n"
    );
}
