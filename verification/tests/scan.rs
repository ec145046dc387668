use sbom_scanner::npm::Package;
use sbom_scanner::scan::{
    clone_args, render_finding, render_report, scan_command, scan_outcome, Finding, OutputTypes,
    ScanReport,
};

fn empty_finding() -> Finding {
    Finding {
        path: None,
        check_id: None,
        confidence: None,
        impact: None,
        message: None,
        start_line: None,
        end_line: None,
    }
}

#[test]
fn flags_match_each_format() {
    assert_eq!(OutputTypes::Json.flag(), "--json");
    assert_eq!(OutputTypes::Semgrep.flag(), "");
    assert_eq!(OutputTypes::Emacs.flag(), "--emacs");
    assert_eq!(OutputTypes::GitlabSast.flag(), "--gitlab-sast");
    assert_eq!(OutputTypes::GitlabSecrets.flag(), "--gitlab-secrets");
    assert_eq!(OutputTypes::JUnitXml.flag(), "--junit-xml");
    assert_eq!(OutputTypes::Sarif.flag(), "--sarif");
    assert_eq!(OutputTypes::Text.flag(), "--text");
    assert_eq!(OutputTypes::Vim.flag(), "--vim");
}

#[test]
fn scan_command_native_has_no_flag() {
    assert_eq!(
        scan_command(&OutputTypes::Semgrep),
        "semgrep scan --config=auto packages/*"
    );
}

#[test]
fn scan_command_other_formats_add_flag_and_quiet() {
    assert_eq!(
        scan_command(&OutputTypes::Json),
        "semgrep scan --config=auto --json -q packages/*"
    );
    assert_eq!(
        scan_command(&OutputTypes::Sarif),
        "semgrep scan --config=auto --sarif -q packages/*"
    );
}

#[test]
fn scan_outcome_success_passes_stdout_through() {
    let r = scan_outcome(true, "findings".to_string(), "ignored");
    assert_eq!(r.unwrap(), "findings");
}

#[test]
fn scan_outcome_failure_prefers_stderr() {
    let r = scan_outcome(false, "out".to_string(), "boom");
    assert_eq!(r.unwrap_err(), "Semgrep command failed: boom");
}

#[test]
fn scan_outcome_failure_falls_back_to_stdout() {
    let r = scan_outcome(false, "out".to_string(), "");
    assert_eq!(r.unwrap_err(), "Semgrep command failed: out");
}

#[test]
fn clone_args_shape() {
    let p = Package { name: "left-pad".to_string(), version: "1.3.0".to_string() };
    let args = clone_args(&p, "https://github.com/stevemao/left-pad");
    assert_eq!(
        args,
        vec![
            "clone",
            "--branch",
            "1.3.0",
            "--depth",
            "1",
            "https://github.com/stevemao/left-pad",
            "./packages/left-pad",
        ]
    );
}

#[test]
fn render_absent_results_is_empty() {
    let report = ScanReport { results: None };
    assert_eq!(render_report(&report), "");
}

#[test]
fn render_empty_results_is_header_only() {
    let report = ScanReport { results: Some(Vec::new()) };
    assert_eq!(render_report(&report), "--- \n\n");
}

#[test]
fn render_full_finding_block() {
    let f = Finding {
        path: Some("left-pad/index.js".to_string()),
        check_id: Some("javascript.lang.security.code-string-concat".to_string()),
        confidence: Some("HIGH".to_string()),
        impact: Some("MEDIUM".to_string()),
        message: Some("string concatenation of code".to_string()),
        start_line: Some(3),
        end_line: Some(17),
    };
    let block = render_finding(&f);
    assert_eq!(
        block,
        "Finding in package: left-pad/index.js\n\
         Rule: code-string-concat\n\
         Confidence: HIGH\n\
         Impact: MEDIUM\n\
         Message: string concatenation of code\n\
         Lines: 3-17\n\
         \n--- \n\n"
    );
}

#[test]
fn render_omits_absent_fields_and_half_ranges() {
    let mut f = empty_finding();
    f.path = Some("pkg/a.js".to_string());
    f.start_line = Some(4);
    let block = render_finding(&f);
    assert_eq!(block, "Finding in package: pkg/a.js\n\n--- \n\n");

    let mut g = empty_finding();
    g.end_line = Some(9);
    assert_eq!(render_finding(&g), "\n--- \n\n");
}

#[test]
fn render_rule_without_dots_is_kept_whole() {
    let mut f = empty_finding();
    f.check_id = Some("bare-rule".to_string());
    assert_eq!(render_finding(&f), "Rule: bare-rule\n\n--- \n\n");
}

#[test]
fn render_large_line_numbers() {
    let mut f = empty_finding();
    f.start_line = Some(1234567890);
    f.end_line = Some(u64::MAX);
    assert_eq!(
        render_finding(&f),
        "Lines: 1234567890-18446744073709551615\n\n--- \n\n"
    );
}

#[test]
fn render_two_findings_produce_two_blocks() {
    let mut a = empty_finding();
    a.path = Some("x/a.js".to_string());
    let mut b = empty_finding();
    b.path = Some("y/b.js".to_string());
    b.start_line = Some(10);
    b.end_line = Some(12);
    let report = ScanReport { results: Some(vec![a, b]) };
    assert_eq!(
        render_report(&report),
        "--- \n\n\
         Finding in package: x/a.js\n\
         \n--- \n\n\
         Finding in package: y/b.js\n\
         Lines: 10-12\n\
         \n--- \n\n"
    );
}
