//! Scan-side logic: the output-format selection, the scanner command
//! line, the acquisition (clone) argument list, classification of the
//! scanner's exit, and rendering of parsed findings into the clean
//! human-readable form.

use vstd::prelude::*;
use crate::npm::Package;
use crate::text::{spec_dec, spec_last_dot_segment, u64_to_string, last_dot_segment};

verus! {

/// The scanner output formats a caller may select. All but `Json` are
/// treated as opaque text and passed through verbatim.
#[derive(Debug, Clone, Copy, PartialEq, Eq)]
pub enum OutputTypes {
    Json,
    Semgrep,
    Emacs,
    GitlabSast,
    GitlabSecrets,
    JUnitXml,
    Sarif,
    Text,
    Vim,
}

/// The scanner's command-line flag for each output format; the
/// scanner-native format has none.
pub open spec fn spec_flag(t: OutputTypes) -> Seq<char> {
    match t {
        OutputTypes::Json => "--json"@,
        OutputTypes::Semgrep => ""@,
        OutputTypes::Emacs => "--emacs"@,
        OutputTypes::GitlabSast => "--gitlab-sast"@,
        OutputTypes::GitlabSecrets => "--gitlab-secrets"@,
        OutputTypes::JUnitXml => "--junit-xml"@,
        OutputTypes::Sarif => "--sarif"@,
        OutputTypes::Text => "--text"@,
        OutputTypes::Vim => "--vim"@,
    }
}

impl OutputTypes {
    /// The command-line flag selecting this format.
    pub fn flag(&self) -> (r: &'static str)
        ensures
            r@ == spec_flag(*self),
    {
        match self {
            OutputTypes::Json => "--json",
            OutputTypes::Semgrep => "",
            OutputTypes::Emacs => "--emacs",
            OutputTypes::GitlabSast => "--gitlab-sast",
            OutputTypes::GitlabSecrets => "--gitlab-secrets",
            OutputTypes::JUnitXml => "--junit-xml",
            OutputTypes::Sarif => "--sarif",
            OutputTypes::Text => "--text",
            OutputTypes::Vim => "--vim",
        }
    }
}

/// The shell command line invoking the scanner over the workspace.
pub open spec fn spec_scan_command(t: OutputTypes) -> Seq<char> {
    if t is Semgrep {
        "semgrep scan --config=auto packages/*"@
    } else {
        "semgrep scan --config=auto "@ + spec_flag(t) + " -q packages/*"@
    }
}

/// Builds the scanner invocation for the selected output format: the
/// native format runs plain, every other format adds its flag and quiet
/// mode.
pub fn scan_command(output_type: &OutputTypes) -> (r: String)
    ensures
        r@ == spec_scan_command(*output_type),
{
    match output_type {
        OutputTypes::Semgrep => String::from_str("semgrep scan --config=auto packages/*"),
        _ => {
            let mut out = String::from_str("semgrep scan --config=auto ");
            out.append(output_type.flag());
            out.append(" -q packages/*");
            out
        }
    }
}

/// Classifies a finished scan invocation: a successful exit hands the
/// raw standard output on; a failed one yields the diagnostic built
/// from the error stream, falling back to the standard output when the
/// error stream is empty.
pub fn scan_outcome(success: bool, stdout: String, stderr: &str) -> (r: Result<String, String>)
    ensures
        success ==> r is Ok && r->Ok_0@ == stdout@,
        !success && stderr@.len() > 0 ==> r is Err && r->Err_0@ == "Semgrep command failed: "@
            + stderr@,
        !success && stderr@.len() == 0 ==> r is Err && r->Err_0@ == "Semgrep command failed: "@
            + stdout@,
{
    if success {
        Ok(stdout)
    } else {
        let mut out = String::from_str("Semgrep command failed: ");
        if stderr.unicode_len() > 0 {
            out.append(stderr);
        } else {
            out.append(stdout.as_str());
        }
        Err(out)
    }
}

/// The argument list of the acquisition tool invocation for one resolved
/// package: a shallow clone of the pinned reference into the package's
/// own workspace subdirectory.
pub fn clone_args(package: &Package, url: &str) -> (r: Vec<String>)
    ensures
        r@.len() == 7,
        r@[0]@ == "clone"@,
        r@[1]@ == "--branch"@,
        r@[2]@ == package@.version,
        r@[3]@ == "--depth"@,
        r@[4]@ == "1"@,
        r@[5]@ == url@,
        r@[6]@ == "./packages/"@ + package@.name,
{
    let mut args: Vec<String> = Vec::new();
    args.push(String::from_str("clone"));
    args.push(String::from_str("--branch"));
    args.push(package.version.clone());
    args.push(String::from_str("--depth"));
    args.push(String::from_str("1"));
    args.push(url.to_owned());
    let mut dest = String::from_str("./packages/");
    dest.append(package.name.as_str());
    args.push(dest);
    args
}

// ---------------------------------------------------------------------
// Findings and their rendering
// ---------------------------------------------------------------------

/// One finding parsed from the scanner's JSON output. Every field is
/// optional: the scanner may omit any of them.
pub struct Finding {
    pub path: Option<String>,
    pub check_id: Option<String>,
    pub confidence: Option<String>,
    pub impact: Option<String>,
    pub message: Option<String>,
    pub start_line: Option<u64>,
    pub end_line: Option<u64>,
}

/// Mathematical image of a `Finding`.
pub struct FindingView {
    pub path: Option<Seq<char>>,
    pub check_id: Option<Seq<char>>,
    pub confidence: Option<Seq<char>>,
    pub impact: Option<Seq<char>>,
    pub message: Option<Seq<char>>,
    pub start_line: Option<u64>,
    pub end_line: Option<u64>,
}

impl View for Finding {
    type V = FindingView;

    open spec fn view(&self) -> FindingView {
        FindingView {
            path: match self.path {
                Some(s) => Some(s@),
                None => None,
            },
            check_id: match self.check_id {
                Some(s) => Some(s@),
                None => None,
            },
            confidence: match self.confidence {
                Some(s) => Some(s@),
                None => None,
            },
            impact: match self.impact {
                Some(s) => Some(s@),
                None => None,
            },
            message: match self.message {
                Some(s) => Some(s@),
                None => None,
            },
            start_line: self.start_line,
            end_line: self.end_line,
        }
    }
}

/// A parsed scan report: the findings list, absent when the scanner's
/// JSON output carries no findings object at all.
pub struct ScanReport {
    pub results: Option<Vec<Finding>>,
}

/// The view of an optional string field.
pub open spec fn spec_view_opt(v: Option<String>) -> Option<Seq<char>> {
    match v {
        Some(s) => Some(s@),
        None => None,
    }
}

/// One labelled line, present exactly when its value is.
pub open spec fn spec_opt_line(label: Seq<char>, v: Option<Seq<char>>) -> Seq<char> {
    match v {
        Some(s) => label + s + "\n"@,
        None => Seq::empty(),
    }
}

/// The rule line: the identifier's trailing segment, when present.
pub open spec fn spec_rule_line(check_id: Option<Seq<char>>) -> Seq<char> {
    match check_id {
        Some(c) => "Rule: "@ + spec_last_dot_segment(c) + "\n"@,
        None => Seq::empty(),
    }
}

/// The line-range line, present exactly when both ends are.
pub open spec fn spec_range_line(start_line: Option<u64>, end_line: Option<u64>) -> Seq<char> {
    match (start_line, end_line) {
        (Some(s), Some(e)) => "Lines: "@ + spec_dec(s as nat) + "-"@ + spec_dec(e as nat) + "\n"@,
        _ => Seq::empty(),
    }
}

/// The clean-format block for one finding: one labelled line per present
/// field, the rule reduced to its trailing identifier segment, the line
/// range shown exactly when both ends are present, and the closing
/// delimiter.
pub open spec fn spec_render_finding(f: FindingView) -> Seq<char> {
    spec_opt_line("Finding in package: "@, f.path) + spec_rule_line(f.check_id) + spec_opt_line(
        "Confidence: "@,
        f.confidence,
    ) + spec_opt_line("Impact: "@, f.impact) + spec_opt_line("Message: "@, f.message)
        + spec_range_line(f.start_line, f.end_line) + "\n--- \n\n"@
}

/// The blocks of a findings list, in order, one block per finding.
pub open spec fn spec_render_findings(fs: Seq<FindingView>) -> Seq<char>
    decreases fs.len(),
{
    if fs.len() == 0 {
        Seq::empty()
    } else {
        spec_render_findings(fs.drop_last()) + spec_render_finding(fs.last())
    }
}

/// A parsed result with no findings object at all renders to nothing:
/// not even the opening delimiter.
pub proof fn lemma_render_absent_is_empty()
    ensures
        spec_render_report(None) == Seq::<char>::empty(),
{
}

/// One more finding appends exactly its own block: a list of findings
/// renders to exactly one block per finding, in order.
pub proof fn lemma_render_findings_push(fs: Seq<FindingView>, f: FindingView)
    ensures
        spec_render_findings(fs.push(f)) == spec_render_findings(fs) + spec_render_finding(f),
{
    assert(fs.push(f).drop_last() =~= fs);
    assert(fs.push(f).last() == f);
}

/// The clean rendering of a whole report: nothing at all without a
/// findings object, else the opening delimiter and one block per
/// finding.
pub open spec fn spec_render_report(results: Option<Seq<FindingView>>) -> Seq<char> {
    match results {
        None => Seq::empty(),
        Some(fs) => "--- \n\n"@ + spec_render_findings(fs),
    }
}

/// Appends one labelled line when the value is present.
fn append_opt_line(out: &mut String, label: &str, v: &Option<String>)
    ensures
        final(out)@ == old(out)@ + spec_opt_line(label@, spec_view_opt(*v)),
{
    match v {
        Some(s) => {
            out.append(label);
            out.append(s.as_str());
            out.append("\n");
            proof {
                assert(out@ =~= old(out)@ + spec_opt_line(label@, spec_view_opt(*v)));
            }
        }
        None => {
            proof {
                assert(out@ =~= old(out)@ + spec_opt_line(label@, spec_view_opt(*v)));
            }
        }
    }
}

/// Appends the rule line, reduced to the trailing identifier segment,
/// when a rule identifier is present.
fn append_rule_line(out: &mut String, check_id: &Option<String>)
    ensures
        final(out)@ == old(out)@ + spec_rule_line(spec_view_opt(*check_id)),
{
    match check_id {
        Some(c) => {
            out.append("Rule: ");
            let seg = last_dot_segment(c.as_str());
            out.append(seg.as_str());
            out.append("\n");
            proof {
                assert(out@ =~= old(out)@ + spec_rule_line(spec_view_opt(*check_id)));
            }
        }
        None => {
            proof {
                assert(out@ =~= old(out)@ + spec_rule_line(spec_view_opt(*check_id)));
            }
        }
    }
}

/// Appends the line-range line exactly when both ends are present.
fn append_range_line(out: &mut String, start_line: &Option<u64>, end_line: &Option<u64>)
    ensures
        final(out)@ == old(out)@ + spec_range_line(*start_line, *end_line),
{
    match (start_line, end_line) {
        (Some(s), Some(e)) => {
            out.append("Lines: ");
            let start_digits = u64_to_string(*s);
            out.append(start_digits.as_str());
            out.append("-");
            let end_digits = u64_to_string(*e);
            out.append(end_digits.as_str());
            out.append("\n");
            proof {
                assert(out@ =~= old(out)@ + spec_range_line(*start_line, *end_line));
            }
        }
        _ => {
            proof {
                assert(out@ =~= old(out)@ + spec_range_line(*start_line, *end_line));
            }
        }
    }
}

/// Renders one finding's block.
pub fn render_finding(f: &Finding) -> (r: String)
    ensures
        r@ == spec_render_finding(f@),
{
    let mut out = String::new();
    append_opt_line(&mut out, "Finding in package: ", &f.path);
    append_rule_line(&mut out, &f.check_id);
    append_opt_line(&mut out, "Confidence: ", &f.confidence);
    append_opt_line(&mut out, "Impact: ", &f.impact);
    append_opt_line(&mut out, "Message: ", &f.message);
    append_range_line(&mut out, &f.start_line, &f.end_line);
    out.append("\n--- \n\n");
    proof {
        assert(out@ =~= spec_render_finding(f@));
    }
    out
}

/// Renders a whole report in the clean format.
pub fn render_report(report: &ScanReport) -> (r: String)
    ensures
        r@ == spec_render_report(
            match report.results {
                Some(fs) => Some(fs@.map_values(|f: Finding| f@)),
                None => None,
            },
        ),
{
    match &report.results {
        None => String::new(),
        Some(findings) => {
            let ghost m = findings@.map_values(|f: Finding| f@);
            let mut out = String::from_str("--- \n\n");
            let mut i: usize = 0;
            while i < findings.len()
                invariant
                    0 <= i <= findings@.len(),
                    m == findings@.map_values(|f: Finding| f@),
                    m.len() == findings@.len(),
                    out@ == "--- \n\n"@ + spec_render_findings(m.subrange(0, i as int)),
                decreases findings@.len() - i,
            {
                let block = render_finding(&findings[i]);
                out.append(block.as_str());
                proof {
                    assert(m.subrange(0, i + 1).drop_last() =~= m.subrange(0, i as int));
                    assert(m.subrange(0, i + 1).last() == findings@[i as int]@);
                    assert(out@ =~= "--- \n\n"@ + spec_render_findings(m.subrange(0, i + 1)));
                }
                i = i + 1;
            }
            proof {
                assert(m.subrange(0, m.len() as int) =~= m);
            }
            out
        }
    }
}

} // verus!
