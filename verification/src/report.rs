//! Reading the JSON report that `pyright --outputjson` prints, and what the editor
//! makes of it: the summary line, the marks of the project tree and the
//! diagnostics of each file.
use vstd::prelude::*;

use crate::diag_status::{diagnostic_status, max_depth_of, status_map, DiagnosticStatus};
use crate::diagnostics::{
    group_by_file, grouped, summary_text, summary_text_of, DiagnosticGroups, FileDiagnostic, Pos,
    Rng, Sev,
};
use crate::text::string_views;

verus! {

/// A pyright run as the editor needs it: the diagnostics and the summary counts.
#[derive(Debug, Clone)]
pub struct PyrightReport {
    pub diagnostics: Vec<FileDiagnostic>,
    pub error_count: i64,
    pub warning_count: i64,
    pub information_count: i64,
}

/// `pyright::Diagnostic`, one entry of pyright's report, held as an opaque value.
#[verifier::external_type_specification]
#[verifier::external_body]
pub struct ExPyrightDiagnostic(pyright::Diagnostic);

/// `pyright::Range`, the range of a diagnostic, held as an opaque value.
#[verifier::external_type_specification]
#[verifier::external_body]
pub struct ExPyrightRange(pyright::Range);

/// What decoding a JSON text as pyright's output gives: the report, or the text of
/// the decoder's complaint.
pub uninterp spec fn pyright_decoding(text: Seq<char>) -> Result<PyrightReport, Seq<char>>;

/// Decodes pyright's JSON output with `serde_json::from_str` into the types of the
/// `pyright` crate and converts them one for one; a failure becomes the text that
/// `serde_json::Error` displays. Claimed: the result, the report or that text, is a
/// function of the text alone, named `pyright_decoding`; which texts decode, to
/// what, and the wording of the complaint, are serde's and pyright's business and
/// are not stated here.
#[verifier::external_body]
fn decode_output(text: &str) -> (r: Result<PyrightReport, String>)
    ensures
        match r {
            Ok(report) => pyright_decoding(text@) == Ok::<PyrightReport, Seq<char>>(report),
            Err(message) => pyright_decoding(text@) == Err::<PyrightReport, Seq<char>>(message@),
        },
{
    match serde_json::from_str::<pyright::PyrightOutput>(text) {
        Ok(out) => Ok(PyrightReport {
            diagnostics: out.general_diagnostics.into_iter().map(diagnostic_from).collect(),
            error_count: out.summary.error_count,
            warning_count: out.summary.warning_count,
            information_count: out.summary.information_count,
        }),
        Err(e) => Err(e.to_string()),
    }
}

/// Converts one `pyright::Diagnostic`: its file becomes the list of the path's
/// components (`Path::components`), each as text (the root directory as "/"); the
/// severity becomes the variant of the same name; the other fields move over.
/// The path was decoded from a JSON string, which serde accepts for a `PathBuf`
/// only as UTF-8, so each component is UTF-8 and its text is exact. Nothing is
/// claimed of the result here; `decode_output` names it.
#[verifier::external_body]
fn diagnostic_from(d: pyright::Diagnostic) -> FileDiagnostic {
    FileDiagnostic {
        file: d.file.components().map(|c| c.as_os_str().to_string_lossy().into_owned()).collect(),
        severity: match d.severity {
            pyright::Severity::Error => Sev::Error,
            pyright::Severity::Warning => Sev::Warning,
            pyright::Severity::Information => Sev::Information,
        },
        rule: d.rule,
        message: d.message,
        range: range_from(d.range),
    }
}

/// Converts a range of the `pyright` crate, moving its four coordinates over.
/// Nothing is claimed of the result here; `decode_output` names it.
#[verifier::external_body]
fn range_from(r: pyright::Range) -> Rng {
    Rng {
        start: Pos { line: r.start.line, character: r.start.character },
        end: Pos { line: r.end.line, character: r.end.character },
    }
}

/// Why pyright's output could not be read.
#[derive(Debug, Clone)]
pub struct ReportError {
    pub message: String,
}

/// Reads pyright's JSON output: the report it describes, or the decoder's
/// complaint when it describes none.
pub fn read_report(text: &str) -> (r: Result<PyrightReport, ReportError>)
    ensures
        match r {
            Ok(report) => pyright_decoding(text@) == Ok::<PyrightReport, Seq<char>>(report),
            Err(e) => pyright_decoding(text@) == Err::<PyrightReport, Seq<char>>(e.message@),
        },
{
    match decode_output(text) {
        Ok(report) => Ok(report),
        Err(message) => Err(ReportError { message }),
    }
}

/// What the editor shows for a pyright run: the summary line, the marks of the
/// project tree, and the diagnostics of each file.
pub struct PyrightView {
    pub summary: String,
    pub status: DiagnosticStatus,
    pub groups: DiagnosticGroups,
}

/// What the editor shows for a report, with `root` the project's directory.
pub fn view_of_report(report: &PyrightReport, root: &Vec<String>) -> (v: PyrightView)
    ensures
        v.summary@ == summary_text_of(report.error_count, report.warning_count, report.information_count),
        v.status@ == status_map(report.diagnostics@, string_views(root@)),
        v.status.depth() == max_depth_of(report.diagnostics@, string_views(root@)),
        v.groups@ == grouped(report.diagnostics@),
{
    PyrightView {
        summary: summary_text(report.error_count, report.warning_count, report.information_count),
        status: diagnostic_status(&report.diagnostics, root),
        groups: group_by_file(&report.diagnostics),
    }
}

/// Reads pyright's JSON output and works out what the editor shows for it; a text
/// that is no report gives the decoder's complaint.
pub fn diagnose_output(text: &str, root: &Vec<String>) -> (r: Result<PyrightView, ReportError>)
    ensures
        match r {
            Ok(v) => pyright_decoding(text@) matches Ok(report) && {
                &&& v.summary@ == summary_text_of(
                    report.error_count,
                    report.warning_count,
                    report.information_count,
                )
                &&& v.status@ == status_map(report.diagnostics@, string_views(root@))
                &&& v.status.depth() == max_depth_of(report.diagnostics@, string_views(root@))
                &&& v.groups@ == grouped(report.diagnostics@)
            },
            Err(e) => pyright_decoding(text@) == Err::<PyrightReport, Seq<char>>(e.message@),
        },
{
    match read_report(text) {
        Ok(report) => Ok(view_of_report(&report, root)),
        Err(e) => Err(e),
    }
}

} // verus!
