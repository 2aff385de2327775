use encode::report::{diagnose_output, read_report};

const REPORT: &str = r#"{
  "version": "1.1.380",
  "time": "1718000000000",
  "generalDiagnostics": [
    {"file": "/home/u/proj/pkg/mod.py", "severity": "error", "rule": "reportUndefinedVariable",
     "message": "\"x\" is not defined",
     "range": {"start": {"line": 4, "character": 8}, "end": {"line": 4, "character": 9}}},
    {"file": "/home/u/proj/main.py", "severity": "warning",
     "message": "Import could not be resolved",
     "range": {"start": {"line": 0, "character": 7}, "end": {"line": 0, "character": 12}}},
    {"file": "/home/u/proj/pkg/mod.py", "severity": "information",
     "message": "unused",
     "range": {"start": {"line": 9, "character": 0}, "end": {"line": 9, "character": 3}}}
  ],
  "summary": {"filesAnalyzed": 2, "timeInSec": 0.5, "errorCount": 1, "warningCount": 1, "informationCount": 1}
}"#;

fn path(p: &str) -> Vec<String> {
    std::path::Path::new(p).components().map(|c| c.as_os_str().to_string_lossy().into_owned()).collect()
}

#[test]
fn report_is_read() {
    let report = read_report(REPORT).unwrap();
    assert_eq!((report.error_count, report.warning_count, report.information_count), (1, 1, 1));
    assert_eq!(report.diagnostics.len(), 3);
    let first = &report.diagnostics[0];
    assert_eq!(first.file, vec!["/", "home", "u", "proj", "pkg", "mod.py"]);
    assert_eq!(first.rule.as_deref(), Some("reportUndefinedVariable"));
    assert_eq!(first.message, "\"x\" is not defined");
    assert_eq!((first.range.start.line, first.range.start.character, first.range.end.character), (4, 8, 9));
    assert!(report.diagnostics[1].rule.is_none());
}

#[test]
fn malformed_report_is_refused() {
    let err = read_report("{\"version\": 3").unwrap_err();
    assert!(!err.message.is_empty());
    assert!(read_report("[]").is_err());
}

#[test]
fn refusal_gives_the_decoder_complaint() {
    for text in ["not json", "{\"version\": 3", "[]", "{}"] {
        let expected = serde_json::from_str::<pyright::PyrightOutput>(text).unwrap_err().to_string();
        assert_eq!(read_report(text).unwrap_err().message, expected);
        assert_eq!(diagnose_output(text, &path("/p")).err().unwrap().message, expected);
    }
}

#[test]
fn report_is_shown() {
    let view = diagnose_output(REPORT, &path("/home/u/proj")).unwrap();
    assert_eq!(view.summary, "❌ 1  ⚠️ 1  ℹ️ 1");
    assert_eq!(view.status.importance_at(&path("/home/u/proj/pkg/mod.py")), 3);
    assert_eq!(view.status.importance_at(&path("/home/u/proj/pkg")), 3);
    assert_eq!(view.status.importance_at(&path("/home/u/proj/main.py")), 2);
    assert_eq!(view.status.importance_at(&path("/home/u/proj")), 2);
    assert_eq!(view.status.max_depth(), 2);
    let in_mod = view.groups.get(&path("/home/u/proj/pkg/mod.py")).unwrap();
    assert_eq!(in_mod.len(), 2);
    assert_eq!(in_mod[1].message, "unused");
    assert!(diagnose_output("not json", &path("/p")).is_err());
}
