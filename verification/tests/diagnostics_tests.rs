use encode::diag_status::diagnostic_status;
use encode::diagnostics::{group_by_file, optional_importance, summary_text, AlmostDiagnostic, FileDiagnostic, Pos, Rng, Sev};

fn path(p: &str) -> Vec<String> {
    std::path::Path::new(p).components().map(|c| c.as_os_str().to_string_lossy().into_owned()).collect()
}

fn diag(file: &str, severity: Sev, message: &str, line: u64) -> FileDiagnostic {
    FileDiagnostic {
        file: path(file),
        severity,
        rule: Some("reportGeneralTypeIssues".to_string()),
        message: message.to_string(),
        range: Rng { start: Pos { line, character: 1 }, end: Pos { line, character: 5 } },
    }
}

#[test]
fn severities_rank() {
    assert_eq!(Sev::Error.importance(), 3);
    assert_eq!(Sev::Warning.importance(), 2);
    assert_eq!(Sev::Information.importance(), 1);
    assert_eq!(optional_importance(&None), 0);
    assert_eq!(optional_importance(&Some(Sev::Warning)), 2);
    assert_eq!(Sev::Error.tag_name(), "pyright_error");
    assert_eq!(Sev::Warning.tag_name(), "pyright_warning");
    assert_eq!(Sev::Information.tag_name(), "pyright_information");
}

#[test]
fn range_keys_are_cut_to_32_bits() {
    let r = Rng { start: Pos { line: 3, character: 4 }, end: Pos { line: (1u64 << 32) + 5, character: u64::MAX } };
    assert_eq!(r.key(), (3, 4, 5, -1));
}

#[test]
fn summary_lines() {
    assert_eq!(summary_text(0, 0, 0), "Ok");
    assert_eq!(summary_text(2, 0, 0), "❌ 2");
    assert_eq!(summary_text(2, 1, 5), "❌ 2  ⚠️ 1  ℹ️ 5");
    assert_eq!(summary_text(0, 3, 0), "⚠️ 3");
    assert_eq!(summary_text(0, 0, -1), "ℹ️ -1");
}

#[test]
fn marks_reach_the_folders_below_the_root() {
    let root = path("/home/u/proj");
    let diags = vec![
        diag("/home/u/proj/pkg/sub/mod.py", Sev::Warning, "w", 1),
        diag("/home/u/proj/pkg/sub/mod.py", Sev::Error, "e", 2),
        diag("/home/u/proj/main.py", Sev::Information, "i", 3),
    ];
    let status = diagnostic_status(&diags, &root);
    assert_eq!(status.importance_at(&path("/home/u/proj/pkg/sub/mod.py")), 3);
    assert_eq!(status.importance_at(&path("/home/u/proj/pkg/sub")), 3);
    assert_eq!(status.importance_at(&path("/home/u/proj/pkg")), 3);
    assert_eq!(status.importance_at(&path("/home/u/proj/main.py")), 1);
    // the root is marked only as the folder that directly holds main.py
    assert_eq!(status.importance_at(&path("/home/u/proj")), 1);
    assert_eq!(status.importance_at(&path("/home/u")), 0);
    assert_eq!(status.importance_at(&path("/home/u/proj/other.py")), 0);
    assert_eq!(status.max_depth(), 3);
}

#[test]
fn files_outside_the_root_mark_their_folder() {
    let root = path("/home/u/proj");
    let diags = vec![diag("/usr/lib/python3/typing.pyi", Sev::Warning, "w", 0)];
    let status = diagnostic_status(&diags, &root);
    assert_eq!(status.importance_at(&path("/usr/lib/python3/typing.pyi")), 2);
    assert_eq!(status.importance_at(&path("/usr/lib/python3")), 2);
    // "/usr/lib" sorts after the root, so the walk goes on up to it, and stops at "/usr"
    assert_eq!(status.importance_at(&path("/usr/lib")), 2);
    assert_eq!(status.importance_at(&path("/usr")), 2);
    assert_eq!(status.importance_at(&path("/")), 0);
    assert_eq!(status.max_depth(), 0);
}

#[test]
fn the_root_directory_has_no_parent() {
    let diags = vec![diag("/", Sev::Error, "e", 0)];
    let status = diagnostic_status(&diags, &path("/home/u/proj"));
    assert_eq!(path("/"), vec!["/"]);
    assert_eq!(status.importance_at(&path("/")), 3);
    assert_eq!(status.importance_at(&Vec::new()), 0);
}

#[test]
fn a_relative_file_marks_the_empty_path_above_it() {
    let diags = vec![diag("a.py", Sev::Warning, "w", 0)];
    let status = diagnostic_status(&diags, &path("/home/u/proj"));
    assert_eq!(status.importance_at(&path("a.py")), 2);
    assert_eq!(status.importance_at(&Vec::new()), 2);
}

#[test]
fn the_root_directory_sorts_before_every_name() {
    // "-" and "." come before "/" as characters, but the root directory comes
    // before every other component, so these folders sort after the project root
    let root = path("/home/u/proj");
    let diags = vec![
        diag("-pkg/sub/mod.py", Sev::Information, "i", 0),
        diag("./lib/util.py", Sev::Warning, "w", 0),
    ];
    let status = diagnostic_status(&diags, &root);
    assert_eq!(status.importance_at(&path("-pkg/sub")), 1);
    assert_eq!(status.importance_at(&path("-pkg")), 1);
    assert_eq!(path("./lib"), vec![".", "lib"]);
    assert_eq!(status.importance_at(&path("./lib")), 2);
    assert_eq!(status.importance_at(&vec![".".to_string()]), 2);
    assert_eq!(status.importance_at(&Vec::new()), 0);
}

#[test]
fn marks_do_not_depend_on_the_order_of_the_diagnostics() {
    let root = path("/p");
    let diags = vec![
        diag("/p/a/x.py", Sev::Information, "i", 0),
        diag("/p/a/y.py", Sev::Error, "e", 0),
        diag("/p/b/z.py", Sev::Warning, "w", 0),
        diag("/p/a/x.py", Sev::Warning, "w", 1),
    ];
    let mut reversed = diags.clone();
    reversed.reverse();
    let one = diagnostic_status(&diags, &root);
    let other = diagnostic_status(&reversed, &root);
    for p in ["/p/a/x.py", "/p/a/y.py", "/p/a", "/p/b/z.py", "/p/b", "/p", "/"] {
        assert_eq!(one.importance_at(&path(p)), other.importance_at(&path(p)));
    }
    assert_eq!(one.importance_at(&path("/p/a/x.py")), 2);
    assert_eq!(one.importance_at(&path("/p/a")), 3);
    assert_eq!(one.importance_at(&path("/p")), 0);
    assert_eq!(one.max_depth(), other.max_depth());
    assert_eq!(one.max_depth(), 2);
}

#[test]
fn no_diagnostics_no_marks() {
    let status = diagnostic_status(&vec![], &path("/p"));
    assert_eq!(status.importance_at(&path("/p")), 0);
    assert_eq!(status.max_depth(), 0);
}

#[test]
fn diagnostics_are_grouped_by_file() {
    let diags = vec![
        diag("/p/a.py", Sev::Error, "first", 1),
        diag("/p/b.py", Sev::Warning, "other", 2),
        diag("/p/a.py", Sev::Information, "second", 3),
    ];
    let groups = group_by_file(&diags);
    let a: &Vec<AlmostDiagnostic> = groups.get(&path("/p/a.py")).unwrap();
    let messages: Vec<&str> = a.iter().map(|d| d.message.as_str()).collect();
    assert_eq!(messages, vec!["first", "second"]);
    assert_eq!(a[1].severity, Sev::Information);
    assert_eq!(a[0].range.start.line, 1);
    assert_eq!(a[0].rule.as_deref(), Some("reportGeneralTypeIssues"));
    assert_eq!(groups.get(&path("/p/b.py")).unwrap().len(), 1);
    assert!(groups.get(&path("/p/c.py")).is_none());
}
