use cairo_lang::diagnostics::{
    get_diagnostics_as_string, CrateSnapshot, Diagnostics, DiagnosticsError, DiagnosticsReporter,
    FileLongId, MainFile, ModuleSnapshot, RootDatabase,
};

fn diags(count: usize, text: &str) -> Diagnostics {
    Diagnostics { count, formatted: text.to_string() }
}

fn on_disk(path: &str, has_content: bool) -> Option<MainFile> {
    Some(MainFile { file: FileLongId::OnDisk(path.to_string()), has_content })
}

fn module(files: Option<Vec<Diagnostics>>, semantic: Option<Diagnostics>, lowering: Option<Diagnostics>) -> ModuleSnapshot {
    ModuleSnapshot { files, semantic, lowering }
}

fn clean_db() -> RootDatabase {
    RootDatabase {
        crates: vec![CrateSnapshot {
            main_file: on_disk("src/lib.cairo", true),
            modules: vec![module(Some(vec![diags(0, "")]), Some(diags(0, "")), Some(diags(0, "")))],
        }],
    }
}

fn mixed_db() -> RootDatabase {
    RootDatabase {
        crates: vec![
            // No main file: reported once, its modules are not looked into.
            CrateSnapshot {
                main_file: None,
                modules: vec![module(Some(vec![diags(1, "hidden\n")]), None, None)],
            },
            // Main file on disk without content: reported, and its modules are still checked.
            CrateSnapshot {
                main_file: on_disk("a/lib.cairo", false),
                modules: vec![
                    module(
                        Some(vec![diags(1, "syntax one\n"), diags(0, "ignored"), diags(2, "syntax two\n")]),
                        Some(diags(1, "semantic\n")),
                        Some(diags(3, "lowering\n")),
                    ),
                    module(None, None, Some(diags(0, "none"))),
                ],
            },
            CrateSnapshot {
                main_file: Some(MainFile { file: FileLongId::Virtual("v".to_string()), has_content: true }),
                modules: vec![module(None, Some(diags(1, "virtual semantic\n")), None)],
            },
        ],
    }
}

const MIXED_TEXT: &str = "Failed to get main module filea/lib.cairo not found\nsyntax one\nsyntax two\nsemantic\nlowering\nvirtual semantic\n";

#[test]
fn write_to_string_collects_all_in_order() {
    let db = mixed_db();
    let mut text = String::from("before:");
    let found = DiagnosticsReporter::write_to_string(&mut text).check(&db);
    assert!(found);
    assert_eq!(text, format!("before:{}", MIXED_TEXT));
}

#[test]
fn get_diagnostics_as_string_matches_reporter() {
    let mut db = mixed_db();
    assert_eq!(get_diagnostics_as_string(&mut db), MIXED_TEXT);
    assert_eq!(db, mixed_db());
}

#[test]
fn callback_receives_each_diagnostic() {
    let db = mixed_db();
    let mut got: Vec<String> = Vec::new();
    {
        let mut reporter = DiagnosticsReporter::callback(|d| got.push(d));
        assert!(reporter.check(&db));
    }
    assert_eq!(
        got,
        vec![
            "Failed to get main module file",
            "a/lib.cairo not found\n",
            "syntax one\n",
            "syntax two\n",
            "semantic\n",
            "lowering\n",
            "virtual semantic\n",
        ]
    );
}

#[test]
fn clean_database_reports_nothing() {
    let db = clean_db();
    let mut text = String::new();
    assert!(!DiagnosticsReporter::write_to_string(&mut text).check(&db));
    assert_eq!(text, "");
    let mut db = clean_db();
    assert_eq!(get_diagnostics_as_string(&mut db), "");
}

#[test]
fn empty_database_reports_nothing() {
    let mut db = RootDatabase { crates: vec![] };
    assert!(!DiagnosticsReporter::ignoring().check(&db));
    assert_eq!(get_diagnostics_as_string(&mut db), "");
}

#[test]
fn ignoring_reporter_still_finds() {
    let db = mixed_db();
    assert!(DiagnosticsReporter::ignoring().check(&db));
    assert_eq!(DiagnosticsReporter::ignoring().ensure(&db), Err(DiagnosticsError));
}

#[test]
fn ensure_ok_on_clean_database() {
    let db = clean_db();
    assert_eq!(DiagnosticsReporter::ignoring().ensure(&db), Ok(()));
}

#[test]
fn ensure_err_reports_through_callback() {
    let db = RootDatabase {
        crates: vec![CrateSnapshot { main_file: on_disk("x.cairo", true), modules: vec![module(None, Some(diags(1, "bad\n")), None)] }],
    };
    let mut got = Vec::new();
    let result = DiagnosticsReporter::callback(|d| got.push(d)).ensure(&db);
    assert_eq!(result, Err(DiagnosticsError));
    assert_eq!(got, vec!["bad\n".to_string()]);
}

#[test]
fn missing_main_file_skips_modules() {
    let mut db = RootDatabase {
        crates: vec![CrateSnapshot {
            main_file: None,
            modules: vec![module(Some(vec![diags(1, "x")]), Some(diags(1, "y")), Some(diags(1, "z")))],
        }],
    };
    assert_eq!(get_diagnostics_as_string(&mut db), "Failed to get main module file");
}

#[test]
fn zero_count_diagnostics_are_not_reported() {
    let mut db = RootDatabase {
        crates: vec![CrateSnapshot {
            main_file: on_disk("m.cairo", true),
            modules: vec![module(Some(vec![diags(0, "x")]), Some(diags(0, "y")), Some(diags(0, "z")))],
        }],
    };
    assert_eq!(get_diagnostics_as_string(&mut db), "");
    assert!(!DiagnosticsReporter::ignoring().check(&db));
}

#[test]
fn checking_twice_appends_twice() {
    let db = RootDatabase {
        crates: vec![CrateSnapshot { main_file: on_disk("p", false), modules: vec![] }],
    };
    let mut text = String::new();
    let mut reporter = DiagnosticsReporter::write_to_string(&mut text);
    assert!(reporter.check(&db));
    assert!(reporter.check(&db));
    drop(reporter);
    assert_eq!(text, "p not found\np not found\n");
}
