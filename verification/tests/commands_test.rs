use refactor::commands::references::file_matches;
use refactor::languages::{ReferenceInfo, ReferenceType};
use refactor::cli::{CleanArgs, MigrateArgs};
use refactor::commands::clean::{
    cache_targets, empty_dir_candidates, is_cache_dir_name, is_ignored_dir, is_temp_file_name, run as clean_run, temp_targets,
    WalkEntry,
};
use refactor::commands::migrate::{finish, loaded, start};
use refactor::commands::update::{compare, download_url, latest_release_url, latest_version_of, release_version};
use refactor::config::default_config;
use refactor::context::RepoContext;
use refactor::error::RefactorError;
use refactor::languages::json::JsonValue;
use refactor::output::{LineKind, Output};
use refactor::refactor::planner::{
    check_plan_version, execute_plan, plan_is_json, validate_plan, MigrationOperation, MigrationPlan, OperationKind,
};

fn texts(out: &Output) -> Vec<String> {
    out.lines.iter().map(|l| l.text.clone()).collect()
}

fn captured_text(mut out: Output, mut cap: refactor::output::Capture) -> String {
    out.flush_into(&mut cap);
    cap.take()
}

#[test]
fn clean_removes_temp_files() {
    assert!(!is_temp_file_name("a.ts"), "source kept");
    assert!(is_temp_file_name("a.ts.tmp"), "tmp removed");
    assert!(is_temp_file_name("b.ts.bak"), "bak removed");
    assert!(is_temp_file_name(".~lock"));
    let mut out = Output::new(false, false, false, true);
    let code = clean_run(&mut out, &CleanArgs { empty_dirs: false, temp_files: true, cache: false }, false, 2, 0, 0);
    assert_eq!(code, 0);
    let t = texts(&out);
    assert!(t.contains(&"  Scanning for temporary files...".to_string()));
    assert!(t.contains(&"  Removed 2 temporary files".to_string()));
    assert!(t.contains(&"Cleaned 2 items".to_string()));
}

#[test]
fn clean_removes_empty_dirs() {
    assert!(is_cache_dir_name("__pycache__"));
    assert!(!is_cache_dir_name("src"));
    let ctx = RepoContext::new("/repo".to_string(), default_config(), false, Vec::new());
    let dirs = vec![
        "/repo".to_string(),
        "/repo/empty_deps".to_string(),
        "/repo/src".to_string(),
        "/repo/src/a/b".to_string(),
        "/repo/node_modules".to_string(),
    ];
    let order = empty_dir_candidates(&ctx, &dirs);
    assert_eq!(order, vec!["/repo/src/a/b", "/repo/empty_deps", "/repo/src"]);
    assert!(is_ignored_dir("/repo/node_modules", &vec!["node_modules/".to_string()]));
    assert!(!is_ignored_dir("/repo/src", &vec!["node_modules".to_string()]));
}

#[test]
fn clean_with_no_targets_is_noop() {
    let mut out = Output::new(false, false, false, true);
    let code = clean_run(&mut out, &CleanArgs { empty_dirs: false, temp_files: false, cache: false }, false, 0, 0, 0);
    assert_eq!(code, 0);
    let t = texts(&out);
    assert!(t.contains(&"  No cleanup targets specified.".to_string()));
    assert!(t.contains(&"Nothing to clean".to_string()));
}

#[test]
fn clean_dry_run_says_so() {
    let (mut out, cap) = Output::captured(false, false, false);
    clean_run(&mut out, &CleanArgs { empty_dirs: true, temp_files: false, cache: false }, true, 0, 0, 4);
    let text = captured_text(out, cap);
    assert!(text.contains("  Scanning for empty directories (dry run)...\n"));
    assert!(text.contains("  Removed 4 empty directories\n"));
    assert!(text.ends_with("  Dry run \u{2014} no changes were made.\n"));
}

fn op(kind: &str, from: &str, to: &str) -> MigrationOperation {
    MigrationOperation { op_type: kind.to_string(), from: from.to_string(), to: to.to_string() }
}

#[test]
fn plan_import_operations_are_applied() {
    let plan = MigrationPlan { version: 1, operations: vec![op("import", "@legacy/auth", "@modern/auth"), op("mystery", "a", "b")] };
    let steps = execute_plan(&plan, false);
    assert_eq!(steps[0].kind, OperationKind::Import);
    assert!(steps[0].apply, "an import step of a real run is applied");
    assert!(!steps[1].apply, "an unknown operation is never applied");
    assert!(!execute_plan(&plan, true)[0].apply);
}

#[test]
fn migrate_from_toml_plan() {
    let plan = MigrationPlan { version: 1, operations: vec![op("replace", "old token", "new token")] };
    assert!(!plan_is_json("plan.toml"));
    assert!(plan_is_json("plan.json"));
    let plan = check_plan_version(plan).unwrap();
    assert!(validate_plan(&plan).is_ok());
    let steps = execute_plan(&plan, false);
    assert_eq!(steps.len(), 1);
    assert_eq!(steps[0].kind, OperationKind::Replace);
    assert!(steps[0].apply, "planned replace should apply");
    assert_eq!(steps[0].heading, "Operation 1/1: old token \u{2192} new token");
    let dry = execute_plan(&plan, true);
    assert!(!dry[0].apply);
    let mut out = Output::new(false, false, false, true);
    assert!(loaded(&mut out, &plan, false).is_ok());
    assert_eq!(finish(&mut out, false), 0);
    assert!(texts(&out).contains(&"Migration complete".to_string()));
}

#[test]
fn migrate_missing_plan_errors() {
    let mut out = Output::new(false, false, false, true);
    match start(&mut out, &MigrateArgs { plan: "nope.toml".to_string() }, false) {
        Err(RefactorError::MigrationPlan(m)) => assert_eq!(m, "Plan file not found: nope.toml"),
        _ => panic!("missing plan should fail"),
    }
}

#[test]
fn invalid_plans_name_the_first_bad_operation() {
    let plan = MigrationPlan {
        version: 1,
        operations: vec![op("rename", "a", "b"), op("move", "x", "y"), op("replace", "c", "c")],
    };
    match validate_plan(&plan) {
        Err(RefactorError::MigrationPlan(m)) => assert_eq!(m, "Unknown operation type 'move' at index 1"),
        _ => panic!("expected a plan error"),
    }
    let same = MigrationPlan { version: 1, operations: vec![op("replace", "c", "c")] };
    match validate_plan(&same) {
        Err(RefactorError::MigrationPlan(m)) => assert_eq!(m, "Operation 0 has identical from/to: c"),
        _ => panic!("expected a plan error"),
    }
    match check_plan_version(MigrationPlan { version: 2, operations: Vec::new() }) {
        Err(RefactorError::MigrationPlan(m)) => assert_eq!(m, "Unsupported plan version: 2"),
        _ => panic!("expected a version error"),
    }
    let mut out = Output::new(false, false, false, true);
    assert!(loaded(&mut out, &plan, true).is_err());
    assert_eq!(texts(&out), vec!["  Operations: 3".to_string()]);
}

#[test]
fn update_picks_the_platform_asset() {
    assert_eq!(
        download_url("1.2.3", "linux", "x86_64").unwrap(),
        "https://github.com/aungpwint/refactor/releases/download/v1.2.3/refactor-linux-x64"
    );
    assert_eq!(
        download_url("1.2.3", "windows", "x86_64").unwrap(),
        "https://github.com/aungpwint/refactor/releases/download/v1.2.3/refactor-windows-x64.exe.exe"
    );
    assert_eq!(
        download_url("0.9.0", "macos", "aarch64").unwrap(),
        "https://github.com/aungpwint/refactor/releases/download/v0.9.0/refactor-macos-arm64"
    );
    match download_url("1.0.0", "freebsd", "x86_64") {
        Err(RefactorError::Config(m)) => assert_eq!(m, "Unsupported platform: freebsd-x86_64"),
        _ => panic!("expected an unsupported platform"),
    }
    assert_eq!(latest_release_url(), "https://api.github.com/repos/aungpwint/refactor/releases/latest");
}

#[test]
fn update_reads_the_release_tag() {
    assert_eq!(release_version("v1.4.0"), "1.4.0");
    assert_eq!(release_version("vv2"), "2");
    assert_eq!(release_version("3.0"), "3.0");
    let release = JsonValue::Object(vec![("tag_name".to_string(), JsonValue::String("v0.3.1".to_string()))]);
    assert_eq!(latest_version_of(&release).unwrap(), "0.3.1");
    match latest_version_of(&JsonValue::Object(Vec::new())) {
        Err(RefactorError::Config(m)) => assert_eq!(m, "Missing tag_name in response"),
        _ => panic!("expected a missing tag"),
    }
    let mut out = Output::new(false, false, false, true);
    assert!(compare(&mut out, "1.0.0", "1.0.0"));
    assert!(out.lines.iter().any(|l| l.kind == LineKind::Success && l.text == "Already up to date!"));
    let mut newer = Output::new(false, false, false, true);
    assert!(!compare(&mut newer, "1.0.0", "1.1.0"));
    assert!(texts(&newer).contains(&"  Updating v1.0.0 -> v1.1.0".to_string()));
}

#[test]
fn error_exit_codes_follow_the_table() {
    assert_eq!(RefactorError::Validation(String::new()).exit_code(), 1);
    assert_eq!(RefactorError::PathSafety(String::new()).exit_code(), 2);
    assert_eq!(RefactorError::Config(String::new()).exit_code(), 3);
    assert_eq!(RefactorError::MigrationPlan(String::new()).exit_code(), 3);
    assert_eq!(RefactorError::Conflict(String::new()).exit_code(), 5);
    let io = std::io::Error::new(std::io::ErrorKind::Other, "x");
    assert_eq!(RefactorError::Filesystem(io).exit_code(), 4);
}

#[test]
fn configuration_falls_back_to_defaults() {
    let defaults = refactor::config::load(None);
    assert!(defaults.scan.extensions.contains(&"tsx".to_string()));
    assert!(defaults.scan.exclude.contains(&"node_modules".to_string()));
    let mut custom = default_config();
    custom.scan.extensions = vec!["ts".to_string()];
    let kept = refactor::config::load(Some(custom));
    assert_eq!(kept.scan.extensions, vec!["ts".to_string()]);
}

fn walked(path: &str, is_dir: bool) -> WalkEntry {
    WalkEntry {
        path: format!("/repo/{path}"),
        name: path.rsplit('/').next().unwrap().to_string(),
        is_file: !is_dir,
        is_dir,
    }
}

#[test]
fn clean_targets_are_chosen_by_kind_and_name() {
    let entries = vec![
        walked("src", true),
        walked("src/a.ts", false),
        walked("src/a.ts.bak", false),
        walked("notes.tmp", true),
        walked("__pycache__", true),
        walked(".cache", false),
        walked(".~lock", false),
    ];
    assert_eq!(temp_targets(&entries), vec!["/repo/src/a.ts.bak".to_string(), "/repo/.~lock".to_string()]);
    assert_eq!(cache_targets(&entries), vec!["/repo/__pycache__".to_string()]);
}

#[test]
fn reference_lines_follow_relative_specifiers() {
    let refs = vec![
        ReferenceInfo {
            text: "../components/Button".to_string(),
            line_number: 1,
            line_content: "import { Button } from '../components/Button';".to_string(),
            ref_type: ReferenceType::Import,
        },
        ReferenceInfo {
            text: "./styles.css".to_string(),
            line_number: 2,
            line_content: "import './styles.css';".to_string(),
            ref_type: ReferenceType::Import,
        },
    ];
    let mut out = Output::new(false, false, false, true);
    assert_eq!(file_matches(&mut out, "src/pages/Home.tsx", "src/components/Button.tsx", &refs), 1);
    assert_eq!(texts(&out), vec!["       line 1 [import]: import { Button } from '../components/Button';".to_string()]);
    let mut out = Output::new(false, false, false, true);
    assert_eq!(file_matches(&mut out, "src/pages/Home.tsx", "styles", &refs), 1);
}

#[test]
fn errors_are_shown_with_their_kind() {
    assert_eq!(RefactorError::Validation("x".to_string()).message(), "Validation error: x");
    assert_eq!(RefactorError::PathSafety("p".to_string()).message(), "Path safety violation: p");
    assert_eq!(
        RefactorError::Parse { file: "a.toml".to_string(), reason: "bad".to_string() }.message(),
        "Parse error in a.toml: bad"
    );
    let io = std::io::Error::new(std::io::ErrorKind::Other, "disk");
    assert_eq!(RefactorError::Filesystem(io).message(), "Filesystem error: disk");
}
