use refactor::analyzers::references::{resolve_relative, resolve_relative_gen};
use refactor::commands::rename::report_plan;
use refactor::config::default_config;
use refactor::context::RepoContext;
use refactor::error::RefactorError;
use refactor::filesystem::walker::FileEntry;
use refactor::output::Output;
use refactor::refactor::rename::{
    pathdiff_rel, plan_rename, relative_specifier, strip_source_ext, unique_candidates, updated_content,
};
use refactor::scanner::LoadedFile;

fn ctx(entries: &[&str]) -> RepoContext {
    RepoContext::new(
        "/repo".to_string(),
        default_config(),
        false,
        entries.iter().map(|e| e.to_string()).collect(),
    )
}

fn file(relative: &str, text: &str) -> LoadedFile {
    LoadedFile {
        entry: FileEntry { path: format!("/repo/{relative}"), relative: relative.to_string() },
        text: Some(text.to_string()),
        has_bom: false,
    }
}

#[test]
fn rename_moves_file() {
    let c = ctx(&["src", "src/old.ts", "src/consumer.ts"]);
    let files = vec![
        file("src/old.ts", "export const a = 1;\n"),
        file("src/consumer.ts", "import { a } from './old';\n"),
    ];
    let plan = plan_rename(&c, "src/old.ts", "src/new.ts", true, false, &files).unwrap();
    assert_eq!(plan.source, "/repo/src/old.ts");
    assert_eq!(plan.destination, "/repo/src/new.ts");
    assert_eq!(plan.source_relative, "src/old.ts");
    assert_eq!(plan.dest_relative, "src/new.ts");
    assert_eq!(plan.affected_files.len(), 1);
    let a = &plan.affected_files[0];
    assert_eq!(a.relative, "src/consumer.ts");
    assert_eq!(a.reference_count, 1);
    assert_eq!(a.old_specifier, "./old");
    assert_eq!(a.new_specifier, "./new");
    assert_eq!(plan.references_to_update, 1);
    let consumer = updated_content("import { a } from './old';\n", a).unwrap();
    assert!(consumer.contains("./new"), "references must be rewritten: {consumer}");
    assert!(!consumer.contains("./old"));
}

#[test]
fn rename_requires_yes() {
    let c = ctx(&["src", "src/old.ts"]);
    let files = vec![file("src/old.ts", "export const a = 1;\n")];
    let plan = plan_rename(&c, "src/old.ts", "src/new.ts", true, false, &files).unwrap();
    let mut out = Output::new(false, false, false, true);
    assert_eq!(report_plan(&mut out, &plan, false, false), Some(2), "without --yes rename should refuse");
    assert!(out.lines.iter().any(|l| l.text.contains("requires --yes")));
}

#[test]
fn rename_dry_run_leaves_files() {
    let c = ctx(&["old.ts"]);
    let files = vec![file("old.ts", "export const a = 1;\n")];
    let plan = plan_rename(&c, "old.ts", "new.ts", true, false, &files).unwrap();
    assert!(plan.affected_files.is_empty());
    let mut out = Output::new(false, false, false, true);
    assert_eq!(report_plan(&mut out, &plan, true, false), Some(0));
    let mut confirmed = Output::new(false, false, false, true);
    assert_eq!(report_plan(&mut confirmed, &plan, false, true), None);
}

#[test]
fn rename_updates_both_quote_styles() {
    let c = ctx(&["lib", "lib/old.ts", "lib/consumer1.ts", "lib/consumer2.ts"]);
    let files = vec![
        file("lib/old.ts", "export const b = 2;\n"),
        file("lib/consumer1.ts", "import { b } from './old';\n"),
        file("lib/consumer2.ts", "import { b } from \"./old\";\n"),
    ];
    let plan = plan_rename(&c, "lib/old.ts", "lib/new.ts", true, false, &files).unwrap();
    assert_eq!(plan.affected_files.len(), 2);
    let one = updated_content("import { b } from './old';\n", &plan.affected_files[0]).unwrap();
    let two = updated_content("import { b } from \"./old\";\n", &plan.affected_files[1]).unwrap();
    assert!(one.contains("./new"));
    assert!(two.contains("./new"));
    assert_eq!(two, "import { b } from \"./new\";\n");
}

#[test]
fn rename_errors_name_the_failing_condition() {
    let c = ctx(&["src", "src/old.ts"]);
    let files: Vec<LoadedFile> = Vec::new();
    match plan_rename(&c, "src/missing.ts", "src/new.ts", false, false, &files) {
        Err(e) => {
            assert_eq!(e.exit_code(), 2);
            match e {
                RefactorError::PathSafety(m) => assert_eq!(m, "Source path does not exist: /repo/src/missing.ts"),
                _ => panic!("a missing source is a usage error"),
            }
        }
        _ => panic!("a missing source is a usage error"),
    }
    match plan_rename(&c, "src/old.ts", "src/taken.ts", true, true, &files) {
        Err(RefactorError::Conflict(m)) => assert_eq!(m, "Destination already exists: /repo/src/taken.ts"),
        _ => panic!("expected a conflict"),
    }
    match plan_rename(&c, "/elsewhere/x.ts", "src/new.ts", true, false, &files) {
        Err(RefactorError::PathSafety(m)) => assert_eq!(m, "Source path is outside repository root: /elsewhere/x.ts"),
        _ => panic!("expected a path safety error"),
    }
    match plan_rename(&c, "src/old.ts", "/elsewhere/new.ts", true, false, &files) {
        Err(RefactorError::PathSafety(m)) => {
            assert_eq!(m, "Destination path is outside repository root: /elsewhere/new.ts")
        }
        _ => panic!("expected a path safety error"),
    }
}

#[test]
fn pathdiff_counts_parent_steps() {
    assert_eq!(pathdiff_rel("src", "src/new"), "./new");
    assert_eq!(pathdiff_rel("src/features/user", "src/lib/x"), "../../lib/x");
    assert_eq!(pathdiff_rel("", "src/new"), "./src/new");
    assert_eq!(pathdiff_rel("a", "a"), ".");
    assert_eq!(relative_specifier("a/b", "a"), "..");
    assert_eq!(pathdiff_rel("src/pages", "src/components/old-button"), "../components/old-button");
}

#[test]
fn relative_specifier_resolves_back_to_target() {
    for (dir, target) in [("src", "src/new"), ("src/features/user", "src/lib/x"), ("", "a/b"), ("a/b/c", "a")] {
        let spec = relative_specifier(dir, target);
        assert_eq!(resolve_relative_gen(dir, &spec), target, "{dir} -> {target} via {spec}");
    }
}

#[test]
fn resolution_applies_dot_segments() {
    assert_eq!(resolve_relative("src/b.ts", "./a"), "src/a");
    assert_eq!(resolve_relative("src/x/b.ts", "../a"), "src/a");
    assert_eq!(resolve_relative("b.ts", "./a/./c"), "a/c");
    assert_eq!(resolve_relative_gen("src", "../../a"), "a");
}

#[test]
fn source_extensions_are_stripped() {
    assert_eq!(strip_source_ext("src/old.ts"), "src/old");
    assert_eq!(strip_source_ext("src/view.tsx"), "src/view");
    assert_eq!(strip_source_ext("old.mjs"), "old");
    assert_eq!(strip_source_ext("src/style.css"), "src/style.css");
    assert_eq!(strip_source_ext("src/types.d.ts"), "src/types.d");
}

#[test]
fn candidates_skip_repeated_neighbours() {
    assert_eq!(unique_candidates("src/a.ts", "src/a", "./a"), vec!["src/a", "src/a.ts", "./a"]);
    assert_eq!(unique_candidates("src/a.css", "src/a.css", "./a.css"), vec!["src/a.css", "./a.css"]);
}

#[test]
fn rewritten_specifiers_resolve_to_the_destination() {
    let c = ctx(&["src", "src/lib", "src/lib/old.ts", "src/features", "src/features/user", "src/features/user/columns.tsx"]);
    let files = vec![
        file("src/lib/old.ts", "export const o = 1;\n"),
        file("src/features/user/columns.tsx", "import { o } from 'src/lib/old';\n"),
    ];
    let plan = plan_rename(&c, "src/lib/old.ts", "src/shared/new.ts", true, false, &files).unwrap();
    assert_eq!(plan.affected_files.len(), 1);
    let a = &plan.affected_files[0];
    assert_eq!(a.old_specifier, "../../lib/old");
    assert_eq!(a.new_specifier, "../../shared/new");
    assert_eq!(resolve_relative(&a.relative, &a.new_specifier), "src/shared/new");
}
