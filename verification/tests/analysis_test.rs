use refactor::analyzers::consistency::check_repository_consistency;
use refactor::analyzers::duplicates::{find_duplicates, group_duplicates, DupCandidate};
use refactor::analyzers::imports::{check_import_consistency, IssueKind};
use refactor::analyzers::references::{find_broken_references, find_unreferenced_files, is_entry_point, might_exist};
use refactor::cli::CheckArgs;
use refactor::commands::check::run as check_run;
use refactor::config::default_config;
use refactor::context::RepoContext;
use refactor::filesystem::walker::FileEntry;
use refactor::output::Output;
use refactor::refactor::import_migration::{apply_line_edits, changed_files, changes_of_file, plan_import_migration};
use refactor::refactor::path_migration::{changes_per_file, migrated_text, plan_path_migration};
use refactor::scanner::content_scanner::scan_imports;
use refactor::scanner::file_scanner::scan_repository;
use refactor::scanner::reference_scanner::{build_reference_graph, extract_path_references};
use refactor::scanner::LoadedFile;

fn ctx(entries: &[&str]) -> RepoContext {
    RepoContext::new(
        "/repo".to_string(),
        default_config(),
        false,
        entries.iter().map(|e| e.to_string()).collect(),
    )
}

fn entry(relative: &str) -> FileEntry {
    FileEntry { path: format!("/repo/{relative}"), relative: relative.to_string() }
}

fn file(relative: &str, text: &str) -> LoadedFile {
    LoadedFile { entry: entry(relative), text: Some(text.to_string()), has_bom: false }
}

fn import_repo() -> Vec<LoadedFile> {
    vec![
        file(
            "src/features/user/columns.tsx",
            "import { ResourceTable } from 'admin/resource-kit';\nexport const C = () => null;\n",
        ),
        file("src/features/admin/rows.tsx", "import { ResourceTable } from 'admin/resource-kit';\nimport X from './X';\n"),
        file("src/features/admin/X.tsx", "export default function X() { return null; }\n"),
        file("src/components/resource-kit/index.ts", "export const ResourceTable = () => null;\n"),
    ]
}

fn check_code(c: &RepoContext, files: &Vec<LoadedFile>, strict: bool) -> i32 {
    let imports = scan_imports(files);
    let graph = build_reference_graph(files);
    let report = check_repository_consistency(c, &imports, &Vec::new(), &graph);
    let mut out = Output::new(false, false, false, true);
    check_run(&mut out, &CheckArgs { strict }, &report, &Vec::new())
}

#[test]
fn check_passes_on_consistent_repo() {
    let c = ctx(&["src", "src/a.ts", "src/b.ts"]);
    let files = vec![file("src/a.ts", "export const a = 1;\n"), file("src/b.ts", "import { a } from './a';\n")];
    assert_eq!(check_code(&c, &files, false), 0);
    assert_eq!(check_code(&c, &files, true), 0);
}

#[test]
fn check_fails_with_broken_import() {
    let c = ctx(&["src", "src/a.ts"]);
    let files = vec![file("src/a.ts", "import { missing } from './does-not-exist';\n")];
    assert_eq!(check_code(&c, &files, false), 1, "exit code should be 1");
    let issues = check_import_consistency(&c, &scan_imports(&files), &Vec::new());
    assert_eq!(issues.len(), 1);
    assert_eq!(issues[0].kind, IssueKind::BrokenImport);
    assert_eq!(issues[0].line, 1);
    assert_eq!(issues[0].import_path, "./does-not-exist");
    let broken = find_broken_references(&c, &build_reference_graph(&files));
    assert_eq!(broken.len(), 1);
    assert_eq!(broken[0].resolved, "src/does-not-exist");
}

#[test]
fn resolved_references_may_omit_extension_or_name_an_index() {
    let c = ctx(&["src", "src/a.ts", "src/lib", "src/lib/index.tsx"]);
    assert!(might_exist(&c, "src/a"));
    assert!(might_exist(&c, "src/a.ts"));
    assert!(might_exist(&c, "src/lib"));
    assert!(might_exist(&c, "src/lib/"));
    assert!(!might_exist(&c, "src/b"));
    let d = ctx(&["src", "src/foo.service.ts"]);
    assert!(might_exist(&d, "src/foo.service"), "the extension is appended, not substituted");
    assert!(!might_exist(&d, "src/foo"));
}

#[test]
fn duplicates_detect_same_content() {
    let mut files = Vec::new();
    for i in 0..3 {
        files.push(DupCandidate {
            relative: format!("src/dup{i}.ts"),
            size: 29,
            content: Some(b"export const duplicate = 42;\n".to_vec()),
        });
    }
    files.push(DupCandidate { relative: "src/other.ts".to_string(), size: 10, content: Some(b"other\n\n\n\n\n".to_vec()) });
    let groups = find_duplicates(&files, 0);
    assert_eq!(groups.len(), 1, "should report duplicate groups");
    assert_eq!(groups[0].files, vec!["src/dup0.ts", "src/dup1.ts", "src/dup2.ts"]);
    assert_eq!(groups[0].hash, blake3::hash(b"export const duplicate = 42;\n").to_hex().to_string());
    assert!(find_duplicates(&files, 100).is_empty());
}

#[test]
fn duplicate_groups_carry_the_blake3_digest() {
    let files = vec![
        DupCandidate { relative: "a".to_string(), size: 3, content: Some(b"abc".to_vec()) },
        DupCandidate { relative: "b".to_string(), size: 3, content: Some(b"abc".to_vec()) },
        DupCandidate { relative: "c".to_string(), size: 3, content: Some(b"abd".to_vec()) },
        DupCandidate { relative: "d".to_string(), size: 3, content: None },
    ];
    let groups = find_duplicates(&files, 1);
    assert_eq!(groups.len(), 1);
    assert_eq!(groups[0].hash, "6437b3ac38465133ffb63b75273a8db548c558465d79db03fd359c6cd5bd9d85");
    assert_eq!(groups[0].files, vec!["a", "b"]);
}

#[test]
fn duplicates_group_by_the_given_digests() {
    let cand = |name: &str, size: u64| DupCandidate { relative: name.to_string(), size, content: Some(vec![0u8]) };
    let files = vec![cand("a", 5), cand("b", 5), cand("c", 5), cand("d", 9), cand("e", 5)];
    let digests: Vec<String> = ["x", "x", "y", "x", "y"].iter().map(|d| d.to_string()).collect();
    let groups = group_duplicates(&files, 1, &digests);
    assert_eq!(groups.len(), 2);
    assert_eq!(groups[0].hash, "x");
    assert_eq!(groups[0].files, vec!["a", "b"], "d has a size of its own and is never compared");
    assert_eq!(groups[1].hash, "y");
    assert_eq!(groups[1].files, vec!["c", "e"]);
    assert!(group_duplicates(&files, 6, &digests).is_empty(), "below the minimum size nothing is compared");
}

#[test]
fn unused_reports_unreferenced_file() {
    let files = vec![
        file("src/cited.ts", "export const used = 1;\n"),
        file("src/orphan.ts", "export const lonely = 2;\n"),
        file("src/main.ts", "import { used } from './cited';\n"),
    ];
    let unused = find_unreferenced_files(&build_reference_graph(&files));
    assert!(unused.iter().any(|f| f.contains("orphan.ts")), "should flag unreferenced source file");
    assert!(!unused.iter().any(|f| f.contains("main.ts")));
    assert_eq!(unused, vec!["src/orphan.ts".to_string()], "a file imported as './cited' is referenced");
    assert!(is_entry_point("src/Main.ts"));
    assert!(is_entry_point("app/Http/Kernel.php"));
    assert!(!is_entry_point("src/orphan.ts"));
}

#[test]
fn references_finds_import_sites() {
    let graph = build_reference_graph(&import_repo());
    let found = graph.find_references_to("admin/resource-kit");
    assert!(found.iter().any(|f| f.contains("columns.tsx")), "should find columns.tsx");
    assert!(found.iter().any(|f| f.contains("rows.tsx")), "should find rows.tsx");
    assert_eq!(found.len(), 2);
    assert!(graph.is_referenced("./X"));
    assert!(graph.is_referenced("src/features/admin/X.tsx"));
    assert!(graph.is_referenced("src/components/resource-kit/index.ts") == false);
    assert_eq!(
        extract_path_references("import a from './x';\nconst b = require(\"lib/y\");\nimport c from 'react';\n"),
        vec!["./x".to_string(), "lib/y".to_string()]
    );
}

#[test]
fn references_follow_relative_specifiers() {
    let files = vec![
        file("src/components/Button.tsx", "export const Button = 1;\n"),
        file("src/pages/Home.tsx", "import { Button } from '../components/Button';\n"),
        file("src/lib/index.ts", "export const lib = 1;\n"),
        file("src/app.ts", "import { lib } from './lib';\n"),
    ];
    let graph = build_reference_graph(&files);
    assert_eq!(graph.find_references_to("components/Button"), vec!["src/pages/Home.tsx".to_string()]);
    assert_eq!(graph.find_references_to("src/components/Button.tsx"), vec!["src/pages/Home.tsx".to_string()]);
    assert!(graph.find_references_to("nents/Button").is_empty());
    assert!(graph.is_referenced("src/lib/index.ts"), "a directory import reaches its index module");
    assert!(graph.is_referenced("src/components/Button.tsx"));
    assert!(!graph.is_referenced("src/pages/Home.tsx"));
}

#[test]
fn imports_scan_reports_imports() {
    let scanned = scan_imports(&import_repo());
    let total: usize = scanned.iter().map(|f| f.imports.len()).sum();
    assert_eq!(total, 3);
    assert!(scanned.iter().all(|f| !f.imports.is_empty() || !f.exports.is_empty()));
}

#[test]
fn imports_migrate_rewrites_import_paths() {
    let files = import_repo();
    let plan = plan_import_migration(&files, "admin/resource-kit", "components/resource-kit");
    assert_eq!(plan.files_affected, 2);
    assert_eq!(plan.imports_updated, 2);
    let user_changes: Vec<_> = plan.changes.iter().filter(|c| c.relative == "src/features/user/columns.tsx").cloned().collect();
    let user = apply_line_edits(files[0].text.as_ref().unwrap(), &user_changes);
    assert!(user.contains("components/resource-kit"), "user columns: {user}");
    let rows_changes: Vec<_> = plan.changes.iter().filter(|c| c.relative == "src/features/admin/rows.tsx").cloned().collect();
    let rows = apply_line_edits(files[1].text.as_ref().unwrap(), &rows_changes);
    assert!(rows.contains("components/resource-kit"), "rows: {rows}");
    assert!(rows.contains("./X"), "non-matching import must be untouched");
}

#[test]
fn migration_changes_group_by_file() {
    let files = vec![
        file("a.ts", "import x from 'lib/old';\nimport y from 'lib/old/z';\n"),
        file("b.ts", "import w from 'lib/old';\n"),
    ];
    let plan = plan_import_migration(&files, "lib/old", "lib/new");
    assert_eq!(plan.imports_updated, 3);
    assert_eq!(changed_files(&plan), vec!["/repo/a.ts".to_string(), "/repo/b.ts".to_string()]);
    assert_eq!(changed_files(&plan).len(), plan.files_affected);
    let a = changes_of_file(&plan, "/repo/a.ts");
    assert_eq!(a.iter().map(|c| c.line_number).collect::<Vec<_>>(), vec![1, 2]);
    assert_eq!(apply_line_edits(files[0].text.as_ref().unwrap(), &a), "import x from 'lib/new';\nimport y from 'lib/new/z';\n");
    assert!(changes_of_file(&plan, "/repo/c.ts").is_empty());
    let paths = plan_path_migration(&files, "lib/old", "lib/new");
    let firsts = changes_per_file(&paths);
    assert_eq!(firsts.len(), 2);
    assert_eq!(firsts[0].relative, "a.ts");
    assert_eq!(firsts[0].line_number, 1);
    assert_eq!(firsts[1].relative, "b.ts");
}

#[test]
fn imports_migrate_does_not_touch_dry_run() {
    let files = import_repo();
    let before = files[0].text.clone();
    let _plan = plan_import_migration(&files, "admin/resource-kit", "components/resource-kit");
    assert_eq!(files[0].text, before, "dry-run must not change files");
    assert_eq!(apply_line_edits("a\r\nb\n", &Vec::new()), "a\r\nb\n");
}

#[test]
fn imports_below_the_old_path_move_too() {
    let files = vec![file("a.ts", "import x from 'lib/old/deep/mod';\nimport y from 'lib/older';\n")];
    let plan = plan_import_migration(&files, "lib/old", "lib/new");
    assert_eq!(plan.imports_updated, 1);
    assert_eq!(plan.changes[0].new_import, "lib/new/deep/mod");
    assert_eq!(plan.changes[0].line_number, 1);
}

#[test]
fn paths_migrate_rewrites_references() {
    let files = import_repo();
    let plan = plan_path_migration(&files, "admin/resource-kit", "components/resource-kit");
    assert_eq!(plan.files_affected, 2);
    assert_eq!(plan.paths_updated, 2);
    let user = migrated_text(files[0].text.as_ref().unwrap(), &plan.changes[0]).unwrap();
    assert!(user.contains("components/resource-kit"), "paths migrate must rewrite");
    assert!(!user.contains("admin/resource-kit"));
}

#[test]
fn scan_reports_files_by_extension() {
    let files = vec![entry("src/a.ts"), entry("src/b.ts"), entry("src/c.TS"), entry("README"), entry("x.php")];
    let stats = scan_repository(&files, &vec!["src".to_string()]);
    assert_eq!(stats.total_files, 5);
    assert_eq!(stats.total_dirs, 1);
    let ts = stats.by_extension.iter().find(|(e, _)| e == "ts").unwrap();
    assert_eq!(ts.1, 3, "should show ts extension stats");
    assert_eq!(stats.source_files, 3);
}
