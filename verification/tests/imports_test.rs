use refactor::analyzers::imports::{check_import_consistency, looks_like_alias, match_alias, resolve_alias, IssueKind};
use refactor::config::default_config;
use refactor::context::RepoContext;
use refactor::filesystem::walker::FileEntry;
use refactor::scanner::content_scanner::scan_imports;
use refactor::scanner::LoadedFile;

fn ctx(entries: &[&str]) -> RepoContext {
    RepoContext::new(
        "/repo".to_string(),
        default_config(),
        false,
        entries.iter().map(|e| e.to_string()).collect(),
    )
}

fn file(relative: &str, text: &str) -> LoadedFile {
    LoadedFile {
        entry: FileEntry { path: format!("/repo/{relative}"), relative: relative.to_string() },
        text: Some(text.to_string()),
        has_bom: false,
    }
}

fn aliases() -> Vec<(String, Vec<String>)> {
    vec![("@/*".to_string(), vec!["./app/js/*".to_string()]), ("~lib".to_string(), vec!["lib/index".to_string()])]
}

#[test]
fn import_issues_by_kind() {
    let c = ctx(&["src", "src/a.ts", "src/b.ts", "app", "app/js", "app/js/ok.ts"]);
    let text = "import x from './a';\nimport y from './/a';\nimport z from './x/./y';\nimport w from '@/missing';\nimport v from '@/ok';\n";
    let files = vec![file("src/b.ts", text)];
    let issues = check_import_consistency(&c, &scan_imports(&files), &aliases());
    let got: Vec<(usize, IssueKind, String)> = issues.iter().map(|i| (i.line, i.kind, i.detail.clone())).collect();
    assert_eq!(
        got,
        vec![
            (2, IssueKind::DoubleSlash, "Import path contains double slashes".to_string()),
            (3, IssueKind::BrokenImport, "Resolved path does not exist: src/x/y".to_string()),
            (3, IssueKind::RedundantSegment, "Import path contains redundant ./ segment".to_string()),
            (4, IssueKind::AliasMismatch, "Alias '@' resolves to missing path: app/js/missing".to_string()),
        ]
    );
    assert!(issues.iter().all(|i| i.file == "src/b.ts"));
}

#[test]
fn case_mismatch_names_the_actual_file() {
    let c = ctx(&["src", "src/Lib", "src/Lib/Util.ts", "main.ts"]);
    let files = vec![file("main.ts", "import u from 'src/Lib/util.ts';\n")];
    let issues = check_import_consistency(&c, &scan_imports(&files), &Vec::new());
    assert_eq!(issues.len(), 1);
    assert_eq!(issues[0].kind, IssueKind::CaseMismatch);
    assert_eq!(issues[0].line, 0);
    assert_eq!(issues[0].import_path, "src/Lib/util.ts");
    assert_eq!(issues[0].detail, "Import casing 'src/Lib/util.ts' does not match actual file 'src/Lib/Util.ts'");
}

#[test]
fn aliases_match_by_prefix_or_exactly() {
    let a = aliases();
    assert_eq!(match_alias("@/x/y", &a), Some(("@".to_string(), vec!["./app/js/*".to_string()])));
    assert_eq!(match_alias("~lib", &a), Some(("~lib".to_string(), vec!["lib/index".to_string()])));
    assert_eq!(match_alias("@x", &a), None);
    assert_eq!(resolve_alias("@/x/y", "@", vec!["./app/js/*".to_string()]), "app/js/x/y");
    assert_eq!(resolve_alias("@/x", "@", Vec::new()), "@/x");
    assert!(looks_like_alias("@", &a));
    assert!(looks_like_alias("~lib/deep", &a));
    assert!(!looks_like_alias("react", &a));
}

#[test]
fn leading_dot_before_parent_is_redundant() {
    let c = ctx(&["utils", "utils/x.ts", "src", "src/a.ts"]);
    let files = vec![file("src/a.ts", "import { x } from './../utils/x';\n")];
    let issues = check_import_consistency(&c, &scan_imports(&files), &Vec::new());
    assert_eq!(issues.len(), 1);
    assert_eq!(issues[0].file, "src/a.ts");
    assert_eq!(issues[0].line, 1);
    assert_eq!(issues[0].import_path, "./../utils/x");
    assert_eq!(issues[0].kind, IssueKind::RedundantSegment);
}

#[test]
fn mixed_separators_are_reported() {
    let c = ctx(&["src", "src/a.ts", "src/utils", "src/utils/x.ts"]);
    let files = vec![file("src/a.ts", "import { x } from './utils\\x';\nimport { y } from './utils/x';\n")];
    let issues = check_import_consistency(&c, &scan_imports(&files), &Vec::new());
    assert_eq!(issues.len(), 1);
    assert_eq!(issues[0].line, 1);
    assert_eq!(issues[0].import_path, "./utils\\x");
    assert_eq!(issues[0].kind, IssueKind::InconsistentSlashes);
    assert_eq!(issues[0].detail, "Import path mixes / and \\ separators");
}
