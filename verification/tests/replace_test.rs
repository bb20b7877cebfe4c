use refactor::error::RefactorError;
use refactor::filesystem::reader::{file_bytes, file_content_from_bytes, is_binary_file, restore_bom, strip_bom};
use refactor::filesystem::walker::FileEntry;
use refactor::refactor::matching::regex_escape;
use refactor::refactor::replacement::{
    apply_replacement, build_pattern, literal_replace, literal_replace_case_insensitive, literal_replace_whole_word,
    plan_replacement, regex_outcome, Pattern,
};
use refactor::scanner::LoadedFile;

fn file(relative: &str, text: &str) -> LoadedFile {
    LoadedFile {
        entry: FileEntry { path: format!("/repo/{relative}"), relative: relative.to_string() },
        text: Some(text.to_string()),
        has_bom: false,
    }
}

fn repo() -> Vec<LoadedFile> {
    vec![
        file(
            "app/resources/js/admin/academic/columns.tsx",
            "import { ResourceTable } from 'admin/resource-kit';\n\nexport default function Columns() {\n  return <ResourceTable />;\n}\n",
        ),
        file(
            "app/resources/js/admin/admission/columns.tsx",
            "import { ResourceTable } from 'admin/resource-kit';\n\nexport default function AdmissionColumns() {\n  return <ResourceTable />;\n}\n",
        ),
        file("components/resource-kit/index.ts", "export const ResourceTable = () => null;\n"),
        file(
            "app/App.tsx",
            "import { ResourceTable } from 'admin/resource-kit';\nimport Columns from './admin/academic/columns';\n",
        ),
    ]
}

fn content_of<'a>(plan: &'a refactor::refactor::replacement::ReplacePlan, relative: &str) -> &'a str {
    &plan.changes.iter().find(|c| c.relative == relative).unwrap().new_content
}

#[test]
fn replace_updates_all_matching_files() {
    let plan = plan_replacement(&repo(), "admin/resource-kit", "components/resource-kit", false, false, false).unwrap();
    assert_eq!(plan.files_affected, 3);
    assert_eq!(plan.replacements, 3);
    let academic = content_of(&plan, "app/resources/js/admin/academic/columns.tsx");
    assert!(!academic.contains("admin/resource-kit"), "academic not updated: {academic}");
    assert!(academic.contains("components/resource-kit"));
    let admission = content_of(&plan, "app/resources/js/admin/admission/columns.tsx");
    assert!(admission.contains("components/resource-kit"), "admission not updated");
    let app = content_of(&plan, "app/App.tsx");
    assert!(app.contains("components/resource-kit"), "app not updated");
    assert!(app.contains("./admin/academic/columns"), "relative import must be unchanged");
}

#[test]
fn replace_dry_run_does_not_modify() {
    let files = repo();
    let before: Vec<Option<String>> = files.iter().map(|f| f.text.clone()).collect();
    let plan = plan_replacement(&files, "admin/resource-kit", "components/resource-kit", false, false, false).unwrap();
    assert_eq!(plan.changes.len(), 3);
    let after: Vec<Option<String>> = files.iter().map(|f| f.text.clone()).collect();
    assert_eq!(before, after, "dry-run must not modify");
}

#[test]
fn replace_is_idempotent() {
    let plan = plan_replacement(&repo(), "admin/resource-kit", "components/resource-kit", false, false, false).unwrap();
    let rewritten: Vec<LoadedFile> = plan.changes.iter().map(|c| file(&c.relative, &c.new_content)).collect();
    let again = plan_replacement(&rewritten, "admin/resource-kit", "components/resource-kit", false, false, false).unwrap();
    assert_eq!(again.files_affected, 0);
    assert_eq!(again.replacements, 0);
    assert!(again.changes.is_empty());
}

#[test]
fn replace_respects_bom_and_crlf() {
    let mut raw = vec![0xEF, 0xBB, 0xBF];
    raw.extend_from_slice(b"import a from 'admin/resource-kit';\r\nconst x = 1;\r\n");
    let content = file_content_from_bytes(&raw).unwrap();
    assert!(content.has_bom);
    assert!(!content.text.starts_with('\u{feff}'));
    let pattern = build_pattern("admin/resource-kit", false, false, false).unwrap();
    let (text, n) = apply_replacement(&content.text, &pattern, "components/resource-kit").unwrap();
    assert_eq!(n, 1);
    let bytes = file_bytes(&text, content.has_bom);
    assert_eq!(&bytes[..3], &[0xEF, 0xBB, 0xBF], "BOM must be preserved");
    let back = String::from_utf8(bytes[3..].to_vec()).unwrap();
    assert!(back.contains("components/resource-kit"), "replacement applied");
    assert!(back.contains("\r\n"), "CRLF preserved: {back:?}");
    assert_eq!(back, "import a from 'components/resource-kit';\r\nconst x = 1;\r\n");
}

#[test]
fn replace_skips_binary_files() {
    assert!(is_binary_file("binary.ts", b"not text with null:\0\x01\x02"));
    assert!(!is_binary_file("text.ts", b"import x from 'admin/resource-kit';\n"));
    assert!(is_binary_file("logo.png", b"plain"));
    let binary = LoadedFile {
        entry: FileEntry { path: "/repo/binary.ts".to_string(), relative: "binary.ts".to_string() },
        text: None,
        has_bom: false,
    };
    let files = vec![binary, file("text.ts", "import x from 'admin/resource-kit';\n")];
    let plan = plan_replacement(&files, "admin/resource-kit", "components/resource-kit", false, false, false).unwrap();
    assert_eq!(plan.changes.len(), 1);
    assert_eq!(plan.changes[0].relative, "text.ts");
}

#[test]
fn bom_is_stripped_and_restored() {
    let (had, rest) = strip_bom(&[0xEF, 0xBB, 0xBF, b'a']);
    assert!(had);
    assert_eq!(rest, vec![b'a']);
    let (none, same) = strip_bom(b"ab");
    assert!(!none);
    assert_eq!(same, b"ab".to_vec());
    let mut content = rest.clone();
    restore_bom(true, &mut content);
    assert_eq!(content, vec![0xEF, 0xBB, 0xBF, b'a']);
    let mut plain = b"x".to_vec();
    restore_bom(false, &mut plain);
    assert_eq!(plain, b"x".to_vec());
}

#[test]
fn literal_modes_differ_in_case_and_words() {
    assert_eq!(literal_replace("Foo foo", "foo", "bar"), ("Foo bar".to_string(), 1));
    assert_eq!(literal_replace_case_insensitive("Foo foo", "foo", "bar"), ("bar bar".to_string(), 2));
    assert_eq!(literal_replace_whole_word("foo food Foo", "foo", "x", false), ("x food x".to_string(), 2));
    assert_eq!(literal_replace_whole_word("foo food Foo", "foo", "x", true), ("x food Foo".to_string(), 1));
    let exact = Pattern::Literal { old: "Admin".to_string(), case_sensitive: true, whole_word: true };
    assert_eq!(apply_replacement("admin Admin", &exact, "X"), Some(("admin X".to_string(), 1)));
    assert_eq!(literal_replace_case_insensitive("a.b axb", "a.b", "c"), ("c axb".to_string(), 1));
}

#[test]
fn regex_patterns_are_checked() {
    match build_pattern("(", true, true, false) {
        Err(RefactorError::Regex(_)) => {}
        _ => panic!("an unbalanced group must be refused"),
    }
    match build_pattern("a+", true, false, true) {
        Ok(Pattern::Regex(src)) => assert_eq!(src, "(?i)\\ba+\\b"),
        _ => panic!("expected a regex pattern"),
    }
    let p = build_pattern("v(\\d)", true, true, false).unwrap();
    assert_eq!(apply_replacement("v1 v2", &p, "w$1"), Some(("w1 w2".to_string(), 2)));
    assert_eq!(apply_replacement("none here", &p, "w"), None);
    assert!(plan_replacement(&Vec::new(), "(", "x", true, true, false).is_err());
}

#[test]
fn escaped_literals_match_themselves() {
    assert_eq!(regex_escape("a.b*c"), "a\\.b\\*c");
    assert_eq!(regex_escape("plain"), "plain");
}

#[test]
fn regex_outcomes_follow_count_and_replacement() {
    assert_eq!(regex_outcome("abc", Some(2), Some("xyz".to_string())), ("xyz".to_string(), 2));
    assert_eq!(regex_outcome("abc", Some(0), Some("xyz".to_string())), ("abc".to_string(), 0));
    assert_eq!(regex_outcome("abc", None, None), ("abc".to_string(), 0));
    assert_eq!(regex_outcome("abc", Some(1), None), ("abc".to_string(), 0));
}
