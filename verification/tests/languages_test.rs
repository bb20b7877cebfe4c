use refactor::languages::javascript::{analyze_js_exports, analyze_js_imports, analyze_js_references};
use refactor::languages::php::{analyze_php_imports, extract_php_use_path};
use refactor::languages::{detect_language, Analyzer, ImportType, LanguageAnalyzer, ReferenceType};

fn paths_and_kinds(v: &[refactor::languages::ImportInfo]) -> Vec<(String, usize, ImportType)> {
    v.iter().map(|i| (i.import_path.clone(), i.line_number, i.import_type)).collect()
}

#[test]
fn typescript_imports_by_kind() {
    let src = "import { a } from './a';\n// import { z } from './z';\nexport { b } from './b';\nconst x = import('./lazy');\nimport './side-effect';\n";
    let found = paths_and_kinds(&analyze_js_imports(src, true));
    assert_eq!(
        found,
        vec![
            ("./a".to_string(), 1, ImportType::Static),
            ("./b".to_string(), 3, ImportType::Static),
            ("./b".to_string(), 3, ImportType::ReExport),
            ("./lazy".to_string(), 4, ImportType::Dynamic),
        ]
    );
    let exports = paths_and_kinds(&analyze_js_exports(src, true));
    assert_eq!(exports, vec![("./b".to_string(), 3, ImportType::ReExport)]);
    assert!(analyze_js_exports(src, false).is_empty());
}

#[test]
fn javascript_requires_are_imports() {
    let src = "const r = require('./r');\nconst s = require(\"s/t\");\n";
    let found = paths_and_kinds(&analyze_js_imports(src, false));
    assert_eq!(found, vec![("./r".to_string(), 1, ImportType::Require), ("s/t".to_string(), 2, ImportType::Require)]);
    assert!(analyze_js_imports(src, true).is_empty());
}

#[test]
fn references_keep_their_line() {
    let src = "  import a from './a';\nexport * from \"./all\";\nconst c = require('./c');\n";
    let refs = analyze_js_references(src);
    assert_eq!(refs.len(), 3);
    assert_eq!(refs[0].text, "./a");
    assert_eq!(refs[0].line_content, "  import a from './a';");
    assert_eq!(refs[0].ref_type, ReferenceType::Import);
    assert_eq!(refs[1].ref_type, ReferenceType::Export);
    assert_eq!(refs[2].ref_type, ReferenceType::Require);
    assert_eq!(refs[2].line_number, 3);
}

#[test]
fn php_use_statements() {
    assert_eq!(extract_php_use_path("use function const App\\HELPER;"), Some("App\\HELPER".to_string()));
    assert_eq!(extract_php_use_path("use App\\Models\\User;"), None);
    let found = analyze_php_imports("<?php\nuse function const App\\HELPER;\nrequire_once 'vendor/autoload.php';\n// include 'x.php';\ninclude \"y.php\";\n");
    let got: Vec<(String, usize, ImportType)> = found.iter().map(|i| (i.import_path.clone(), i.line_number, i.import_type)).collect();
    assert_eq!(
        got,
        vec![
            ("App\\HELPER".to_string(), 2, ImportType::Static),
            ("vendor/autoload.php".to_string(), 3, ImportType::Static),
            ("y.php".to_string(), 5, ImportType::Static),
        ]
    );
}

#[test]
fn languages_follow_the_extension() {
    assert!(matches!(detect_language("src/a.TSX"), Analyzer::TypeScript));
    assert!(matches!(detect_language("lib/b.cjs"), Analyzer::JavaScript));
    assert!(matches!(detect_language("app/c.php"), Analyzer::Php));
    assert!(matches!(detect_language("package.json"), Analyzer::Json(None)));
    assert!(matches!(detect_language("README"), Analyzer::Generic));
}

#[test]
fn analyzers_name_their_extensions() {
    assert_eq!(Analyzer::TypeScript.extensions(), vec!["ts", "tsx"]);
    assert_eq!(Analyzer::JavaScript.extensions(), vec!["js", "jsx", "mjs", "cjs"]);
    assert_eq!(Analyzer::Php.extensions(), vec!["php"]);
    assert_eq!(Analyzer::Json(None).extensions(), vec!["json"]);
    assert!(Analyzer::Generic.extensions().is_empty());
}
