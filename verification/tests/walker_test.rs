use refactor::cli::GlobalArgs;
use refactor::config::{apply_cli_args, load};
use refactor::context::RepoContext;
use refactor::filesystem::walker::{collect_files, is_included};

fn args(only: Option<Vec<String>>) -> GlobalArgs {
    GlobalArgs {
        root: "/repo".to_string(),
        verbose: false,
        quiet: false,
        json: false,
        no_color: false,
        dry_run: false,
        yes: false,
        include_paths: only,
        exclude: None,
        extensions: None,
        threads: None,
    }
}

fn relatives(only: Option<Vec<String>>) -> Vec<String> {
    let mut config = load(None);
    apply_cli_args(&mut config, &args(only));
    let ctx = RepoContext::new("/repo".to_string(), config, false, Vec::new());
    let walked = vec!["/repo/src/a.ts".to_string(), "/repo/lib/b.ts".to_string()];
    collect_files(&ctx, &walked).into_iter().map(|e| e.relative).collect()
}

#[test]
fn included_paths_limit_the_collected_files() {
    assert_eq!(relatives(Some(vec!["src".to_string()])), vec!["src/a.ts".to_string()]);
    assert_eq!(relatives(None), vec!["src/a.ts".to_string(), "lib/b.ts".to_string()]);
    assert_eq!(relatives(Some(vec!["lib".to_string(), "src".to_string()])).len(), 2);
}

#[test]
fn inclusion_goes_by_whole_components() {
    let only = vec!["src".to_string()];
    assert!(is_included("src/a.ts", &only));
    assert!(!is_included("srcs/a.ts", &only));
    assert!(is_included("anything", &Vec::new()));
}
