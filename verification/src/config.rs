//! Configuration: defaults, the optional `.refactor.toml` settings, and how
//! command-line flags override them.
use vstd::prelude::*;
use crate::cli::GlobalArgs;
use crate::text::string_from;

verus! {

/// The texts of a vector of strings.
pub open spec fn strings_view(v: Seq<String>) -> Seq<Seq<char>> {
    v.map_values(|s: String| s@)
}

/// Effective configuration.
pub struct Config {
    pub scan: ScanConfig,
    pub typescript: TypeScriptConfig,
    pub output: OutputConfig,
}

/// Which files a scan covers.
pub struct ScanConfig {
    pub extensions: Vec<String>,
    pub exclude: Vec<String>,
    /// Only files under one of these paths are processed; all when empty.
    pub include_paths: Vec<String>,
}

/// TypeScript settings.
pub struct TypeScriptConfig {
    pub tsconfig: Option<String>,
}

/// Output settings.
pub struct OutputConfig {
    pub color: Option<bool>,
}

/// File extensions scanned by default.
pub open spec fn default_extension_list() -> Seq<Seq<char>> {
    seq![
        seq!['t', 's'],
        seq!['t', 's', 'x'],
        seq!['j', 's'],
        seq!['j', 's', 'x'],
        seq!['p', 'h', 'p'],
        seq!['j', 's', 'o', 'n'],
        seq!['c', 's', 's'],
        seq!['s', 'c', 's', 's'],
        seq!['m', 'd'],
        seq!['v', 'u', 'e'],
        seq!['s', 'v', 'e', 'l', 't', 'e'],
    ]
}

/// Directories skipped by default.
pub open spec fn default_exclude_list() -> Seq<Seq<char>> {
    seq![
        seq!['.', 'g', 'i', 't'],
        seq!['n', 'o', 'd', 'e', '_', 'm', 'o', 'd', 'u', 'l', 'e', 's'],
        seq!['v', 'e', 'n', 'd', 'o', 'r'],
        seq!['d', 'i', 's', 't'],
        seq!['b', 'u', 'i', 'l', 'd'],
        seq!['c', 'o', 'v', 'e', 'r', 'a', 'g', 'e'],
        seq!['.', 'c', 'a', 'c', 'h', 'e'],
        seq!['.', 'n', 'e', 'x', 't'],
        seq!['.', 'n', 'u', 'x', 't'],
        seq!['t', 'a', 'r', 'g', 'e', 't'],
        seq!['s', 't', 'o', 'r', 'a', 'g', 'e', '/', 'l', 'o', 'g', 's'],
        seq!['s', 't', 'o', 'r', 'a', 'g', 'e', '/', 'f', 'r', 'a', 'm', 'e', 'w', 'o', 'r', 'k', '/', 'c', 'a', 'c', 'h', 'e'],
    ]
}

/// Extensions of files treated as binary.
pub open spec fn binary_extension_list() -> Seq<Seq<char>> {
    seq![
        seq!['p', 'n', 'g'],
        seq!['j', 'p', 'g'],
        seq!['j', 'p', 'e', 'g'],
        seq!['g', 'i', 'f'],
        seq!['w', 'e', 'b', 'p'],
        seq!['i', 'c', 'o'],
        seq!['p', 'd', 'f'],
        seq!['z', 'i', 'p'],
        seq!['t', 'a', 'r'],
        seq!['g', 'z'],
        seq!['e', 'x', 'e'],
        seq!['d', 'l', 'l'],
        seq!['s', 'o'],
        seq!['d', 'y', 'l', 'i', 'b'],
        seq!['w', 'o', 'f', 'f'],
        seq!['w', 'o', 'f', 'f', '2'],
        seq!['t', 't', 'f'],
        seq!['o', 't', 'f'],
        seq!['m', 'p', '4'],
        seq!['m', 'p', '3'],
        seq!['b', 'm', 'p'],
        seq!['t', 'i', 'f', 'f'],
    ]
}

/// File extensions scanned by default.
pub fn default_extensions() -> (r: Vec<String>)
    ensures
        strings_view(r@) == default_extension_list(),
{
    let mut r: Vec<String> = Vec::new();
    r.push(string_from(&vec!['t', 's']));
    r.push(string_from(&vec!['t', 's', 'x']));
    r.push(string_from(&vec!['j', 's']));
    r.push(string_from(&vec!['j', 's', 'x']));
    r.push(string_from(&vec!['p', 'h', 'p']));
    r.push(string_from(&vec!['j', 's', 'o', 'n']));
    r.push(string_from(&vec!['c', 's', 's']));
    r.push(string_from(&vec!['s', 'c', 's', 's']));
    r.push(string_from(&vec!['m', 'd']));
    r.push(string_from(&vec!['v', 'u', 'e']));
    r.push(string_from(&vec!['s', 'v', 'e', 'l', 't', 'e']));
    proof {
        assert(r@[0]@ =~= seq!['t', 's']);
        assert(r@[1]@ =~= seq!['t', 's', 'x']);
        assert(r@[2]@ =~= seq!['j', 's']);
        assert(r@[3]@ =~= seq!['j', 's', 'x']);
        assert(r@[4]@ =~= seq!['p', 'h', 'p']);
        assert(r@[5]@ =~= seq!['j', 's', 'o', 'n']);
        assert(r@[6]@ =~= seq!['c', 's', 's']);
        assert(r@[7]@ =~= seq!['s', 'c', 's', 's']);
        assert(r@[8]@ =~= seq!['m', 'd']);
        assert(r@[9]@ =~= seq!['v', 'u', 'e']);
        assert(r@[10]@ =~= seq!['s', 'v', 'e', 'l', 't', 'e']);
        assert(strings_view(r@) =~= default_extension_list());
    }
    r
}

/// Directories skipped by default.
pub fn default_excludes() -> (r: Vec<String>)
    ensures
        strings_view(r@) == default_exclude_list(),
{
    let mut r: Vec<String> = Vec::new();
    r.push(string_from(&vec!['.', 'g', 'i', 't']));
    r.push(string_from(&vec!['n', 'o', 'd', 'e', '_', 'm', 'o', 'd', 'u', 'l', 'e', 's']));
    r.push(string_from(&vec!['v', 'e', 'n', 'd', 'o', 'r']));
    r.push(string_from(&vec!['d', 'i', 's', 't']));
    r.push(string_from(&vec!['b', 'u', 'i', 'l', 'd']));
    r.push(string_from(&vec!['c', 'o', 'v', 'e', 'r', 'a', 'g', 'e']));
    r.push(string_from(&vec!['.', 'c', 'a', 'c', 'h', 'e']));
    r.push(string_from(&vec!['.', 'n', 'e', 'x', 't']));
    r.push(string_from(&vec!['.', 'n', 'u', 'x', 't']));
    r.push(string_from(&vec!['t', 'a', 'r', 'g', 'e', 't']));
    r.push(string_from(&vec!['s', 't', 'o', 'r', 'a', 'g', 'e', '/', 'l', 'o', 'g', 's']));
    r.push(string_from(&vec!['s', 't', 'o', 'r', 'a', 'g', 'e', '/', 'f', 'r', 'a', 'm', 'e', 'w', 'o', 'r', 'k', '/', 'c', 'a', 'c', 'h', 'e']));
    proof {
        assert(r@[0]@ =~= seq!['.', 'g', 'i', 't']);
        assert(r@[1]@ =~= seq!['n', 'o', 'd', 'e', '_', 'm', 'o', 'd', 'u', 'l', 'e', 's']);
        assert(r@[2]@ =~= seq!['v', 'e', 'n', 'd', 'o', 'r']);
        assert(r@[3]@ =~= seq!['d', 'i', 's', 't']);
        assert(r@[4]@ =~= seq!['b', 'u', 'i', 'l', 'd']);
        assert(r@[5]@ =~= seq!['c', 'o', 'v', 'e', 'r', 'a', 'g', 'e']);
        assert(r@[6]@ =~= seq!['.', 'c', 'a', 'c', 'h', 'e']);
        assert(r@[7]@ =~= seq!['.', 'n', 'e', 'x', 't']);
        assert(r@[8]@ =~= seq!['.', 'n', 'u', 'x', 't']);
        assert(r@[9]@ =~= seq!['t', 'a', 'r', 'g', 'e', 't']);
        assert(r@[10]@ =~= seq!['s', 't', 'o', 'r', 'a', 'g', 'e', '/', 'l', 'o', 'g', 's']);
        assert(r@[11]@ =~= seq!['s', 't', 'o', 'r', 'a', 'g', 'e', '/', 'f', 'r', 'a', 'm', 'e', 'w', 'o', 'r', 'k', '/', 'c', 'a', 'c', 'h', 'e']);
        assert(strings_view(r@) =~= default_exclude_list());
    }
    r
}

/// Extensions of files treated as binary.
pub fn binary_extensions() -> (r: Vec<String>)
    ensures
        strings_view(r@) == binary_extension_list(),
{
    let mut r: Vec<String> = Vec::new();
    r.push(string_from(&vec!['p', 'n', 'g']));
    r.push(string_from(&vec!['j', 'p', 'g']));
    r.push(string_from(&vec!['j', 'p', 'e', 'g']));
    r.push(string_from(&vec!['g', 'i', 'f']));
    r.push(string_from(&vec!['w', 'e', 'b', 'p']));
    r.push(string_from(&vec!['i', 'c', 'o']));
    r.push(string_from(&vec!['p', 'd', 'f']));
    r.push(string_from(&vec!['z', 'i', 'p']));
    r.push(string_from(&vec!['t', 'a', 'r']));
    r.push(string_from(&vec!['g', 'z']));
    r.push(string_from(&vec!['e', 'x', 'e']));
    r.push(string_from(&vec!['d', 'l', 'l']));
    r.push(string_from(&vec!['s', 'o']));
    r.push(string_from(&vec!['d', 'y', 'l', 'i', 'b']));
    r.push(string_from(&vec!['w', 'o', 'f', 'f']));
    r.push(string_from(&vec!['w', 'o', 'f', 'f', '2']));
    r.push(string_from(&vec!['t', 't', 'f']));
    r.push(string_from(&vec!['o', 't', 'f']));
    r.push(string_from(&vec!['m', 'p', '4']));
    r.push(string_from(&vec!['m', 'p', '3']));
    r.push(string_from(&vec!['b', 'm', 'p']));
    r.push(string_from(&vec!['t', 'i', 'f', 'f']));
    proof {
        assert(r@[0]@ =~= seq!['p', 'n', 'g']);
        assert(r@[1]@ =~= seq!['j', 'p', 'g']);
        assert(r@[2]@ =~= seq!['j', 'p', 'e', 'g']);
        assert(r@[3]@ =~= seq!['g', 'i', 'f']);
        assert(r@[4]@ =~= seq!['w', 'e', 'b', 'p']);
        assert(r@[5]@ =~= seq!['i', 'c', 'o']);
        assert(r@[6]@ =~= seq!['p', 'd', 'f']);
        assert(r@[7]@ =~= seq!['z', 'i', 'p']);
        assert(r@[8]@ =~= seq!['t', 'a', 'r']);
        assert(r@[9]@ =~= seq!['g', 'z']);
        assert(r@[10]@ =~= seq!['e', 'x', 'e']);
        assert(r@[11]@ =~= seq!['d', 'l', 'l']);
        assert(r@[12]@ =~= seq!['s', 'o']);
        assert(r@[13]@ =~= seq!['d', 'y', 'l', 'i', 'b']);
        assert(r@[14]@ =~= seq!['w', 'o', 'f', 'f']);
        assert(r@[15]@ =~= seq!['w', 'o', 'f', 'f', '2']);
        assert(r@[16]@ =~= seq!['t', 't', 'f']);
        assert(r@[17]@ =~= seq!['o', 't', 'f']);
        assert(r@[18]@ =~= seq!['m', 'p', '4']);
        assert(r@[19]@ =~= seq!['m', 'p', '3']);
        assert(r@[20]@ =~= seq!['b', 'm', 'p']);
        assert(r@[21]@ =~= seq!['t', 'i', 'f', 'f']);
        assert(strings_view(r@) =~= binary_extension_list());
    }
    r
}

impl Default for ScanConfig {
    fn default() -> (r: Self)
        ensures
            strings_view(r.extensions@) == default_extension_list(),
            strings_view(r.exclude@) == default_exclude_list(),
            r.include_paths@.len() == 0,
    {
        ScanConfig { extensions: default_extensions(), exclude: default_excludes(), include_paths: Vec::new() }
    }
}

impl Default for Config {
    fn default() -> (r: Self)
        ensures
            strings_view(r.scan.extensions@) == default_extension_list(),
            strings_view(r.scan.exclude@) == default_exclude_list(),
            r.scan.include_paths@.len() == 0,
            r.typescript.tsconfig is None,
            r.output.color is None,
    {
        Config {
            scan: ScanConfig::default(),
            typescript: TypeScriptConfig { tsconfig: None },
            output: OutputConfig { color: None },
        }
    }
}

/// The configuration used when the repository has no `.refactor.toml`.
pub fn default_config() -> (r: Config)
    ensures
        strings_view(r.scan.extensions@) == default_extension_list(),
        strings_view(r.scan.exclude@) == default_exclude_list(),
        r.scan.include_paths@.len() == 0,
        r.typescript.tsconfig is None,
        r.output.color is None,
{
    Config::default()
}

/// The configuration of a repository: its `.refactor.toml`, as read, where
/// it has one; else the defaults.
pub fn load(file: Option<Config>) -> (r: Config)
    ensures
        file matches Some(c) ==> r == c,
        file is None ==> strings_view(r.scan.extensions@) == default_extension_list() && strings_view(r.scan.exclude@)
            == default_exclude_list() && r.scan.include_paths@.len() == 0 && r.typescript.tsconfig is None
            && r.output.color is None,
{
    match file {
        Some(c) => c,
        None => default_config(),
    }
}

/// Overrides of the scanned files: `extensions` replaces the scanned
/// extensions, `exclude` adds to the skipped directories and `only`
/// replaces the paths that files must lie under.
pub fn override_scan(
    config: &mut Config,
    extensions: &Option<Vec<String>>,
    exclude: &Option<Vec<String>>,
    only: &Option<Vec<String>>,
)
    ensures
        strings_view(final(config).scan.extensions@) == match extensions {
            Some(e) => strings_view(e@),
            None => strings_view(old(config).scan.extensions@),
        },
        strings_view(final(config).scan.exclude@) == match exclude {
            Some(x) => strings_view(old(config).scan.exclude@) + strings_view(x@),
            None => strings_view(old(config).scan.exclude@),
        },
        strings_view(final(config).scan.include_paths@) == match only {
            Some(i) => strings_view(i@),
            None => strings_view(old(config).scan.include_paths@),
        },
        final(config).output == old(config).output,
        final(config).typescript == old(config).typescript,
{
    if let Some(exts) = extensions {
        let e = exts.clone();
        proof {
            assert(e@ =~= exts@);
        }
        config.scan.extensions = e;
    }
    if let Some(excludes) = exclude {
        let ghost before = strings_view(config.scan.exclude@);
        let ghost exts = config.scan.extensions;
        let ghost incs = config.scan.include_paths;
        let ghost out = config.output;
        let ghost ts = config.typescript;
        let mut i: usize = 0;
        while i < excludes.len()
            invariant
                0 <= i <= excludes.len(),
                config.scan.extensions == exts,
                config.scan.include_paths == incs,
                config.output == out,
                config.typescript == ts,
                strings_view(config.scan.exclude@) == before + strings_view(excludes@.take(i as int)),
            decreases excludes.len() - i,
        {
            let ghost prev = config.scan.exclude@;
            let x = excludes[i].clone();
            config.scan.exclude.push(x);
            proof {
                assert(config.scan.exclude@ == prev.push(x));
                assert(excludes@.take(i + 1) =~= excludes@.take(i as int).push(excludes@[i as int]));
                assert(strings_view(prev.push(x)) =~= strings_view(prev).push(x@));
                assert(strings_view(excludes@.take(i + 1)) =~= strings_view(excludes@.take(i as int)).push(excludes@[i as int]@));
                assert(strings_view(config.scan.exclude@) =~= before + strings_view(excludes@.take(i + 1)));
            }
            i += 1;
        }
        proof {
            assert(excludes@.take(excludes@.len() as int) =~= excludes@);
        }
    }
    if let Some(paths) = only {
        let i = paths.clone();
        proof {
            assert(i@ =~= paths@);
        }
        config.scan.include_paths = i;
    }
}

/// Command-line flags override the configuration: `--extensions` replaces
/// the scanned extensions, `--exclude` adds to the skipped directories,
/// `--include` names the only paths processed, and `--no-color` turns color
/// off.
pub fn apply_cli_args(config: &mut Config, args: &GlobalArgs)
    ensures
        strings_view(final(config).scan.extensions@) == match args.extensions {
            Some(e) => strings_view(e@),
            None => strings_view(old(config).scan.extensions@),
        },
        strings_view(final(config).scan.exclude@) == match args.exclude {
            Some(x) => strings_view(old(config).scan.exclude@) + strings_view(x@),
            None => strings_view(old(config).scan.exclude@),
        },
        strings_view(final(config).scan.include_paths@) == match args.include_paths {
            Some(i) => strings_view(i@),
            None => strings_view(old(config).scan.include_paths@),
        },
        final(config).output.color == if args.no_color {
            Some(false)
        } else {
            old(config).output.color
        },
        final(config).typescript == old(config).typescript,
{
    override_scan(config, &args.extensions, &args.exclude, &args.include_paths);
    if args.no_color {
        config.output.color = Some(false);
    }
}

} // verus!
