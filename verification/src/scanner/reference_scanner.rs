//! The graph of path references between the files of a repository.
use vstd::prelude::*;
use crate::config::strings_view;
use crate::languages::opt_seq;
use crate::scanner::{relatives, LoadedFile};
use crate::analyzers::references::{resolve_relative, spec_resolve_relative};
use crate::refactor::rename::{spec_strip_source_ext, strip_source_ext};
use crate::text::{
    chars_of, contains_char, ends_with, find_in, lemma_find_from_bounds, lines, seq_eq, slice_vec, spec_ends_with,
    spec_find, spec_lines, string_from,
};

verus! {

/// The files of a repository and the references between them: each
/// reference is a pair (referring file, referenced text), in the order in
/// which they were added.
pub struct ReferenceGraph {
    pub files: Vec<String>,
    pub references: Vec<(String, String)>,
}

/// The views of reference pairs.
pub open spec fn edge_views(v: Seq<(String, String)>) -> Seq<(Seq<char>, Seq<char>)> {
    v.map_values(|e: (String, String)| (e.0@, e.1@))
}

/// What the reference `reference` of the file `from` names: a relative
/// reference (one starting with `.`) resolved against `from`, any other as
/// written.
pub open spec fn spec_named(from: Seq<char>, reference: Seq<char>) -> Seq<char> {
    if reference.len() > 0 && reference[0] == '.' {
        spec_resolve_relative(from, reference)
    } else {
        reference
    }
}

/// The reference `reference` of the file `from` mentions the path
/// `target`: it is written as `target`, or what it names is `target`
/// without its module extension, or ends with `/` and that.
pub open spec fn spec_mentions(from: Seq<char>, reference: Seq<char>, target: Seq<char>) -> bool {
    let t = spec_strip_source_ext(target);
    let n = spec_named(from, reference);
    reference == target || n == t || spec_ends_with(n, seq!['/'] + t)
}

/// The reference `reference` of the file `from` points at the file `file`
/// (a path relative to the root): it is written as `file`, or what it names
/// is `file`, `file` without its module extension, or the directory whose
/// `index` module `file` is.
pub open spec fn spec_points_at(from: Seq<char>, reference: Seq<char>, file: Seq<char>) -> bool {
    let n = spec_named(from, reference);
    let base = spec_strip_source_ext(file);
    reference == file || n == file || n == base || n + "/index"@ == base
}

/// The referring files of every reference that mentions `target`, in order.
pub open spec fn sources_of(edges: Seq<(Seq<char>, Seq<char>)>, target: Seq<char>) -> Seq<Seq<char>>
    decreases edges.len(),
{
    if edges.len() == 0 {
        Seq::empty()
    } else {
        let r = sources_of(edges.drop_last(), target);
        if spec_mentions(edges.last().0, edges.last().1, target) {
            r.push(edges.last().0)
        } else {
            r
        }
    }
}

/// Some reference points at the file `target`.
pub open spec fn is_target(edges: Seq<(Seq<char>, Seq<char>)>, target: Seq<char>) -> bool {
    exists|i: int| 0 <= i < edges.len() && spec_points_at((#[trigger] edges[i]).0, edges[i].1, target)
}

/// What a reference of `from` names.
pub fn named(from: &str, reference: &str) -> (r: String)
    ensures
        r@ == spec_named(from@, reference@),
{
    let rc = chars_of(reference);
    if rc.len() > 0 && rc[0] == '.' {
        resolve_relative(from, reference)
    } else {
        string_from(&rc)
    }
}

/// Whether the reference `reference` of `from` mentions `target`.
pub fn mentions(from: &str, reference: &str, target: &str) -> (r: bool)
    ensures
        r == spec_mentions(from@, reference@, target@),
{
    if seq_eq(&chars_of(reference), &chars_of(target)) {
        return true;
    }
    let t = chars_of(strip_source_ext(target).as_str());
    let n = chars_of(named(from, reference).as_str());
    if seq_eq(&n, &t) {
        return true;
    }
    let mut tail = vec!['/'];
    let mut rest = t.clone();
    tail.append(&mut rest);
    proof {
        assert(tail@ =~= seq!['/'] + t@);
    }
    ends_with(&n, &tail)
}

/// Whether the reference `reference` of `from` points at the file `file`.
pub fn points_at(from: &str, reference: &str, file: &str) -> (r: bool)
    ensures
        r == spec_points_at(from@, reference@, file@),
{
    let f = chars_of(file);
    if seq_eq(&chars_of(reference), &f) {
        return true;
    }
    let n = chars_of(named(from, reference).as_str());
    let base = chars_of(strip_source_ext(file).as_str());
    if seq_eq(&n, &f) || seq_eq(&n, &base) {
        return true;
    }
    let mut with_index = n.clone();
    let mut idx = chars_of("/index");
    with_index.append(&mut idx);
    proof {
        assert(with_index@ =~= n@ + "/index"@);
    }
    seq_eq(&with_index, &base)
}

impl ReferenceGraph {
    /// An empty graph.
    pub fn new() -> (r: Self)
        ensures
            r.files@.len() == 0,
            r.references@.len() == 0,
    {
        ReferenceGraph { files: Vec::new(), references: Vec::new() }
    }

    /// Records a file of the repository.
    pub fn register_file(&mut self, relative: &str)
        ensures
            strings_view(final(self).files@) == strings_view(old(self).files@).push(relative@),
            final(self).references@ == old(self).references@,
    {
        let ghost before = strings_view(self.files@);
        self.files.push(string_from(&chars_of(relative)));
        proof {
            assert(strings_view(self.files@) =~= before.push(relative@));
        }
    }

    /// Records that `from` refers to `to`.
    pub fn add_reference(&mut self, from: &str, to: &str)
        ensures
            edge_views(final(self).references@) == edge_views(old(self).references@).push((from@, to@)),
            final(self).files@ == old(self).files@,
    {
        let ghost before = edge_views(self.references@);
        let f = string_from(&chars_of(from));
        let t = string_from(&chars_of(to));
        self.references.push((f, t));
        proof {
            assert(edge_views(self.references@) =~= before.push((from@, to@)));
        }
    }

    /// The files with a reference that mentions `target`, once per such
    /// reference, in order.
    pub fn find_references_to(&self, target: &str) -> (r: Vec<String>)
        ensures
            strings_view(r@) == sources_of(edge_views(self.references@), target@),
    {
        let ghost ev = edge_views(self.references@);
        let t = chars_of(target);
        let mut r: Vec<String> = Vec::new();
        let mut i: usize = 0;
        proof {
            assert(ev.take(0) =~= Seq::<(Seq<char>, Seq<char>)>::empty());
            assert(strings_view(r@) =~= Seq::<Seq<char>>::empty());
        }
        while i < self.references.len()
            invariant
                i <= self.references.len(),
                ev == edge_views(self.references@),
                t@ == target@,
                strings_view(r@) == sources_of(ev.take(i as int), target@),
            decreases self.references.len() - i,
        {
            let ghost before = strings_view(r@);
            proof {
                assert(ev.take(i + 1).drop_last() =~= ev.take(i as int));
                assert(ev.take(i + 1).last() == ev[i as int]);
                assert(ev[i as int] == (self.references@[i as int].0@, self.references@[i as int].1@));
            }
            if mentions(self.references[i].0.as_str(), self.references[i].1.as_str(), target) {
                r.push(self.references[i].0.clone());
                proof {
                    assert(strings_view(r@) =~= before.push(ev[i as int].0));
                }
            }
            i += 1;
        }
        proof {
            assert(ev.take(ev.len() as int) =~= ev);
        }
        r
    }

    /// Whether some reference points at the file `path`.
    pub fn is_referenced(&self, path: &str) -> (r: bool)
        ensures
            r == is_target(edge_views(self.references@), path@),
    {
        let ghost ev = edge_views(self.references@);
        let p = chars_of(path);
        let mut i: usize = 0;
        while i < self.references.len()
            invariant
                i <= self.references.len(),
                ev == edge_views(self.references@),
                p@ == path@,
                forall|m: int| 0 <= m < i ==> !spec_points_at((#[trigger] ev[m]).0, ev[m].1, path@),
            decreases self.references.len() - i,
        {
            proof {
                assert(ev[i as int] == (self.references@[i as int].0@, self.references@[i as int].1@));
            }
            if points_at(self.references[i].0.as_str(), self.references[i].1.as_str(), path) {
                proof {
                    assert(spec_points_at(ev[i as int].0, ev[i as int].1, path@));
                }
                return true;
            }
            i += 1;
        }
        false
    }
}

// ---------------------------------------------------------------------------
// Extraction
// ---------------------------------------------------------------------------

/// The openings after which a quoted path is looked for.
pub open spec fn ref_patterns() -> Seq<Seq<char>> {
    seq!["from '"@, "from \""@, "import('"@, "import(\""@, "require('"@, "require(\""@]
}

/// The index of the first quote of `s` at or after `i`, or the length of `s`.
pub open spec fn quote_end(s: Seq<char>, i: int) -> int
    decreases s.len() - i,
{
    if i < 0 || i >= s.len() {
        s.len() as int
    } else if s[i] == '\'' || s[i] == '"' {
        i
    } else {
        quote_end(s, i + 1)
    }
}

proof fn lemma_quote_end(s: Seq<char>, i: int)
    requires
        0 <= i <= s.len(),
    ensures
        i <= quote_end(s, i) <= s.len(),
        forall|k: int| i <= k < quote_end(s, i) ==> s[k] != '\'' && s[k] != '"',
        quote_end(s, i) < s.len() ==> s[quote_end(s, i)] == '\'' || s[quote_end(s, i)] == '"',
    decreases s.len() - i,
{
    if i < s.len() && s[i] != '\'' && s[i] != '"' {
        lemma_quote_end(s, i + 1);
    }
}

/// The path that follows the first occurrence of `pat` in `line`, up to the
/// next quote (or the end of the line), kept when it is not empty and starts
/// with `.` or contains `/`.
pub open spec fn path_after(line: Seq<char>, pat: Seq<char>) -> Option<Seq<char>> {
    match spec_find(line, pat) {
        None => None,
        Some(pos) => {
            let rest = line.skip(pos + pat.len());
            let end = quote_end(rest, 0);
            if end > 0 {
                let p = rest.take(end);
                if p[0] == '.' || p.contains('/') {
                    Some(p)
                } else {
                    None
                }
            } else {
                None
            }
        },
    }
}

/// The paths a line yields for the first `k` openings, in order.
pub open spec fn refs_by_patterns(line: Seq<char>, k: int) -> Seq<Seq<char>>
    decreases k,
{
    if k <= 0 {
        Seq::empty()
    } else {
        refs_by_patterns(line, k - 1) + opt_seq(path_after(line, ref_patterns()[k - 1]))
    }
}

/// The paths of the first `k` lines.
pub open spec fn refs_of_lines(ls: Seq<Seq<char>>, k: int) -> Seq<Seq<char>>
    decreases k,
{
    if k <= 0 || k > ls.len() {
        Seq::empty()
    } else {
        refs_of_lines(ls, k - 1) + refs_by_patterns(ls[k - 1], 6)
    }
}

/// All path references of a text: per line, per opening, in order.
pub open spec fn spec_path_refs(text: Seq<char>) -> Seq<Seq<char>> {
    refs_of_lines(spec_lines(text), spec_lines(text).len() as int)
}

fn ref_pattern_list() -> (r: Vec<Vec<char>>)
    ensures
        r@.map_values(|v: Vec<char>| v@) == ref_patterns(),
{
    let mut r: Vec<Vec<char>> = Vec::new();
    r.push(chars_of("from '"));
    r.push(chars_of("from \""));
    r.push(chars_of("import('"));
    r.push(chars_of("import(\""));
    r.push(chars_of("require('"));
    r.push(chars_of("require(\""));
    proof {
        assert(r@.map_values(|v: Vec<char>| v@) =~= ref_patterns());
    }
    r
}

/// The path after the first occurrence of `pat` in `line`.
fn path_after_of(line: &Vec<char>, pat: &Vec<char>) -> (r: Option<String>)
    ensures
        r matches Some(p) ==> path_after(line@, pat@) == Some(p@),
        r is None ==> path_after(line@, pat@) is None,
{
    match find_in(line, pat, 0) {
        None => None,
        Some(pos) => {
            proof {
                lemma_find_from_bounds(line@, pat@, 0);
                assert(crate::text::occurs_at(line@, pat@, pos as int));
                assert(pos + pat@.len() <= line@.len());
                assert(line@.len() == line.len());
            }
            let start = pos + pat.len();
            let rest = slice_vec(line, start, line.len());
            proof {
                assert(rest@ =~= line@.skip(start as int));
                lemma_quote_end(rest@, 0);
            }
            let mut end: usize = 0;
            while end < rest.len() && rest[end] != '\'' && rest[end] != '"'
                invariant
                    end <= rest.len(),
                    quote_end(rest@, end as int) == quote_end(rest@, 0),
                decreases rest.len() - end,
            {
                end += 1;
            }
            if end == 0 {
                return None;
            }
            let p = slice_vec(&rest, 0, end);
            proof {
                assert(p@ =~= rest@.take(end as int));
            }
            if p[0] == '.' || contains_char(&p, '/') {
                Some(string_from(&p))
            } else {
                None
            }
        },
    }
}

/// Paths in `text` that follow `from '`, `from "`, `import('`, `import("`,
/// `require('` or `require("`, line by line and opening by opening, kept when
/// they start with `.` or contain `/`.
pub fn extract_path_references(text: &str) -> (r: Vec<String>)
    ensures
        strings_view(r@) == spec_path_refs(text@),
{
    let s = chars_of(text);
    let ls = lines(&s);
    let ghost sl = spec_lines(text@);
    let pats = ref_pattern_list();
    let mut refs: Vec<String> = Vec::new();
    proof {
        assert(strings_view(refs@) =~= Seq::<Seq<char>>::empty());
        assert(ref_patterns().len() == 6);
    }
    let mut k: usize = 0;
    while k < ls.len()
        invariant
            k <= ls.len(),
            ls@.len() == sl.len(),
            sl == spec_lines(text@),
            pats@.len() == 6,
            pats@.map_values(|v: Vec<char>| v@) == ref_patterns(),
            forall|m: int| 0 <= m < ls@.len() ==> #[trigger] ls@[m]@ == sl[m],
            strings_view(refs@) == refs_of_lines(sl, k as int),
        decreases ls.len() - k,
    {
        let line = &ls[k];
        proof {
            assert(ls@[k as int]@ == sl[k as int]);
        }
        let ghost base = strings_view(refs@);
        let mut j: usize = 0;
        while j < 6
            invariant
                j <= 6,
                k < ls.len(),
                line@ == sl[k as int],
                pats@.len() == 6,
                pats@.map_values(|v: Vec<char>| v@) == ref_patterns(),
                strings_view(refs@) == base + refs_by_patterns(sl[k as int], j as int),
            decreases 6 - j,
        {
            let ghost before = strings_view(refs@);
            proof {
                assert(pats@[j as int]@ == ref_patterns()[j as int]);
            }
            match path_after_of(line, &pats[j]) {
                Some(p) => {
                    let ghost pv = p@;
                    refs.push(p);
                    proof {
                        assert(strings_view(refs@) =~= before.push(pv));
                        assert(strings_view(refs@) =~= base + refs_by_patterns(sl[k as int], j + 1));
                    }
                },
                None => {
                    proof {
                        assert(refs_by_patterns(sl[k as int], j + 1) =~= refs_by_patterns(sl[k as int], j as int));
                    }
                },
            }
            j += 1;
        }
        k += 1;
    }
    refs
}

// ---------------------------------------------------------------------------
// The graph of a repository
// ---------------------------------------------------------------------------

/// The references of one file as graph pairs.
pub open spec fn file_edges(rel: Seq<char>, refs: Seq<Seq<char>>) -> Seq<(Seq<char>, Seq<char>)> {
    refs.map_values(|r: Seq<char>| (rel, r))
}

/// The references of the first `k` files, in order.
pub open spec fn graph_edges(files: Seq<LoadedFile>, k: int) -> Seq<(Seq<char>, Seq<char>)>
    decreases k,
{
    if k <= 0 || k > files.len() {
        Seq::empty()
    } else {
        graph_edges(files, k - 1) + match files[k - 1].text {
            Some(t) => file_edges(files[k - 1].entry.relative@, spec_path_refs(t@)),
            None => Seq::empty(),
        }
    }
}

/// The reference graph of the loaded files: every file is registered, in
/// order, and every path reference of every text becomes a reference from
/// that file.
pub fn build_reference_graph(files: &Vec<LoadedFile>) -> (g: ReferenceGraph)
    ensures
        strings_view(g.files@) == relatives(files@),
        edge_views(g.references@) == graph_edges(files@, files@.len() as int),
{
    let mut graph = ReferenceGraph::new();
    let mut i: usize = 0;
    proof {
        assert(strings_view(graph.files@) =~= relatives(files@).take(0));
    }
    while i < files.len()
        invariant
            i <= files.len(),
            graph.references@.len() == 0,
            strings_view(graph.files@) == relatives(files@).take(i as int),
        decreases files.len() - i,
    {
        graph.register_file(files[i].entry.relative.as_str());
        proof {
            assert(relatives(files@).take(i + 1) =~= relatives(files@).take(i as int).push(files@[i as int].entry.relative@));
        }
        i += 1;
    }
    proof {
        assert(relatives(files@).take(files@.len() as int) =~= relatives(files@));
        assert(edge_views(graph.references@) =~= graph_edges(files@, 0));
    }
    let mut i: usize = 0;
    while i < files.len()
        invariant
            i <= files.len(),
            strings_view(graph.files@) == relatives(files@),
            edge_views(graph.references@) == graph_edges(files@, i as int),
        decreases files.len() - i,
    {
        let f = &files[i];
        let ghost base = edge_views(graph.references@);
        match &f.text {
            Some(t) => {
                let refs = extract_path_references(t.as_str());
                let ghost rv = strings_view(refs@);
                let mut j: usize = 0;
                while j < refs.len()
                    invariant
                        j <= refs.len(),
                        rv == strings_view(refs@),
                        strings_view(graph.files@) == relatives(files@),
                        edge_views(graph.references@) == base + file_edges(f.entry.relative@, rv.take(j as int)),
                    decreases refs.len() - j,
                {
                    let ghost before = edge_views(graph.references@);
                    graph.add_reference(f.entry.relative.as_str(), refs[j].as_str());
                    proof {
                        assert(file_edges(f.entry.relative@, rv.take(j + 1)) =~= file_edges(f.entry.relative@, rv.take(j as int)).push((f.entry.relative@, refs@[j as int]@)));
                    }
                    j += 1;
                }
                proof {
                    assert(rv.take(rv.len() as int) =~= rv);
                }
            },
            None => {
                proof {
                    assert(edge_views(graph.references@) =~= base + Seq::<(Seq<char>, Seq<char>)>::empty());
                }
            },
        }
        i += 1;
    }
    graph
}

} // verus!
