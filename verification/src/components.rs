//! The project's components: which ecosystems a directory holds, with their
//! manifests, lockfiles and declared dependencies.
use vstd::prelude::*;

use crate::manager::contains_string;
use crate::manifests::{list_item, parse_toml_list, spec_toml_list};
use crate::model::{
    dep_view, deps_view, evidence_view, sources_view, strings_view, Component, DepView, DependencySource, Ecosystem,
    EvidenceItem, NativeDependency,
};
use crate::plan::{present, push_present};
use crate::text::{
    before_any, before_any_chars, chars_of, contains, contains_chars, copy_str, ends_with, ends_with_str, lines,
    lines_of, opt_view, split_once, split_once_chars, starts_with, string_of, subvec, trim, trim_chars, trim_set_chars, views,
};

verus! {

/// What the walk read from one directory of the project.
#[derive(Debug)]
pub struct DirFacts {
    /// The directory's path.
    pub path: String,
    /// Whether listing the directory succeeded.
    pub listed: bool,
    /// The names of its entries, in the order the listing gave them.
    pub entries: Vec<String>,
    /// The names, among those the detection asks about, that are regular files.
    pub files: Vec<String>,
    /// What was found at `requirements`.
    pub requirements: RequirementsDir,
    /// The text of each file that was read, by its path relative to the directory.
    pub texts: Vec<(String, String)>,
}

/// What the walk found at `requirements` in a directory: a listing comes only
/// with a directory.
#[derive(Debug)]
pub enum RequirementsDir {
    /// Nothing there, or something that is not a directory.
    Absent,
    /// A directory whose listing failed.
    Unlisted,
    /// A directory, with the names of its entries in listing order.
    Listed(Vec<String>),
}

/// The entry names of `requirements`, none unless it was listed.
pub open spec fn requirement_entries(d: DirFacts) -> Seq<Seq<char>> {
    match d.requirements {
        RequirementsDir::Listed(es) => views(es@),
        _ => seq![],
    }
}

pub open spec fn files_of(d: DirFacts) -> Seq<Seq<char>> {
    views(d.files@)
}

/// The text read for `name`, if it was read.
pub open spec fn text_in(texts: Seq<(String, String)>, name: Seq<char>) -> Option<Seq<char>>
    decreases texts.len(),
{
    if texts.len() == 0 {
        None
    } else if texts[0].0@ == name {
        Some(texts[0].1@)
    } else {
        text_in(texts.drop_first(), name)
    }
}

pub open spec fn text_of(d: DirFacts, name: Seq<char>) -> Option<Seq<char>> {
    text_in(d.texts@, name)
}

/// The text of `name`, or the empty text when it was not read.
pub open spec fn text_or_empty(d: DirFacts, name: Seq<char>) -> Seq<char> {
    match text_of(d, name) {
        Some(t) => t,
        None => seq![],
    }
}

pub fn read_text<'a>(d: &'a DirFacts, name: &str) -> (r: Option<&'a String>)
    ensures
        match r {
            Some(t) => text_of(*d, name@) == Some(t@),
            None => text_of(*d, name@) is None,
        },
{
    let mut i: usize = 0;
    assert(d.texts@.skip(0) =~= d.texts@);
    while i < d.texts.len()
        invariant
            i <= d.texts.len(),
            text_of(*d, name@) == text_in(d.texts@.skip(i as int), name@),
        decreases d.texts.len() - i,
    {
        let ghost rest = d.texts@.skip(i as int);
        assert(rest[0] == d.texts@[i as int]);
        assert(rest.drop_first() =~= d.texts@.skip(i + 1));
        if crate::text::str_eq(d.texts[i].0.as_str(), name) {
            return Some(&d.texts[i].1);
        }
        i += 1;
    }
    None
}

fn read_text_or_empty(d: &DirFacts, name: &str) -> (r: String)
    ensures
        r@ == text_or_empty(*d, name@),
{
    match read_text(d, name) {
        Some(t) => t.clone(),
        None => String::new(),
    }
}

fn has_file(d: &DirFacts, name: &str) -> (r: bool)
    ensures
        r == files_of(*d).contains(name@),
{
    contains_string(d.files.as_slice(), name)
}

/// Characters allowed in a dependency name read from a manifest line.
pub open spec fn name_chars(s: Seq<char>) -> bool {
    forall|i: int| 0 <= i < s.len() ==> crate::text::is_ascii_alnum(#[trigger] s[i]) || s[i] == '-' || s[i] == '_'
}

fn is_name(cs: &[char]) -> (r: bool)
    ensures
        r == name_chars(cs@),
{
    let mut i: usize = 0;
    while i < cs.len()
        invariant
            i <= cs.len(),
            forall|k: int| 0 <= k < i ==> crate::text::is_ascii_alnum(#[trigger] cs@[k]) || cs@[k] == '-' || cs@[k] == '_',
        decreases cs.len() - i,
    {
        let c = cs[i];
        if !(crate::text::is_ascii_alphanumeric(c) || c == '-' || c == '_') {
            return false;
        }
        i += 1;
    }
    true
}

pub open spec fn dep(name: Seq<char>, specifier: Seq<char>, kind: Seq<char>, eco: Ecosystem, native: Seq<char>) -> DepView {
    (name, specifier, kind, eco, native)
}

fn new_dep(name: String, specifier: String, kind: &str, ecosystem: Ecosystem, native_kind: &str) -> (d: NativeDependency)
    ensures
        dep_view(d) == dep(name@, specifier@, kind@, ecosystem, native_kind@),
{
    NativeDependency { name, specifier, kind: copy_str(kind), ecosystem, native_kind: copy_str(native_kind) }
}

fn push_dep(out: &mut Vec<NativeDependency>, d: NativeDependency)
    ensures
        deps_view(final(out)@) == deps_view(old(out)@).push(dep_view(d)),
{
    out.push(d);
    assert(deps_view(out@) =~= deps_view(old(out)@).push(dep_view(d)));
}

fn append_deps(out: &mut Vec<NativeDependency>, extra: &Vec<NativeDependency>)
    ensures
        deps_view(final(out)@) == deps_view(old(out)@) + deps_view(extra@),
{
    let ghost start = deps_view(out@);
    let mut i: usize = 0;
    while i < extra.len()
        invariant
            i <= extra.len(),
            deps_view(out@) == start + deps_view(extra@.take(i as int)),
        decreases extra.len() - i,
    {
        let d = crate::output::copy_dependency(&extra[i]);
        push_dep(out, d);
        assert(deps_view(extra@.take(i + 1)) =~= deps_view(extra@.take(i as int)).push(dep_view(extra@[i as int])));
        i += 1;
    }
    assert(extra@.take(extra.len() as int) =~= extra@);
}

/// Items of the given kind, one for each path.
pub open spec fn tagged(kind: Seq<char>, paths: Seq<Seq<char>>) -> Seq<(Seq<char>, Seq<char>)> {
    paths.map_values(|p: Seq<char>| (kind, p))
}

pub fn push_evidence(out: &mut Vec<EvidenceItem>, kind: &str, paths: &Vec<String>)
    ensures
        evidence_view(final(out)@) == evidence_view(old(out)@) + tagged(kind@, strings_view(*paths)),
{
    let ghost start = evidence_view(out@);
    let mut i: usize = 0;
    while i < paths.len()
        invariant
            i <= paths.len(),
            evidence_view(out@) == start + tagged(kind@, views(paths@.take(i as int))),
        decreases paths.len() - i,
    {
        let ghost pre = evidence_view(out@);
        out.push(EvidenceItem { kind: copy_str(kind), path: paths[i].clone() });
        assert(views(paths@.take(i + 1)) =~= views(paths@.take(i as int)).push(paths@[i as int]@));
        assert(evidence_view(out@) =~= pre.push((kind@, paths@[i as int]@)));
        assert(tagged(kind@, views(paths@.take(i + 1))) =~= tagged(kind@, views(paths@.take(i as int))).push((kind@, paths@[i as int]@)));
        i += 1;
    }
    assert(paths@.take(paths.len() as int) =~= paths@);
}

fn push_sources(out: &mut Vec<DependencySource>, kind: &str, paths: &Vec<String>)
    ensures
        sources_view(final(out)@) == sources_view(old(out)@) + tagged(kind@, strings_view(*paths)),
{
    let ghost start = sources_view(out@);
    let mut i: usize = 0;
    while i < paths.len()
        invariant
            i <= paths.len(),
            sources_view(out@) == start + tagged(kind@, views(paths@.take(i as int))),
        decreases paths.len() - i,
    {
        let ghost pre = sources_view(out@);
        out.push(DependencySource { kind: copy_str(kind), path: paths[i].clone() });
        assert(views(paths@.take(i + 1)) =~= views(paths@.take(i as int)).push(paths@[i as int]@));
        assert(sources_view(out@) =~= pre.push((kind@, paths@[i as int]@)));
        assert(tagged(kind@, views(paths@.take(i + 1))) =~= tagged(kind@, views(paths@.take(i as int))).push((kind@, paths@[i as int]@)));
        i += 1;
    }
    assert(paths@.take(paths.len() as int) =~= paths@);
}

fn names_vec(names: &[&str]) -> (r: Vec<String>)
    ensures
        views(r@) == names@.map_values(|s: &str| s@),
{
    let mut r: Vec<String> = Vec::new();
    let mut i: usize = 0;
    while i < names.len()
        invariant
            i <= names.len(),
            views(r@) == names@.take(i as int).map_values(|s: &str| s@),
        decreases names.len() - i,
    {
        let ghost pre = views(r@);
        r.push(copy_str(names[i]));
        assert(views(r@) =~= pre.push(names@[i as int]@));
        assert(names@.take(i + 1).map_values(|s: &str| s@) =~= names@.take(i as int).map_values(|s: &str| s@).push(names@[i as int]@));
        i += 1;
    }
    assert(names@.take(names.len() as int) =~= names@);
    r
}

// ---------------------------------------------------------------------------
// Python
// ---------------------------------------------------------------------------
pub open spec fn python_manifest_names() -> Seq<Seq<char>> {
    seq!["pyproject.toml"@, "requirements.txt"@, "Pipfile"@]
}

pub open spec fn python_lock_names() -> Seq<Seq<char>> {
    seq!["uv.lock"@, "poetry.lock"@, "pdm.lock"@, "Pipfile.lock"@]
}

/// `requirements/NAME` for each entry `NAME` of `requirements` ending in `.txt`.
pub open spec fn requirement_files(entries: Seq<Seq<char>>) -> Seq<Seq<char>>
    decreases entries.len(),
{
    if entries.len() == 0 {
        seq![]
    } else {
        let rest = requirement_files(entries.drop_last());
        if ends_with(entries.last(), ".txt"@) {
            rest.push("requirements/"@ + entries.last())
        } else {
            rest
        }
    }
}

/// The Python manifests of a directory, in the order they are reported.
pub open spec fn python_found(d: DirFacts) -> Seq<Seq<char>> {
    present(python_manifest_names(), files_of(d)) + requirement_files(requirement_entries(d))
}

pub open spec fn python_tool(files: Seq<Seq<char>>) -> Seq<char> {
    if files.contains("uv.lock"@) {
        "uv"@
    } else if files.contains("poetry.lock"@) {
        "poetry"@
    } else if files.contains("pdm.lock"@) {
        "pdm"@
    } else {
        "pip"@
    }
}

/// The dependency a `name = "specifier"` line of `pyproject.toml` declares.
pub open spec fn pyproject_dep(t: Seq<char>, kind: Seq<char>) -> Option<DepView> {
    match split_once(t, '=') {
        Some((n, sp)) => {
            let name = list_item(n);
            if name_chars(name) && name.len() > 0 && (sp.contains('"') || sp.contains('\'')) {
                Some(
                    dep(
                        name,
                        list_item(sp),
                        kind,
                        Ecosystem::Python,
                        if contains(t, "optional"@) {
                            "optional-dependency"@
                        } else {
                            "dependency-group"@
                        },
                    ),
                )
            } else {
                None
            }
        },
        None => None,
    }
}

pub open spec fn requirement_separators() -> Seq<char> {
    seq!['=', '<', '>', '!', ';']
}

/// The dependency one line of a requirements file declares.
pub open spec fn requirement_dep(line: Seq<char>) -> Option<DepView> {
    let t = trim(line);
    let name = trim(before_any(t, requirement_separators()));
    if t.len() > 0 && t[0] != '#' && name.len() > 0 {
        Some(dep(name, trim(t.skip(name.len() as int)), "dependency"@, Ecosystem::Python, "requirements"@))
    } else {
        None
    }
}

pub open spec fn requirement_deps(ls: Seq<Seq<char>>) -> Seq<DepView>
    decreases ls.len(),
{
    if ls.len() == 0 {
        seq![]
    } else {
        requirement_deps(ls.drop_last()) + match requirement_dep(ls.last()) {
            Some(x) => seq![x],
            None => seq![],
        }
    }
}

/// The dependencies of every `.txt` manifest among `found`, in order.
pub open spec fn requirements_deps(d: DirFacts, found: Seq<Seq<char>>) -> Seq<DepView>
    decreases found.len(),
{
    if found.len() == 0 {
        seq![]
    } else {
        requirements_deps(d, found.drop_last()) + if ends_with(found.last(), ".txt"@) {
            requirement_deps(lines(text_or_empty(d, found.last())))
        } else {
            seq![]
        }
    }
}

/// Whether a trimmed `pyproject.toml` line opens a development section.
pub open spec fn opens_dev_section(t: Seq<char>) -> bool {
    t.len() > 0 && t[0] == '[' && contains(t, "dev"@)
}

/// What the lines of `pyproject.toml` contribute: for each line, its own
/// dependency, then every requirements dependency again; a development
/// section heading changes the kind of the lines after it.
pub open spec fn pyproject_deps(ls: Seq<Seq<char>>, kind: Seq<char>, req: Seq<DepView>) -> Seq<DepView>
    decreases ls.len(),
{
    if ls.len() == 0 {
        seq![]
    } else {
        let t = trim(ls[0]);
        (match pyproject_dep(t, kind) {
            Some(x) => seq![x],
            None => seq![],
        }) + req + pyproject_deps(
            ls.drop_first(),
            if opens_dev_section(t) {
                "development"@
            } else {
                kind
            },
            req,
        )
    }
}

pub open spec fn python_deps(d: DirFacts) -> Seq<DepView> {
    match text_of(d, "pyproject.toml"@) {
        Some(text) => pyproject_deps(lines(text), "dependency"@, requirements_deps(d, python_found(d))),
        None => seq![],
    }
}

pub open spec fn python_component(d: DirFacts, rel: Seq<char>) -> Option<crate::model::ComponentView> {
    let found = python_found(d);
    let locks = present(python_lock_names(), files_of(d));
    if found.len() == 0 && locks.len() == 0 && d.requirements is Absent {
        None
    } else {
        Some(
            crate::model::ComponentView {
                path: rel,
                ecosystem: Ecosystem::Python,
                tool: Some(python_tool(files_of(d))),
                manifests: found,
                lockfiles: locks,
                evidence: tagged("manifest"@, found) + tagged("lockfile"@, locks),
                workspace_packages: seq![],
                dependency_sources: found.map_values(
                    |p: Seq<char>|
                        (
                            if p == "pyproject.toml"@ {
                                "manifest"@
                            } else {
                                "requirements"@
                            },
                            p,
                        ),
                ) + tagged("lockfile"@, locks),
            },
        )
    }
}

fn python_found_of(d: &DirFacts) -> (r: Vec<String>)
    ensures
        views(r@) == python_found(*d),
{
    let names = ["pyproject.toml", "requirements.txt", "Pipfile"];
    assert(names@.map_values(|s: &str| s@) =~= python_manifest_names());
    let mut r: Vec<String> = Vec::new();
    push_present(&mut r, names.as_slice(), d.files.as_slice());
    assert(views(r@) =~= present(python_manifest_names(), files_of(*d)));
    match &d.requirements {
        RequirementsDir::Listed(es) => {
            let ghost start = views(r@);
            let mut i: usize = 0;
            while i < es.len()
                invariant
                    i <= es.len(),
                    views(r@) == start + requirement_files(views(es@.take(i as int))),
                decreases es.len() - i,
            {
                assert(views(es@.take(i + 1)).drop_last() =~= views(es@.take(i as int)));
                let ghost pre = views(r@);
                if ends_with_str(es[i].as_str(), ".txt") {
                    let mut p = String::from_str("requirements/");
                    p.append(es[i].as_str());
                    proof {
                        reveal_strlit("requirements/");
                    }
                    assert(p@ == "requirements/"@ + es@[i as int]@);
                    r.push(p);
                    assert(views(r@) =~= pre.push("requirements/"@ + es@[i as int]@));
                }
                i += 1;
            }
            assert(es@.take(es.len() as int) =~= es@);
        },
        _ => {
            assert(views(r@) =~= views(r@) + Seq::<Seq<char>>::empty());
        },
    }
    r
}

fn pyproject_dep_of(t: &[char], kind: &str) -> (r: Option<NativeDependency>)
    ensures
        match r {
            Some(x) => pyproject_dep(t@, kind@) == Some(dep_view(x)),
            None => pyproject_dep(t@, kind@) is None,
        },
{
    match split_once_chars(t, '=') {
        Some((n, sp)) => {
            let dq: [char; 1] = ['"'];
            let sq: [char; 1] = ['\''];
            assert(dq@ =~= seq!['"']);
            assert(sq@ =~= seq!['\'']);
            let a = trim_chars(n.as_slice());
            let b = trim_set_chars(a.as_slice(), dq.as_slice());
            let name = trim_set_chars(b.as_slice(), sq.as_slice());
            if is_name(name.as_slice()) && name.len() > 0 && (crate::text::has_char(sp.as_slice(), '"')
                || crate::text::has_char(sp.as_slice(), '\'')) {
                let c = trim_chars(sp.as_slice());
                let d = trim_set_chars(c.as_slice(), dq.as_slice());
                let spec = trim_set_chars(d.as_slice(), sq.as_slice());
                let optional = chars_of("optional");
                let native = if contains_chars(t, optional.as_slice()) {
                    "optional-dependency"
                } else {
                    "dependency-group"
                };
                Some(new_dep(string_of(name.as_slice()), string_of(spec.as_slice()), kind, Ecosystem::Python, native))
            } else {
                None
            }
        },
        None => None,
    }
}

fn requirement_dep_of(line: &[char]) -> (r: Option<NativeDependency>)
    ensures
        match r {
            Some(x) => requirement_dep(line@) == Some(dep_view(x)),
            None => requirement_dep(line@) is None,
        },
{
    let t = trim_chars(line);
    let seps: [char; 5] = ['=', '<', '>', '!', ';'];
    assert(seps@ =~= requirement_separators());
    let head = before_any_chars(t.as_slice(), seps.as_slice());
    let name = trim_chars(head.as_slice());
    if t.len() > 0 && t[0] != '#' && name.len() > 0 {
        proof {
            crate::text::lemma_before_any_len(t@, seps@);
            crate::text::lemma_trim_len(head@);
        }
        let rest = subvec(t.as_slice(), name.len(), t.len());
        assert(rest@ =~= t@.skip(name.len() as int));
        let spec = trim_chars(rest.as_slice());
        Some(new_dep(string_of(name.as_slice()), string_of(spec.as_slice()), "dependency", Ecosystem::Python, "requirements"))
    } else {
        None
    }
}

fn requirement_deps_of(text: &str) -> (r: Vec<NativeDependency>)
    ensures
        deps_view(r@) == requirement_deps(lines(text@)),
{
    let ls = lines_of(text);
    let ghost lv = ls@.map_values(|l: Vec<char>| l@);
    let mut r: Vec<NativeDependency> = Vec::new();
    let mut i: usize = 0;
    while i < ls.len()
        invariant
            i <= ls.len(),
            lv == ls@.map_values(|l: Vec<char>| l@),
            lv == lines(text@),
            deps_view(r@) == requirement_deps(lv.take(i as int)),
        decreases ls.len() - i,
    {
        assert(lv.take(i + 1).drop_last() =~= lv.take(i as int));
        assert(lv.take(i + 1).last() == ls@[i as int]@);
        match requirement_dep_of(ls[i].as_slice()) {
            Some(x) => push_dep(&mut r, x),
            None => {},
        }
        assert(deps_view(r@) =~= requirement_deps(lv.take(i + 1)));
        i += 1;
    }
    assert(lv.take(ls.len() as int) =~= lv);
    r
}

fn requirements_deps_of(d: &DirFacts, found: &Vec<String>) -> (r: Vec<NativeDependency>)
    ensures
        deps_view(r@) == requirements_deps(*d, views(found@)),
{
    let mut r: Vec<NativeDependency> = Vec::new();
    let mut i: usize = 0;
    while i < found.len()
        invariant
            i <= found.len(),
            deps_view(r@) == requirements_deps(*d, views(found@.take(i as int))),
        decreases found.len() - i,
    {
        assert(views(found@.take(i + 1)).drop_last() =~= views(found@.take(i as int)));
        if ends_with_str(found[i].as_str(), ".txt") {
            let text = read_text_or_empty(d, found[i].as_str());
            let more = requirement_deps_of(text.as_str());
            append_deps(&mut r, &more);
        } else {
            assert(deps_view(r@) =~= deps_view(r@) + Seq::<DepView>::empty());
        }
        i += 1;
    }
    assert(found@.take(found.len() as int) =~= found@);
    r
}

fn python_deps_of(d: &DirFacts, found: &Vec<String>) -> (r: Vec<NativeDependency>)
    requires
        views(found@) == python_found(*d),
    ensures
        deps_view(r@) == python_deps(*d),
{
    let mut r: Vec<NativeDependency> = Vec::new();
    match read_text(d, "pyproject.toml") {
        Some(text) => {
            let req = requirements_deps_of(d, found);
            let ghost rq = deps_view(req@);
            let ls = lines_of(text.as_str());
            let ghost lv = ls@.map_values(|l: Vec<char>| l@);
            let mut kind: &str = "dependency";
            let mut i: usize = 0;
            assert(lv.skip(0) =~= lv);
            assert(deps_view(r@) =~= seq![]);
            while i < ls.len()
                invariant
                    i <= ls.len(),
                    lv == ls@.map_values(|l: Vec<char>| l@),
                    lv == lines(text@),
                    rq == deps_view(req@),
                    python_deps(*d) == deps_view(r@) + pyproject_deps(lv.skip(i as int), kind@, rq),
                decreases ls.len() - i,
            {
                let ghost rest = lv.skip(i as int);
                assert(rest[0] == ls@[i as int]@);
                assert(rest.drop_first() =~= lv.skip(i + 1));
                let ghost pre = deps_view(r@);
                let ghost k0 = kind@;
                let t = trim_chars(ls[i].as_slice());
                let own = pyproject_dep_of(t.as_slice(), kind);
                match own {
                    Some(x) => push_dep(&mut r, x),
                    None => {},
                }
                assert(deps_view(r@) == pre + match pyproject_dep(t@, k0) {
                    Some(x) => seq![x],
                    None => seq![],
                });
                append_deps(&mut r, &req);
                let dev = chars_of("dev");
                if t.len() > 0 && t[0] == '[' && contains_chars(t.as_slice(), dev.as_slice()) {
                    kind = "development";
                }
                assert(kind@ == if opens_dev_section(t@) {
                    "development"@
                } else {
                    k0
                });
                assert(deps_view(r@) =~= pre + (match pyproject_dep(t@, k0) {
                    Some(x) => seq![x],
                    None => seq![],
                }) + rq);
                i += 1;
            }
            assert(lv.skip(ls.len() as int) =~= Seq::<Seq<char>>::empty());
            assert(deps_view(r@) =~= deps_view(r@) + Seq::<DepView>::empty());
        },
        None => {
            assert(deps_view(r@) =~= seq![]);
        },
    }
    r
}

pub open spec fn opt_cview(o: Option<Component>) -> Option<crate::model::ComponentView> {
    match o {
        Some(c) => Some(c@),
        None => None,
    }
}

fn copy_strings(v: &Vec<String>) -> (r: Vec<String>)
    ensures
        views(r@) == views(v@),
{
    let mut r: Vec<String> = Vec::new();
    crate::operations::extend_strings(&mut r, v.as_slice());
    assert(views(r@) =~= views(v@));
    r
}

/// The Python component of a directory and the dependencies it declares.
pub fn detect_python_component(d: &DirFacts, rel: &str) -> (r: (Option<Component>, Vec<NativeDependency>))
    ensures
        opt_cview(r.0) == python_component(*d, rel@),
        deps_view(r.1@) == if python_component(*d, rel@) is Some {
            python_deps(*d)
        } else {
            seq![]
        },
{
    let found = python_found_of(d);
    let lock_names = ["uv.lock", "poetry.lock", "pdm.lock", "Pipfile.lock"];
    assert(lock_names@.map_values(|s: &str| s@) =~= python_lock_names());
    let mut locks: Vec<String> = Vec::new();
    push_present(&mut locks, lock_names.as_slice(), d.files.as_slice());
    assert(views(locks@) =~= present(python_lock_names(), files_of(*d)));
    let no_dir = match &d.requirements {
        RequirementsDir::Absent => true,
        _ => false,
    };
    if found.len() == 0 && locks.len() == 0 && no_dir {
        let none: Vec<NativeDependency> = Vec::new();
        assert(deps_view(none@) =~= seq![]);
        return (None, none);
    }
    let tool = if has_file(d, "uv.lock") {
        "uv"
    } else if has_file(d, "poetry.lock") {
        "poetry"
    } else if has_file(d, "pdm.lock") {
        "pdm"
    } else {
        "pip"
    };
    let deps = python_deps_of(d, &found);
    let mut evidence: Vec<EvidenceItem> = Vec::new();
    push_evidence(&mut evidence, "manifest", &found);
    push_evidence(&mut evidence, "lockfile", &locks);
    let mut sources: Vec<DependencySource> = Vec::new();
    let ghost fv = views(found@);
    let mut i: usize = 0;
    while i < found.len()
        invariant
            i <= found.len(),
            fv == views(found@),
            sources_view(sources@) == fv.take(i as int).map_values(
                |p: Seq<char>|
                    (
                        if p == "pyproject.toml"@ {
                            "manifest"@
                        } else {
                            "requirements"@
                        },
                        p,
                    ),
            ),
        decreases found.len() - i,
    {
        let ghost pre = sources_view(sources@);
        let kind = if crate::text::str_eq(found[i].as_str(), "pyproject.toml") {
            "manifest"
        } else {
            "requirements"
        };
        sources.push(DependencySource { kind: copy_str(kind), path: found[i].clone() });
        assert(sources_view(sources@) =~= pre.push((kind@, fv[i as int])));
        assert(fv.take(i + 1) =~= fv.take(i as int).push(fv[i as int]));
        i += 1;
    }
    assert(fv.take(found.len() as int) =~= fv);
    push_sources(&mut sources, "lockfile", &locks);
    let c = Component {
        path: copy_str(rel),
        ecosystem: Ecosystem::Python,
        tool: Some(copy_str(tool)),
        manifests: copy_strings(&found),
        lockfiles: locks,
        evidence,
        workspace_packages: Vec::new(),
        dependency_sources: sources,
    };
    assert(views(c.workspace_packages@) =~= seq![]);
    assert(evidence_view(c.evidence@) =~= tagged("manifest"@, fv) + tagged("lockfile"@, views(c.lockfiles@)));
    (Some(c), deps)
}

// ---------------------------------------------------------------------------
// Rust
// ---------------------------------------------------------------------------
/// The dependency table a trimmed `Cargo.toml` heading opens.
pub open spec fn cargo_section(t: Seq<char>) -> Seq<char> {
    if contains(t, "dev-dependencies"@) {
        "development"@
    } else if contains(t, "build-dependencies"@) {
        "build"@
    } else if t == "[dependencies]"@ {
        "dependency"@
    } else {
        "other"@
    }
}

/// The dependency a `name = specifier` line of a dependency table declares.
pub open spec fn cargo_line_dep(t: Seq<char>, section: Seq<char>) -> Option<DepView> {
    match split_once(t, '=') {
        Some((n, sp)) => {
            let name = trim(n);
            if name.len() > 0 && name_chars(name) && !(name[0] == '#') {
                Some(dep(name, trim(sp), section, Ecosystem::Rust, section))
            } else {
                None
            }
        },
        None => None,
    }
}

pub open spec fn cargo_deps(ls: Seq<Seq<char>>, section: Seq<char>) -> Seq<DepView>
    decreases ls.len(),
{
    if ls.len() == 0 {
        seq![]
    } else {
        let t = trim(ls[0]);
        if t.len() > 0 && t[0] == '[' {
            cargo_deps(ls.drop_first(), cargo_section(t))
        } else if section != "other"@ {
            (match cargo_line_dep(t, section) {
                Some(x) => seq![x],
                None => seq![],
            }) + cargo_deps(ls.drop_first(), section)
        } else {
            cargo_deps(ls.drop_first(), section)
        }
    }
}

pub open spec fn rust_locks(d: DirFacts) -> Seq<Seq<char>> {
    present(seq!["Cargo.lock"@], files_of(d))
}

pub open spec fn rust_component(d: DirFacts, rel: Seq<char>) -> Option<crate::model::ComponentView> {
    if !files_of(d).contains("Cargo.toml"@) {
        None
    } else {
        let locks = rust_locks(d);
        Some(
            crate::model::ComponentView {
                path: rel,
                ecosystem: Ecosystem::Rust,
                tool: Some("cargo"@),
                manifests: seq!["Cargo.toml"@],
                lockfiles: locks,
                evidence: seq![("manifest"@, "Cargo.toml"@)] + tagged("lockfile"@, locks),
                workspace_packages: spec_toml_list(text_or_empty(d, "Cargo.toml"@), "[workspace]"@, "members"@),
                dependency_sources: tagged("lockfile"@, locks),
            },
        )
    }
}

pub open spec fn rust_deps(d: DirFacts) -> Seq<DepView> {
    cargo_deps(lines(text_or_empty(d, "Cargo.toml"@)), "other"@)
}

fn cargo_section_of(t: &[char]) -> (r: &'static str)
    ensures
        r@ == cargo_section(t@),
{
    let dev = chars_of("dev-dependencies");
    let build = chars_of("build-dependencies");
    let deps = chars_of("[dependencies]");
    if contains_chars(t, dev.as_slice()) {
        "development"
    } else if contains_chars(t, build.as_slice()) {
        "build"
    } else if crate::text::chars_eq(t, deps.as_slice()) {
        "dependency"
    } else {
        "other"
    }
}

fn rust_deps_of(text: &str) -> (r: Vec<NativeDependency>)
    ensures
        deps_view(r@) == cargo_deps(lines(text@), "other"@),
{
    let ls = lines_of(text);
    let ghost lv = ls@.map_values(|l: Vec<char>| l@);
    let mut section: &str = "other";
    let mut r: Vec<NativeDependency> = Vec::new();
    let mut i: usize = 0;
    assert(lv.skip(0) =~= lv);
    assert(deps_view(r@) =~= seq![]);
    while i < ls.len()
        invariant
            i <= ls.len(),
            lv == ls@.map_values(|l: Vec<char>| l@),
            lv == lines(text@),
            cargo_deps(lines(text@), "other"@) == deps_view(r@) + cargo_deps(lv.skip(i as int), section@),
        decreases ls.len() - i,
    {
        let ghost rest = lv.skip(i as int);
        assert(rest[0] == ls@[i as int]@);
        assert(rest.drop_first() =~= lv.skip(i + 1));
        let ghost pre = deps_view(r@);
        let t = trim_chars(ls[i].as_slice());
        if t.len() > 0 && t[0] == '[' {
            section = cargo_section_of(t.as_slice());
        } else if !crate::text::str_eq(section, "other") {
            match split_once_chars(t.as_slice(), '=') {
                Some((n, sp)) => {
                    let name = trim_chars(n.as_slice());
                    if name.len() > 0 && is_name(name.as_slice()) && !(name[0] == '#') {
                        let spec = trim_chars(sp.as_slice());
                        push_dep(&mut r, new_dep(string_of(name.as_slice()), string_of(spec.as_slice()), section, Ecosystem::Rust, section));
                    }
                },
                None => {},
            }
            assert(deps_view(r@) =~= pre + match cargo_line_dep(t@, section@) {
                Some(x) => seq![x],
                None => seq![],
            });
        }
        i += 1;
    }
    assert(lv.skip(ls.len() as int) =~= Seq::<Seq<char>>::empty());
    assert(deps_view(r@) =~= deps_view(r@) + Seq::<DepView>::empty());
    r
}

/// The Rust component of a directory and the dependencies it declares.
pub fn detect_rust_component(d: &DirFacts, rel: &str) -> (r: (Option<Component>, Vec<NativeDependency>))
    ensures
        opt_cview(r.0) == rust_component(*d, rel@),
        deps_view(r.1@) == if rust_component(*d, rel@) is Some {
            rust_deps(*d)
        } else {
            seq![]
        },
{
    if !has_file(d, "Cargo.toml") {
        let none: Vec<NativeDependency> = Vec::new();
        assert(deps_view(none@) =~= seq![]);
        return (None, none);
    }
    let lock_names = ["Cargo.lock"];
    assert(lock_names@.map_values(|s: &str| s@) =~= seq!["Cargo.lock"@]);
    let mut locks: Vec<String> = Vec::new();
    push_present(&mut locks, lock_names.as_slice(), d.files.as_slice());
    assert(views(locks@) =~= rust_locks(*d));
    let contents = read_text_or_empty(d, "Cargo.toml");
    let deps = rust_deps_of(contents.as_str());
    let mut evidence: Vec<EvidenceItem> = Vec::new();
    evidence.push(EvidenceItem { kind: copy_str("manifest"), path: copy_str("Cargo.toml") });
    assert(evidence_view(evidence@) =~= seq![("manifest"@, "Cargo.toml"@)]);
    push_evidence(&mut evidence, "lockfile", &locks);
    let mut sources: Vec<DependencySource> = Vec::new();
    push_sources(&mut sources, "lockfile", &locks);
    assert(sources_view(sources@) =~= tagged("lockfile"@, views(locks@)));
    let mut manifests: Vec<String> = Vec::new();
    manifests.push(copy_str("Cargo.toml"));
    assert(views(manifests@) =~= seq!["Cargo.toml"@]);
    let members = parse_toml_list(contents.as_str(), "[workspace]", "members");
    let c = Component {
        path: copy_str(rel),
        ecosystem: Ecosystem::Rust,
        tool: Some(copy_str("cargo")),
        manifests,
        lockfiles: locks,
        evidence,
        workspace_packages: members,
        dependency_sources: sources,
    };
    (Some(c), deps)
}

// ---------------------------------------------------------------------------
// Containers
// ---------------------------------------------------------------------------
pub open spec fn is_dockerfile(n: Seq<char>) -> bool {
    n == "Dockerfile"@ || starts_with(n, "Dockerfile."@)
}

/// The Dockerfiles among a directory's entries, in listing order.
pub open spec fn dockerfiles_in(es: Seq<Seq<char>>) -> Seq<Seq<char>>
    decreases es.len(),
{
    if es.len() == 0 {
        seq![]
    } else {
        let rest = dockerfiles_in(es.drop_last());
        if is_dockerfile(es.last()) {
            rest.push(es.last())
        } else {
            rest
        }
    }
}

pub open spec fn compose_names() -> Seq<Seq<char>> {
    seq!["compose.yaml"@, "compose.yml"@, "docker-compose.yaml"@, "docker-compose.yml"@]
}

/// The directives a Dockerfile line may set, in increasing order.
pub open spec fn directive_keys() -> Seq<Seq<char>> {
    seq!["ADD"@, "ARG"@, "CMD"@, "COPY"@, "ENTRYPOINT"@, "ENV"@, "EXPOSE"@, "FROM"@, "WORKDIR"@]
}

pub open spec fn ws_pred() -> spec_fn(char) -> bool {
    |c: char| crate::text::is_ws(c)
}

/// A line split at its first whitespace character, which neither part keeps.
pub open spec fn split_word(line: Seq<char>) -> (Seq<char>, Seq<char>) {
    match crate::seqs::first_index(line, ws_pred()) {
        Some(i) => (line.take(i), line.skip(i + 1)),
        None => (line, seq![]),
    }
}

/// The directive and value a Dockerfile line sets: its first word upper-cased,
/// when that is a known directive, and the trimmed rest, when not empty.
pub open spec fn line_directive(line: Seq<char>) -> Option<(Seq<char>, Seq<char>)> {
    let w = split_word(line);
    let d = crate::text::unicode_uppercase(w.0);
    if directive_keys().contains(d) && trim(w.1).len() > 0 {
        Some((d, trim(w.1)))
    } else {
        None
    }
}

pub open spec fn directive_pairs(ls: Seq<Seq<char>>) -> Seq<(Seq<char>, Seq<char>)>
    decreases ls.len(),
{
    if ls.len() == 0 {
        seq![]
    } else {
        directive_pairs(ls.drop_last()) + match line_directive(ls.last()) {
            Some(x) => seq![x],
            None => seq![],
        }
    }
}

pub open spec fn dockerfile_pairs(d: DirFacts, files: Seq<Seq<char>>) -> Seq<(Seq<char>, Seq<char>)>
    decreases files.len(),
{
    if files.len() == 0 {
        seq![]
    } else {
        dockerfile_pairs(d, files.drop_last()) + directive_pairs(lines(text_or_empty(d, files.last())))
    }
}

/// The values set for directive `k`, in order.
pub open spec fn values_for(pairs: Seq<(Seq<char>, Seq<char>)>, k: Seq<char>) -> Seq<Seq<char>>
    decreases pairs.len(),
{
    if pairs.len() == 0 {
        seq![]
    } else {
        let rest = values_for(pairs.drop_last(), k);
        if pairs.last().0 == k {
            rest.push(pairs.last().1)
        } else {
            rest
        }
    }
}

/// Each of `keys` that has values, with its values.
pub open spec fn grouped(keys: Seq<Seq<char>>, pairs: Seq<(Seq<char>, Seq<char>)>) -> Seq<(Seq<char>, Seq<Seq<char>>)>
    decreases keys.len(),
{
    if keys.len() == 0 {
        seq![]
    } else {
        grouped(keys.drop_last(), pairs) + if values_for(pairs, keys.last()).len() > 0 {
            seq![(keys.last(), values_for(pairs, keys.last()))]
        } else {
            seq![]
        }
    }
}

/// A compose line `name:` that names a service.
pub open spec fn service_of(t: Seq<char>) -> Option<Seq<char>> {
    if ends_with(t, ":"@) && !starts_with(t, "-"@) && !starts_with(t, "#"@) && !t.contains(' ')
        && t != "services:"@ && !starts_with(t, "version"@) {
        Some(crate::text::trim_end_set(t, seq![':']))
    } else {
        None
    }
}

pub open spec fn image_of(t: Seq<char>) -> Option<Seq<char>> {
    if starts_with(t, "image:"@) {
        Some(trim(t.skip(6)))
    } else {
        None
    }
}

pub open spec fn line_services(ls: Seq<Seq<char>>) -> Seq<Seq<char>>
    decreases ls.len(),
{
    if ls.len() == 0 {
        seq![]
    } else {
        line_services(ls.drop_last()) + match service_of(trim(ls.last())) {
            Some(x) => seq![x],
            None => seq![],
        }
    }
}

pub open spec fn line_images(ls: Seq<Seq<char>>) -> Seq<Seq<char>>
    decreases ls.len(),
{
    if ls.len() == 0 {
        seq![]
    } else {
        line_images(ls.drop_last()) + match image_of(trim(ls.last())) {
            Some(x) => seq![x],
            None => seq![],
        }
    }
}

pub open spec fn services_in(d: DirFacts, files: Seq<Seq<char>>) -> Seq<Seq<char>>
    decreases files.len(),
{
    if files.len() == 0 {
        seq![]
    } else {
        services_in(d, files.drop_last()) + line_services(lines(text_or_empty(d, files.last())))
    }
}

pub open spec fn images_in(d: DirFacts, files: Seq<Seq<char>>) -> Seq<Seq<char>>
    decreases files.len(),
{
    if files.len() == 0 {
        seq![]
    } else {
        images_in(d, files.drop_last()) + line_images(lines(text_or_empty(d, files.last())))
    }
}

/// The container component of a directory and the container description it gives.
pub open spec fn container_part(d: DirFacts, rel: Seq<char>) -> Option<(crate::model::ComponentView, crate::model::ContainerView)> {
    let dfs = dockerfiles_in(views(d.entries@));
    let cfs = present(compose_names(), files_of(d));
    if !d.listed || (dfs.len() == 0 && cfs.len() == 0) {
        None
    } else {
        Some(
            (
                crate::model::ComponentView {
                    path: rel,
                    ecosystem: Ecosystem::Container,
                    tool: Some("docker"@),
                    manifests: dfs + cfs,
                    lockfiles: seq![],
                    evidence: tagged("dockerfile"@, dfs) + tagged("compose"@, cfs),
                    workspace_packages: seq![],
                    dependency_sources: seq![],
                },
                (dfs, cfs, services_in(d, cfs), images_in(d, cfs), grouped(directive_keys(), dockerfile_pairs(d, dfs))),
            ),
        )
    }
}

fn split_word_of(line: &[char]) -> (r: (Vec<char>, Vec<char>))
    ensures
        (r.0@, r.1@) == split_word(line@),
{
    let mut i: usize = 0;
    while i < line.len() && !crate::text::is_whitespace(line[i])
        invariant
            i <= line.len(),
            forall|k: int| 0 <= k < i ==> !crate::text::is_ws(#[trigger] line@[k]),
        decreases line.len() - i,
    {
        i += 1;
    }
    let ghost p = ws_pred();
    if i < line.len() {
        proof {
            crate::seqs::lemma_first_index_at(line@, p, i as int);
        }
        (subvec(line, 0, i), subvec(line, i + 1, line.len()))
    } else {
        proof {
            crate::seqs::lemma_first_index_none(line@, p);
        }
        let w = subvec(line, 0, line.len());
        assert(w@ =~= line@);
        (w, Vec::new())
    }
}

fn line_directive_of(line: &[char]) -> (r: Option<(String, String)>)
    ensures
        match r {
            Some((k, v)) => line_directive(line@) == Some((k@, v@)),
            None => line_directive(line@) is None,
        },
{
    let (w, rest) = split_word_of(line);
    let word = string_of(w.as_slice());
    let upper = crate::text::to_uppercase(word.as_str());
    let keys = ["ADD", "ARG", "CMD", "COPY", "ENTRYPOINT", "ENV", "EXPOSE", "FROM", "WORKDIR"];
    let kv = names_vec(keys.as_slice());
    assert(views(kv@) =~= directive_keys());
    let value = trim_chars(rest.as_slice());
    if contains_string(kv.as_slice(), upper.as_str()) && value.len() > 0 {
        Some((upper, string_of(value.as_slice())))
    } else {
        None
    }
}

pub open spec fn pairs_view(v: Seq<(String, String)>) -> Seq<(Seq<char>, Seq<char>)> {
    v.map_values(|e: (String, String)| (e.0@, e.1@))
}

fn directive_pairs_of(d: &DirFacts, files: &Vec<String>) -> (r: Vec<(String, String)>)
    ensures
        pairs_view(r@) == dockerfile_pairs(*d, views(files@)),
{
    let mut r: Vec<(String, String)> = Vec::new();
    let mut f: usize = 0;
    while f < files.len()
        invariant
            f <= files.len(),
            pairs_view(r@) == dockerfile_pairs(*d, views(files@.take(f as int))),
        decreases files.len() - f,
    {
        assert(views(files@.take(f + 1)).drop_last() =~= views(files@.take(f as int)));
        let ghost start = pairs_view(r@);
        let text = read_text_or_empty(d, files[f].as_str());
        let ls = lines_of(text.as_str());
        let ghost lv = ls@.map_values(|l: Vec<char>| l@);
        let mut i: usize = 0;
        while i < ls.len()
            invariant
                i <= ls.len(),
                lv == ls@.map_values(|l: Vec<char>| l@),
                pairs_view(r@) == start + directive_pairs(lv.take(i as int)),
            decreases ls.len() - i,
        {
            assert(lv.take(i + 1).drop_last() =~= lv.take(i as int));
            assert(lv.take(i + 1).last() == ls@[i as int]@);
            let ghost pre = pairs_view(r@);
            match line_directive_of(ls[i].as_slice()) {
                Some(x) => {
                    r.push(x);
                    assert(pairs_view(r@) =~= pre.push((r@.last().0@, r@.last().1@)));
                },
                None => {},
            }
            assert(pairs_view(r@) =~= start + directive_pairs(lv.take(i + 1)));
            i += 1;
        }
        assert(lv.take(ls.len() as int) =~= lv);
        f += 1;
    }
    assert(files@.take(files.len() as int) =~= files@);
    r
}

fn values_for_of(pairs: &Vec<(String, String)>, k: &str) -> (r: Vec<String>)
    ensures
        views(r@) == values_for(pairs_view(pairs@), k@),
{
    let ghost pv = pairs_view(pairs@);
    let mut r: Vec<String> = Vec::new();
    let mut i: usize = 0;
    while i < pairs.len()
        invariant
            i <= pairs.len(),
            pv == pairs_view(pairs@),
            views(r@) == values_for(pv.take(i as int), k@),
        decreases pairs.len() - i,
    {
        assert(pv.take(i + 1).drop_last() =~= pv.take(i as int));
        let ghost pre = views(r@);
        if crate::text::str_eq(pairs[i].0.as_str(), k) {
            r.push(pairs[i].1.clone());
            assert(views(r@) =~= pre.push(pv[i as int].1));
        }
        i += 1;
    }
    assert(pv.take(pairs.len() as int) =~= pv);
    r
}

pub open spec fn groups_view(v: Seq<(String, Vec<String>)>) -> Seq<(Seq<char>, Seq<Seq<char>>)> {
    v.map_values(|e: (String, Vec<String>)| (e.0@, views(e.1@)))
}

fn grouped_of(pairs: &Vec<(String, String)>) -> (r: Vec<(String, Vec<String>)>)
    ensures
        groups_view(r@) == grouped(directive_keys(), pairs_view(pairs@)),
{
    let keys = ["ADD", "ARG", "CMD", "COPY", "ENTRYPOINT", "ENV", "EXPOSE", "FROM", "WORKDIR"];
    let ghost kv = keys@.map_values(|s: &str| s@);
    assert(kv =~= directive_keys());
    let mut r: Vec<(String, Vec<String>)> = Vec::new();
    let mut i: usize = 0;
    while i < keys.len()
        invariant
            i <= keys.len(),
            kv == keys@.map_values(|s: &str| s@),
            groups_view(r@) == grouped(kv.take(i as int), pairs_view(pairs@)),
        decreases keys.len() - i,
    {
        assert(kv.take(i + 1).drop_last() =~= kv.take(i as int));
        assert(kv.take(i + 1).last() == keys@[i as int]@);
        let ghost pre = groups_view(r@);
        let vals = values_for_of(pairs, keys[i]);
        if vals.len() > 0 {
            r.push((copy_str(keys[i]), vals));
            assert(groups_view(r@) =~= pre.push((keys@[i as int]@, views(r@.last().1@))));
        }
        assert(groups_view(r@) =~= grouped(kv.take(i + 1), pairs_view(pairs@)));
        i += 1;
    }
    assert(kv.take(keys.len() as int) =~= kv);
    r
}

fn compose_lines_of(d: &DirFacts, files: &Vec<String>) -> (r: (Vec<String>, Vec<String>))
    ensures
        views(r.0@) == services_in(*d, views(files@)),
        views(r.1@) == images_in(*d, views(files@)),
{
    let mut services: Vec<String> = Vec::new();
    let mut images: Vec<String> = Vec::new();
    let colon = chars_of(":");
    let dash = chars_of("-");
    let hash = chars_of("#");
    let version = chars_of("version");
    let image = chars_of("image:");
    let services_word = chars_of("services:");
    let mut f: usize = 0;
    while f < files.len()
        invariant
            f <= files.len(),
            colon@ == ":"@,
            dash@ == "-"@,
            hash@ == "#"@,
            version@ == "version"@,
            image@ == "image:"@,
            services_word@ == "services:"@,
            views(services@) == services_in(*d, views(files@.take(f as int))),
            views(images@) == images_in(*d, views(files@.take(f as int))),
        decreases files.len() - f,
    {
        assert(views(files@.take(f + 1)).drop_last() =~= views(files@.take(f as int)));
        let ghost s0 = views(services@);
        let ghost i0 = views(images@);
        let text = read_text_or_empty(d, files[f].as_str());
        let ls = lines_of(text.as_str());
        let ghost lv = ls@.map_values(|l: Vec<char>| l@);
        let mut i: usize = 0;
        while i < ls.len()
            invariant
                i <= ls.len(),
                lv == ls@.map_values(|l: Vec<char>| l@),
                colon@ == ":"@,
                dash@ == "-"@,
                hash@ == "#"@,
                version@ == "version"@,
                image@ == "image:"@,
                services_word@ == "services:"@,
                views(services@) == s0 + line_services(lv.take(i as int)),
                views(images@) == i0 + line_images(lv.take(i as int)),
            decreases ls.len() - i,
        {
            assert(lv.take(i + 1).drop_last() =~= lv.take(i as int));
            assert(lv.take(i + 1).last() == ls@[i as int]@);
            let ghost sp = views(services@);
            let ghost ip = views(images@);
            let t = trim_chars(ls[i].as_slice());
            if crate::text::ends_with_chars(t.as_slice(), colon.as_slice()) && !crate::text::starts_with_chars(
                t.as_slice(),
                dash.as_slice(),
            ) && !crate::text::starts_with_chars(t.as_slice(), hash.as_slice()) && !crate::text::has_char(
                t.as_slice(),
                ' ',
            ) && !crate::text::chars_eq(t.as_slice(), services_word.as_slice())
                && !crate::text::starts_with_chars(t.as_slice(), version.as_slice()) {
                let name = crate::text::trim_end_char(t.as_slice(), ':');
                services.push(string_of(name.as_slice()));
                assert(views(services@) =~= sp.push(name@));
            }
            if crate::text::starts_with_chars(t.as_slice(), image.as_slice()) {
                proof {
                    reveal_strlit("image:");
                }
                let rest = subvec(t.as_slice(), 6, t.len());
                assert(rest@ =~= t@.skip(6));
                let v = trim_chars(rest.as_slice());
                images.push(string_of(v.as_slice()));
                assert(views(images@) =~= ip.push(v@));
            }
            assert(views(services@) =~= s0 + line_services(lv.take(i + 1)));
            assert(views(images@) =~= i0 + line_images(lv.take(i + 1)));
            i += 1;
        }
        assert(lv.take(ls.len() as int) =~= lv);
        f += 1;
    }
    assert(files@.take(files.len() as int) =~= files@);
    (services, images)
}

/// The container component of a directory and the container description it gives.
pub fn detect_container_component(d: &DirFacts, rel: &str) -> (r: Option<(Component, crate::model::ContainerInfo)>)
    ensures
        match r {
            Some((c, info)) => container_part(*d, rel@) == Some((c@, crate::model::container_view(info))),
            None => container_part(*d, rel@) is None,
        },
{
    if !d.listed {
        return None;
    }
    let mut dfs: Vec<String> = Vec::new();
    let mut i: usize = 0;
    while i < d.entries.len()
        invariant
            i <= d.entries.len(),
            views(dfs@) == dockerfiles_in(views(d.entries@.take(i as int))),
        decreases d.entries.len() - i,
    {
        assert(views(d.entries@.take(i + 1)).drop_last() =~= views(d.entries@.take(i as int)));
        let ghost pre = views(dfs@);
        let name = d.entries[i].as_str();
        if crate::text::str_eq(name, "Dockerfile") || crate::text::starts_with_str(name, "Dockerfile.") {
            dfs.push(d.entries[i].clone());
            assert(views(dfs@) =~= pre.push(d.entries@[i as int]@));
        }
        i += 1;
    }
    assert(d.entries@.take(d.entries.len() as int) =~= d.entries@);
    let names = ["compose.yaml", "compose.yml", "docker-compose.yaml", "docker-compose.yml"];
    assert(names@.map_values(|s: &str| s@) =~= compose_names());
    let mut cfs: Vec<String> = Vec::new();
    push_present(&mut cfs, names.as_slice(), d.files.as_slice());
    assert(views(cfs@) =~= present(compose_names(), files_of(*d)));
    if dfs.len() == 0 && cfs.len() == 0 {
        return None;
    }
    let pairs = directive_pairs_of(d, &dfs);
    let directives = grouped_of(&pairs);
    let (services, images) = compose_lines_of(d, &cfs);
    let mut evidence: Vec<EvidenceItem> = Vec::new();
    push_evidence(&mut evidence, "dockerfile", &dfs);
    push_evidence(&mut evidence, "compose", &cfs);
    let mut manifests = copy_strings(&dfs);
    crate::operations::extend_strings(&mut manifests, cfs.as_slice());
    let c = Component {
        path: copy_str(rel),
        ecosystem: Ecosystem::Container,
        tool: Some(copy_str("docker")),
        manifests,
        lockfiles: Vec::new(),
        evidence,
        workspace_packages: Vec::new(),
        dependency_sources: Vec::new(),
    };
    let info = crate::model::ContainerInfo { dockerfiles: dfs, compose_files: cfs, services, images, directives };
    assert(views(c.lockfiles@) =~= seq![]);
    assert(views(c.workspace_packages@) =~= seq![]);
    assert(sources_view(c.dependency_sources@) =~= seq![]);
    assert(evidence_view(c.evidence@) =~= tagged("dockerfile"@, views(info.dockerfiles@)) + tagged("compose"@, views(info.compose_files@)));
    Some((c, info))
}

// ---------------------------------------------------------------------------
// The JavaScript root and the whole walk
// ---------------------------------------------------------------------------
pub open spec fn js_lock_names() -> Seq<Seq<char>> {
    seq!["bun.lock"@, "bun.lockb"@, "pnpm-lock.yaml"@, "yarn.lock"@, "package-lock.json"@]
}

/// The tool the first present lockfile stands for.
pub open spec fn lock_tool(files: Seq<Seq<char>>) -> Option<Seq<char>> {
    if files.contains("bun.lock"@) || files.contains("bun.lockb"@) {
        Some("bun"@)
    } else if files.contains("pnpm-lock.yaml"@) {
        Some("pnpm"@)
    } else if files.contains("yarn.lock"@) {
        Some("yarn"@)
    } else if files.contains("package-lock.json"@) {
        Some("npm"@)
    } else {
        None
    }
}

pub open spec fn known_tool(n: Seq<char>) -> bool {
    n == "npm"@ || n == "pnpm"@ || n == "bun"@ || n == "yarn"@
}

/// The tool of the JavaScript root: the name before `@` in `packageManager`
/// when it is a known one, else the tool of the first present lockfile; none
/// when `package.json` was not read or is not JSON.
pub open spec fn js_tool(d: DirFacts) -> Option<Seq<char>> {
    match text_of(d, "package.json"@) {
        None => None,
        Some(t) => match crate::json::json_from_text(t) {
            Err(_) => None,
            Ok(v) => match crate::json::json_str(crate::json::json_get(v, "packageManager"@)) {
                Some(f) => if known_tool(before_any(f, seq!['@'])) {
                    Some(before_any(f, seq!['@']))
                } else {
                    lock_tool(files_of(d))
                },
                None => lock_tool(files_of(d)),
            },
        },
    }
}

pub open spec fn js_component(d: DirFacts) -> crate::model::ComponentView {
    let locks = present(js_lock_names(), files_of(d));
    crate::model::ComponentView {
        path: "."@,
        ecosystem: Ecosystem::JavaScript,
        tool: js_tool(d),
        manifests: seq!["package.json"@],
        lockfiles: locks,
        evidence: seq![("manifest"@, "package.json"@)] + tagged("lockfile"@, locks),
        workspace_packages: seq![],
        dependency_sources: tagged("lockfile"@, locks),
    }
}

fn lock_tool_of(d: &DirFacts) -> (r: Option<&'static str>)
    ensures
        match r {
            Some(t) => lock_tool(files_of(*d)) == Some(t@),
            None => lock_tool(files_of(*d)) is None,
        },
{
    if has_file(d, "bun.lock") || has_file(d, "bun.lockb") {
        Some("bun")
    } else if has_file(d, "pnpm-lock.yaml") {
        Some("pnpm")
    } else if has_file(d, "yarn.lock") {
        Some("yarn")
    } else if has_file(d, "package-lock.json") {
        Some("npm")
    } else {
        None
    }
}

fn detect_repository_manager_name(d: &DirFacts) -> (r: Option<String>)
    ensures
        opt_view(r) == js_tool(*d),
{
    let text = match read_text(d, "package.json") {
        Some(t) => t,
        None => return None,
    };
    let v = match crate::json::parse_json_text(text.as_str()) {
        Ok(v) => v,
        Err(_) => return None,
    };
    let by_lock = match lock_tool_of(d) {
        Some(t) => Some(copy_str(t)),
        None => None,
    };
    match crate::json::as_str(crate::json::get(&v, "packageManager")) {
        Some(f) => {
            let fc = chars_of(f.as_str());
            let at: [char; 1] = ['@'];
            assert(at@ =~= seq!['@']);
            let head = before_any_chars(fc.as_slice(), at.as_slice());
            let name = string_of(head.as_slice());
            let n = name.as_str();
            if crate::text::str_eq(n, "npm") || crate::text::str_eq(n, "pnpm") || crate::text::str_eq(n, "bun")
                || crate::text::str_eq(n, "yarn") {
                Some(name)
            } else {
                by_lock
            }
        },
        None => by_lock,
    }
}

/// The JavaScript component of the project root.
pub fn js_component_of(d: &DirFacts) -> (c: Component)
    ensures
        c@ == js_component(*d),
{
    let names = ["bun.lock", "bun.lockb", "pnpm-lock.yaml", "yarn.lock", "package-lock.json"];
    assert(names@.map_values(|s: &str| s@) =~= js_lock_names());
    let mut locks: Vec<String> = Vec::new();
    push_present(&mut locks, names.as_slice(), d.files.as_slice());
    assert(views(locks@) =~= present(js_lock_names(), files_of(*d)));
    let mut evidence: Vec<EvidenceItem> = Vec::new();
    evidence.push(EvidenceItem { kind: copy_str("manifest"), path: copy_str("package.json") });
    assert(evidence_view(evidence@) =~= seq![("manifest"@, "package.json"@)]);
    push_evidence(&mut evidence, "lockfile", &locks);
    let mut sources: Vec<DependencySource> = Vec::new();
    push_sources(&mut sources, "lockfile", &locks);
    assert(sources_view(sources@) =~= tagged("lockfile"@, views(locks@)));
    let mut manifests: Vec<String> = Vec::new();
    manifests.push(copy_str("package.json"));
    assert(views(manifests@) =~= seq!["package.json"@]);
    let c = Component {
        path: copy_str("."),
        ecosystem: Ecosystem::JavaScript,
        tool: detect_repository_manager_name(d),
        manifests,
        lockfiles: locks,
        evidence,
        workspace_packages: Vec::new(),
        dependency_sources: sources,
    };
    assert(views(c.workspace_packages@) =~= seq![]);
    c
}

pub open spec fn opt_seq<T>(o: Option<T>) -> Seq<T> {
    match o {
        Some(x) => seq![x],
        None => seq![],
    }
}

/// The components one directory holds, in the order they are found.
pub open spec fn dir_components(d: DirFacts, root: Seq<char>) -> Seq<crate::model::ComponentView> {
    let rel = crate::paths::spec_relative_dir(d.path@, root);
    opt_seq(python_component(d, rel)) + opt_seq(rust_component(d, rel)) + match container_part(d, rel) {
        Some((c, _)) => seq![c],
        None => seq![],
    }
}

/// The dependencies one directory's manifests declare.
pub open spec fn dir_deps(d: DirFacts, root: Seq<char>) -> Seq<DepView> {
    let rel = crate::paths::spec_relative_dir(d.path@, root);
    (if python_component(d, rel) is Some {
        python_deps(d)
    } else {
        seq![]
    }) + if rust_component(d, rel) is Some {
        rust_deps(d)
    } else {
        seq![]
    }
}

pub open spec fn walk_components(dirs: Seq<DirFacts>, root: Seq<char>) -> Seq<crate::model::ComponentView>
    decreases dirs.len(),
{
    if dirs.len() == 0 {
        seq![]
    } else {
        walk_components(dirs.drop_last(), root) + dir_components(dirs.last(), root)
    }
}

pub open spec fn walk_deps(dirs: Seq<DirFacts>, root: Seq<char>) -> Seq<DepView>
    decreases dirs.len(),
{
    if dirs.len() == 0 {
        seq![]
    } else {
        walk_deps(dirs.drop_last(), root) + dir_deps(dirs.last(), root)
    }
}

/// The container description of the last directory that has one.
pub open spec fn walk_container(dirs: Seq<DirFacts>, root: Seq<char>) -> Option<crate::model::ContainerView>
    decreases dirs.len(),
{
    if dirs.len() == 0 {
        None
    } else {
        match container_part(dirs.last(), crate::paths::spec_relative_dir(dirs.last().path@, root)) {
            Some((_, info)) => Some(info),
            None => walk_container(dirs.drop_last(), root),
        }
    }
}

/// The place of an ecosystem among components at the same path (the order
/// of the ecosystems' names).
pub open spec fn eco_rank(e: Ecosystem) -> int {
    match e {
        Ecosystem::Container => 0,
        Ecosystem::JavaScript => 1,
        Ecosystem::Python => 2,
        Ecosystem::Rust => 3,
    }
}

fn eco_rank_of(e: Ecosystem) -> (r: u8)
    ensures
        r == eco_rank(e),
{
    match e {
        Ecosystem::Container => 0,
        Ecosystem::JavaScript => 1,
        Ecosystem::Python => 2,
        Ecosystem::Rust => 3,
    }
}

/// Components are ordered by path, then by ecosystem.
pub open spec fn component_lt(a: crate::model::ComponentView, b: crate::model::ComponentView) -> bool {
    crate::order::lex_lt(a.path, b.path) || (a.path == b.path && eco_rank(a.ecosystem) < eco_rank(b.ecosystem))
}

pub open spec fn exec_component_lt() -> spec_fn(Component, Component) -> bool {
    |a: Component, b: Component| component_lt(a@, b@)
}

pub open spec fn cview() -> spec_fn(Component) -> crate::model::ComponentView {
    |c: Component| c@
}

/// The project's components: the JavaScript root (when `package.json` is a
/// file there) and what each directory holds, ordered by path and ecosystem.
pub open spec fn spec_components(root: DirFacts, dirs: Seq<DirFacts>) -> Seq<crate::model::ComponentView> {
    crate::order::sort_by(
        (if files_of(root).contains("package.json"@) {
            seq![js_component(root)]
        } else {
            seq![]
        }) + walk_components(dirs, root.path@),
        |a: crate::model::ComponentView, b: crate::model::ComponentView| component_lt(a, b),
    )
}

proof fn lemma_component_order()
    ensures
        crate::order::strict_weak(|a: crate::model::ComponentView, b: crate::model::ComponentView| component_lt(a, b)),
{
    let lt = |a: crate::model::ComponentView, b: crate::model::ComponentView| component_lt(a, b);
    assert forall|a: crate::model::ComponentView| !#[trigger] lt(a, a) by {
        crate::order::lemma_lex_irreflexive(a.path);
    }
    assert forall|a: crate::model::ComponentView, b: crate::model::ComponentView, c: crate::model::ComponentView|
        #![trigger lt(a, b), lt(b, c)]
        lt(a, b) && lt(b, c) implies lt(a, c) by {
        crate::order::lemma_lex_total(a.path, b.path);
        crate::order::lemma_lex_total(b.path, c.path);
        crate::order::lemma_lex_total(a.path, c.path);
        if crate::order::lex_lt(a.path, b.path) && crate::order::lex_lt(b.path, c.path) {
            crate::order::lemma_lex_transitive(a.path, b.path, c.path);
        }
    }
    assert forall|a: crate::model::ComponentView, b: crate::model::ComponentView, c: crate::model::ComponentView|
        #![trigger lt(a, c), lt(a, b)]
        #![trigger lt(a, c), lt(b, c)]
        lt(a, c) implies lt(a, b) || lt(b, c) by {
        crate::order::lemma_lex_total(a.path, b.path);
        crate::order::lemma_lex_total(b.path, c.path);
        crate::order::lemma_lex_total(a.path, c.path);
        if crate::order::lex_lt(b.path, a.path) && crate::order::lex_lt(c.path, b.path) {
            crate::order::lemma_lex_transitive(c.path, b.path, a.path);
        }
        if crate::order::lex_lt(b.path, a.path) && b.path == c.path {
        }
        if a.path == b.path && crate::order::lex_lt(c.path, b.path) {
        }
    }
}

/// The components come ordered by path, then ecosystem, and are exactly the
/// JavaScript root's and those of each directory of the walk, rearranged:
/// none is lost and none added.
pub proof fn law_components_ordered(root: DirFacts, dirs: Seq<DirFacts>)
    ensures
        crate::order::is_sorted_by(
            spec_components(root, dirs),
            |a: crate::model::ComponentView, b: crate::model::ComponentView| component_lt(a, b),
        ),
        spec_components(root, dirs).to_multiset() =~= ((if files_of(root).contains("package.json"@) {
            seq![js_component(root)]
        } else {
            seq![]
        }) + walk_components(dirs, root.path@)).to_multiset(),
{
    let lt = |a: crate::model::ComponentView, b: crate::model::ComponentView| component_lt(a, b);
    let all = (if files_of(root).contains("package.json"@) {
        seq![js_component(root)]
    } else {
        seq![]
    }) + walk_components(dirs, root.path@);
    lemma_component_order();
    crate::order::lemma_sort_by_sorted(all, lt);
    crate::order::lemma_sort_by_permutes(all, lt);
}

proof fn lemma_walk_not_javascript(dirs: Seq<DirFacts>, root: Seq<char>)
    ensures
        forall|i: int| 0 <= i < walk_components(dirs, root).len() ==> (#[trigger] walk_components(dirs, root)[i]).ecosystem
            != Ecosystem::JavaScript,
    decreases dirs.len(),
{
    if dirs.len() > 0 {
        let t = dirs.drop_last();
        lemma_walk_not_javascript(t, root);
        let prev = walk_components(t, root);
        let w = walk_components(dirs, root);
        let d = dirs.last();
        let rel = crate::paths::spec_relative_dir(d.path@, root);
        let dc = dir_components(d, root);
        assert forall|k: int| 0 <= k < dc.len() implies (#[trigger] dc[k]).ecosystem != Ecosystem::JavaScript by {
            let a = opt_seq(python_component(d, rel));
            let b = opt_seq(rust_component(d, rel));
            if k < a.len() {
                assert(dc[k] == a[k]);
            } else if k < a.len() + b.len() {
                assert(dc[k] == b[k - a.len()]);
            } else {
                assert(container_part(d, rel) is Some);
            }
        }
        assert forall|i: int| 0 <= i < w.len() implies (#[trigger] w[i]).ecosystem != Ecosystem::JavaScript by {
            if i < prev.len() {
                assert(w[i] == prev[i]);
            } else {
                assert(w[i] == dc[i - prev.len()]);
            }
        }
    }
}

/// There is a JavaScript component exactly when `package.json` is a file at
/// the root, and it is the root's: at `.`, with `package.json` as its
/// manifest.
pub proof fn law_javascript_root_component(root: DirFacts, dirs: Seq<DirFacts>)
    ensures
        (exists|i: int| 0 <= i < spec_components(root, dirs).len() && (#[trigger] spec_components(root, dirs)[i]).ecosystem
            == Ecosystem::JavaScript) <==> files_of(root).contains("package.json"@),
        forall|i: int| 0 <= i < spec_components(root, dirs).len() && (#[trigger] spec_components(root, dirs)[i]).ecosystem
            == Ecosystem::JavaScript ==> spec_components(root, dirs)[i] == js_component(root)
            && spec_components(root, dirs)[i].path == "."@ && spec_components(root, dirs)[i].manifests == seq![
            "package.json"@,
        ],
{
    broadcast use vstd::seq_lib::group_seq_properties;

    let lt = |a: crate::model::ComponentView, b: crate::model::ComponentView| component_lt(a, b);
    let js: Seq<crate::model::ComponentView> = if files_of(root).contains("package.json"@) {
        seq![js_component(root)]
    } else {
        seq![]
    };
    let walk = walk_components(dirs, root.path@);
    let all = js + walk;
    let cs = spec_components(root, dirs);
    crate::order::lemma_sort_by_permutes(all, lt);
    lemma_walk_not_javascript(dirs, root.path@);
    assert forall|i: int| 0 <= i < cs.len() && (#[trigger] cs[i]).ecosystem == Ecosystem::JavaScript implies cs[i]
        == js_component(root) && files_of(root).contains("package.json"@) by {
        assert(cs.contains(cs[i]));
        assert(all.contains(cs[i]));
        if walk.contains(cs[i]) {
            let k = choose|k: int| 0 <= k < walk.len() && walk[k] == cs[i];
            assert(walk[k].ecosystem != Ecosystem::JavaScript);
        }
        assert(js.contains(cs[i]));
    }
    if files_of(root).contains("package.json"@) {
        assert(js[0] == js_component(root));
        assert(all.contains(js_component(root)));
        assert(cs.contains(js_component(root)));
        let i = choose|i: int| 0 <= i < cs.len() && cs[i] == js_component(root);
        assert(cs[i].ecosystem == Ecosystem::JavaScript);
    }
}

fn dir_parts(
    d: &DirFacts,
    root: &str,
    components: &mut Vec<Component>,
    deps: &mut Vec<NativeDependency>,
    container: &mut Option<crate::model::ContainerInfo>,
)
    ensures
        crate::model::components_view(final(components)@) == crate::model::components_view(old(components)@)
            + dir_components(*d, root@),
        deps_view(final(deps)@) == deps_view(old(deps)@) + dir_deps(*d, root@),
        match container_part(*d, crate::paths::spec_relative_dir(d.path@, root@)) {
            Some((_, info)) => *final(container) matches Some(x) && crate::model::container_view(x) == info,
            None => *final(container) == *old(container),
        },
{
    let rel = crate::paths::relative_dir(d.path.as_str(), root);
    let ghost c0 = crate::model::components_view(components@);
    let ghost d0 = deps_view(deps@);
    let (py, py_deps) = detect_python_component(d, rel.as_str());
    match py {
        Some(c) => {
            components.push(c);
        },
        None => {},
    }
    append_deps(deps, &py_deps);
    let (rs, rs_deps) = detect_rust_component(d, rel.as_str());
    match rs {
        Some(c) => {
            components.push(c);
        },
        None => {},
    }
    append_deps(deps, &rs_deps);
    match detect_container_component(d, rel.as_str()) {
        Some((c, info)) => {
            components.push(c);
            *container = Some(info);
        },
        None => {},
    }
    assert(crate::model::components_view(components@) =~= c0 + dir_components(*d, root@));
    assert(deps_view(deps@) =~= d0 + dir_deps(*d, root@));
}

pub open spec fn container_in(o: Option<crate::model::ContainerInfo>) -> Option<crate::model::ContainerView> {
    match o {
        Some(info) => Some(crate::model::container_view(info)),
        None => None,
    }
}

/// The components, the native dependencies and the container description
/// that the directories of a walk from `root` give (`subdirs`: the
/// directories after the root, in walk order).
pub fn detect_components(root: &DirFacts, subdirs: &Vec<DirFacts>) -> (r: (Vec<Component>, Vec<NativeDependency>, Option<crate::model::ContainerInfo>))
    ensures
        crate::model::components_view(r.0@) == spec_components(*root, seq![*root] + subdirs@),
        deps_view(r.1@) == walk_deps(seq![*root] + subdirs@, root.path@),
        container_in(r.2) == walk_container(seq![*root] + subdirs@, root.path@),
{
    let ghost rp = root.path@;
    let ghost dirs = seq![*root] + subdirs@;
    let mut components: Vec<Component> = Vec::new();
    let mut deps: Vec<NativeDependency> = Vec::new();
    let mut container: Option<crate::model::ContainerInfo> = None;
    assert(crate::model::components_view(components@) =~= seq![]);
    assert(deps_view(deps@) =~= seq![]);
    dir_parts(root, root.path.as_str(), &mut components, &mut deps, &mut container);
    assert(dirs.take(1) =~= seq![*root]);
    assert(dirs.take(1).drop_last() =~= Seq::<DirFacts>::empty());
    assert(dirs.take(1).last() == *root);
    assert(walk_components(dirs.take(1).drop_last(), rp) =~= seq![]);
    assert(walk_deps(dirs.take(1).drop_last(), rp) =~= seq![]);
    assert(walk_components(dirs.take(1), rp) =~= dir_components(*root, rp));
    assert(walk_deps(dirs.take(1), rp) =~= dir_deps(*root, rp));
    assert(walk_container(dirs.take(1).drop_last(), rp) is None);
    assert(crate::model::components_view(components@) =~= walk_components(dirs.take(1), rp));
    assert(deps_view(deps@) =~= walk_deps(dirs.take(1), rp));
    let mut i: usize = 0;
    while i < subdirs.len()
        invariant
            i <= subdirs.len(),
            rp == root.path@,
            dirs == seq![*root] + subdirs@,
            crate::model::components_view(components@) == walk_components(dirs.take(i + 1), rp),
            deps_view(deps@) == walk_deps(dirs.take(i + 1), rp),
            container_in(container) == walk_container(dirs.take(i + 1), rp),
        decreases subdirs.len() - i,
    {
        assert(dirs.take(i + 2).drop_last() =~= dirs.take(i + 1));
        assert(dirs.take(i + 2).last() == subdirs@[i as int]);
        dir_parts(&subdirs[i], root.path.as_str(), &mut components, &mut deps, &mut container);
        i += 1;
    }
    assert(dirs.take(subdirs.len() + 1) =~= dirs);
    let mut all: Vec<Component> = Vec::new();
    if has_file(root, "package.json") {
        all.push(js_component_of(root));
    }
    all.append(&mut components);
    let ghost unsorted = all@;
    assert(crate::model::components_view(unsorted) =~= (if files_of(*root).contains("package.json"@) {
        seq![js_component(*root)]
    } else {
        seq![]
    }) + walk_components(dirs, rp));
    let lt = |a: &Component, b: &Component| -> (res: bool)
        ensures
            res == component_lt(a@, b@),
        {
            crate::order::str_lt(a.path.as_str(), b.path.as_str()) || (crate::text::str_eq(
                a.path.as_str(),
                b.path.as_str(),
            ) && eco_rank_of(a.ecosystem) < eco_rank_of(b.ecosystem))
        };
    let sorted = crate::order::sort_vec_by(all, lt, Ghost(exec_component_lt()));
    proof {
        crate::order::lemma_sort_by_map(
            unsorted,
            cview(),
            exec_component_lt(),
            |a: crate::model::ComponentView, b: crate::model::ComponentView| component_lt(a, b),
        );
        assert(unsorted.map_values(cview()) =~= crate::model::components_view(unsorted));
        assert(sorted@.map_values(cview()) =~= crate::model::components_view(sorted@));
    }
    (sorted, deps, container)
}

/// The files of a directory whose text detection reads, by path relative to
/// the directory: the fixed manifests, each Dockerfile, and each
/// `requirements/*.txt`.
pub open spec fn spec_texts_read(d: DirFacts) -> Seq<Seq<char>> {
    seq!["package.json"@, "pnpm-workspace.yaml"@, "pyproject.toml"@, "requirements.txt"@, "Cargo.toml"@]
        + compose_names() + dockerfiles_in(views(d.entries@)) + requirement_files(requirement_entries(d))
}

pub fn texts_read(d: &DirFacts) -> (r: Vec<String>)
    ensures
        views(r@) == spec_texts_read(*d),
{
    let fixed = [
        "package.json",
        "pnpm-workspace.yaml",
        "pyproject.toml",
        "requirements.txt",
        "Cargo.toml",
        "compose.yaml",
        "compose.yml",
        "docker-compose.yaml",
        "docker-compose.yml",
    ];
    let mut r = names_vec(fixed.as_slice());
    assert(views(r@) =~= seq!["package.json"@, "pnpm-workspace.yaml"@, "pyproject.toml"@, "requirements.txt"@, "Cargo.toml"@]
        + compose_names());
    let ghost start = views(r@);
    let mut i: usize = 0;
    while i < d.entries.len()
        invariant
            i <= d.entries.len(),
            views(r@) == start + dockerfiles_in(views(d.entries@.take(i as int))),
        decreases d.entries.len() - i,
    {
        assert(views(d.entries@.take(i + 1)).drop_last() =~= views(d.entries@.take(i as int)));
        let ghost pre = views(r@);
        let name = d.entries[i].as_str();
        if crate::text::str_eq(name, "Dockerfile") || crate::text::starts_with_str(name, "Dockerfile.") {
            r.push(d.entries[i].clone());
            assert(views(r@) =~= pre.push(d.entries@[i as int]@));
        }
        i += 1;
    }
    assert(d.entries@.take(d.entries.len() as int) =~= d.entries@);
    let ghost mid = views(r@);
    match &d.requirements {
        RequirementsDir::Listed(es) => {
            let mut j: usize = 0;
            while j < es.len()
                invariant
                    j <= es.len(),
                    views(r@) == mid + requirement_files(views(es@.take(j as int))),
                decreases es.len() - j,
            {
                assert(views(es@.take(j + 1)).drop_last() =~= views(es@.take(j as int)));
                let ghost pre = views(r@);
                if ends_with_str(es[j].as_str(), ".txt") {
                    let mut p = String::from_str("requirements/");
                    p.append(es[j].as_str());
                    proof {
                        reveal_strlit("requirements/");
                    }
                    r.push(p);
                    assert(views(r@) =~= pre.push("requirements/"@ + es@[j as int]@));
                }
                j += 1;
            }
            assert(es@.take(es.len() as int) =~= es@);
        },
        _ => {
            assert(views(r@) =~= mid + Seq::<Seq<char>>::empty());
        },
    }
    r
}

} // verus!
