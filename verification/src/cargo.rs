//! What Cargo reports of a project: from `cargo metadata` when it answered,
//! else from reading `Cargo.toml`.
use vstd::prelude::*;

use crate::components::{files_of, text_or_empty, DirFacts};
use crate::json::{as_str, get, json_equal, json_from_bytes, json_get, json_same, json_str, parse_json_bytes, JsonValue};
use crate::manifests::{declares_workspace, manifest_declares_workspace, manifest_name, manifest_package_name, parse_toml_list, spec_toml_list};
use crate::model::{dep_view, deps_view, CargoObservation, CargoPackage, DepView, Ecosystem, NativeDependency};
use crate::order::{dedup_by, lex_lt, sort_by};
use crate::paths::{display_path, join_path, path_joined, spec_display_path};
use crate::text::{copy_str, opt_view, str_eq, views};

verus! {

pub type PackageView = (Seq<char>, Seq<char>, bool);

pub struct CargoView {
    pub manifest: Seq<char>,
    pub lockfile: Option<Seq<char>>,
    pub workspace: bool,
    pub workspace_root: Seq<char>,
    pub workspace_members: Seq<Seq<char>>,
    pub packages: Seq<PackageView>,
    pub dependencies: Seq<DepView>,
    pub source: Seq<char>,
}

pub open spec fn package_view(p: CargoPackage) -> PackageView {
    (p.name@, p.manifest_path@, p.workspace_member)
}

pub open spec fn cargo_view(c: CargoObservation) -> CargoView {
    CargoView {
        manifest: c.manifest@,
        lockfile: opt_view(c.lockfile),
        workspace: c.workspace,
        workspace_root: c.workspace_root@,
        workspace_members: views(c.workspace_members@),
        packages: c.packages@.map_values(|p: CargoPackage| package_view(p)),
        dependencies: deps_view(c.dependencies@),
        source: c.source@,
    }
}

/// `value[key]`: the member, or `null` when there is none.
pub open spec fn json_index(v: JsonValue, key: Seq<char>) -> JsonValue {
    match json_get(v, key) {
        Some(x) => x,
        None => JsonValue::Null,
    }
}

/// The items of an array; nothing for any other value.
pub open spec fn items_of(v: JsonValue) -> Seq<JsonValue> {
    match v {
        JsonValue::Array(xs) => xs@,
        _ => seq![],
    }
}

pub open spec fn index_str(v: JsonValue, key: Seq<char>) -> Option<Seq<char>> {
    json_str(json_get(v, key))
}

// ---------------------------------------------------------------------------
// cargo metadata
// ---------------------------------------------------------------------------
/// The workspace root `cargo metadata` reports, or the project root.
pub open spec fn metadata_root(m: JsonValue, root: Seq<char>) -> Seq<char> {
    match index_str(m, "workspace_root"@) {
        Some(w) => w,
        None => root,
    }
}

/// A package entry: its name, its manifest shown relative to the root, and
/// whether its id is one of the workspace members' ids.
pub open spec fn metadata_package(p: JsonValue, members: Seq<JsonValue>, root: Seq<char>) -> Option<PackageView> {
    match (index_str(p, "name"@), index_str(p, "manifest_path"@)) {
        (Some(name), Some(manifest)) => Some(
            (
                name,
                spec_display_path(manifest, root),
                exists|i: int| 0 <= i < members.len() && json_same(#[trigger] members[i], json_index(p, "id"@)),
            ),
        ),
        _ => None,
    }
}

pub open spec fn metadata_packages(ps: Seq<JsonValue>, members: Seq<JsonValue>, root: Seq<char>) -> Seq<PackageView>
    decreases ps.len(),
{
    if ps.len() == 0 {
        seq![]
    } else {
        metadata_packages(ps.drop_last(), members, root) + match metadata_package(ps.last(), members, root) {
            Some(x) => seq![x],
            None => seq![],
        }
    }
}

pub open spec fn package_lt(a: PackageView, b: PackageView) -> bool {
    lex_lt(a.0, b.0)
}

/// The names of the workspace members among the packages, in order.
pub open spec fn member_names(ps: Seq<PackageView>) -> Seq<Seq<char>>
    decreases ps.len(),
{
    if ps.len() == 0 {
        seq![]
    } else {
        member_names(ps.drop_last()) + if ps.last().2 {
            seq![ps.last().0]
        } else {
            seq![]
        }
    }
}

/// The dependency a dependency entry of `cargo metadata` describes.
pub open spec fn metadata_dep(d: JsonValue) -> Option<DepView> {
    match index_str(d, "name"@) {
        Some(name) => {
            let kind = match index_str(d, "kind"@) {
                Some(k) => if k == "dev"@ {
                    "development"@
                } else if k == "build"@ {
                    "build"@
                } else {
                    "dependency"@
                },
                None => "dependency"@,
            };
            Some(
                (
                    name,
                    match index_str(d, "req"@) {
                        Some(r) => r,
                        None => "*"@,
                    },
                    kind,
                    Ecosystem::Rust,
                    if json_index(d, "optional"@) == JsonValue::Bool(true) {
                        "optional"@
                    } else {
                        kind
                    },
                ),
            )
        },
        None => None,
    }
}

pub open spec fn metadata_deps_of(ds: Seq<JsonValue>) -> Seq<DepView>
    decreases ds.len(),
{
    if ds.len() == 0 {
        seq![]
    } else {
        metadata_deps_of(ds.drop_last()) + match metadata_dep(ds.last()) {
            Some(x) => seq![x],
            None => seq![],
        }
    }
}

/// Every dependency entry of every package, in order.
pub open spec fn metadata_deps(ps: Seq<JsonValue>) -> Seq<DepView>
    decreases ps.len(),
{
    if ps.len() == 0 {
        seq![]
    } else {
        metadata_deps(ps.drop_last()) + metadata_deps_of(items_of(json_index(ps.last(), "dependencies"@)))
    }
}

/// Dependencies are ordered by name, then kind, then specifier.
pub open spec fn dep_lt(a: DepView, b: DepView) -> bool {
    ||| lex_lt(a.0, b.0)
    ||| a.0 == b.0 && lex_lt(a.2, b.2)
    ||| a.0 == b.0 && a.2 == b.2 && lex_lt(a.1, b.1)
}

pub open spec fn dep_same(a: DepView, b: DepView) -> bool {
    a.0 == b.0 && a.2 == b.2 && a.1 == b.1
}

pub open spec fn string_lt(a: Seq<char>, b: Seq<char>) -> bool {
    lex_lt(a, b)
}

/// What `cargo metadata` reports, in the library's terms.
pub open spec fn spec_cargo_metadata(m: JsonValue, root: Seq<char>, declares: bool, lock_found: bool) -> CargoView {
    let ws = metadata_root(m, root);
    let ps = items_of(json_index(m, "packages"@));
    let packages = sort_by(
        metadata_packages(ps, items_of(json_index(m, "workspace_members"@)), root),
        |a: PackageView, b: PackageView| package_lt(a, b),
    );
    CargoView {
        manifest: "Cargo.toml"@,
        lockfile: if lock_found {
            Some(spec_display_path(path_joined(ws, "Cargo.lock"@), root))
        } else {
            None
        },
        workspace: declares,
        workspace_root: spec_display_path(ws, root),
        workspace_members: sort_by(member_names(packages), |a: Seq<char>, b: Seq<char>| string_lt(a, b)),
        packages,
        dependencies: dedup_by(
            sort_by(metadata_deps(ps), |a: DepView, b: DepView| dep_lt(a, b)),
            |a: DepView, b: DepView| dep_same(a, b),
        ),
        source: "cargo metadata --no-deps --offline"@,
    }
}

/// What reading `Cargo.toml` alone reports.
pub open spec fn spec_cargo_fallback(text: Seq<char>, lock_at_root: bool) -> CargoView {
    let name = manifest_name(crate::text::lines(text));
    CargoView {
        manifest: "Cargo.toml"@,
        lockfile: if lock_at_root {
            Some("Cargo.lock"@)
        } else {
            None
        },
        workspace: declares_workspace(crate::text::lines(text)),
        workspace_root: "."@,
        workspace_members: (match name {
            Some(n) => seq![n],
            None => seq![],
        }) + spec_toml_list(text, "[workspace]"@, "members"@),
        packages: match name {
            Some(n) => seq![(n, "Cargo.toml"@, true)],
            None => seq![],
        },
        dependencies: seq![],
        source: "Cargo.toml fallback"@,
    }
}

/// What Cargo reports of the project whose root is `root`, given what
/// `cargo metadata` printed when it succeeded and whether `Cargo.lock` is a
/// file at the workspace root it names; `None` when there is no `Cargo.toml`.
pub open spec fn spec_detect_cargo(root: DirFacts, metadata: Option<Seq<u8>>, metadata_lock: bool) -> Option<CargoView> {
    if !files_of(root).contains("Cargo.toml"@) {
        None
    } else {
        let text = text_or_empty(root, "Cargo.toml"@);
        let parsed = match metadata {
            Some(bytes) => json_from_bytes(bytes),
            None => None,
        };
        match parsed {
            Some(m) => Some(spec_cargo_metadata(m, root.path@, declares_workspace(crate::text::lines(text)), metadata_lock)),
            None => Some(spec_cargo_fallback(text, files_of(root).contains("Cargo.lock"@))),
        }
    }
}

fn index_str_of<'a>(v: &'a JsonValue, key: &str) -> (r: Option<&'a String>)
    ensures
        match r {
            Some(s) => index_str(*v, key@) == Some(s@),
            None => index_str(*v, key@) is None,
        },
{
    as_str(get(v, key))
}

fn metadata_root_of(m: &JsonValue, root: &str) -> (r: String)
    ensures
        r@ == metadata_root(*m, root@),
{
    match index_str_of(m, "workspace_root") {
        Some(w) => w.clone(),
        None => copy_str(root),
    }
}

fn items_ref<'a>(v: Option<&'a JsonValue>) -> (r: Option<&'a Vec<JsonValue>>)
    ensures
        opt_items(r) == items_of(opt_value(v)),
{
    match v {
        Some(JsonValue::Array(xs)) => Some(xs),
        _ => None,
    }
}

/// The path whose being a file decides the lockfile that `cargo metadata`'s
/// workspace has: `Cargo.lock` under the workspace root. `None` when the
/// output is not JSON.
pub fn cargo_lock_probe(stdout: &[u8], root: &str) -> (r: Option<String>)
    ensures
        match json_from_bytes(stdout@) {
            Some(m) => opt_view(r) == Some(path_joined(metadata_root(m, root@), "Cargo.lock"@)),
            None => r is None,
        },
{
    match parse_json_bytes(stdout) {
        Some(m) => {
            let ws = metadata_root_of(&m, root);
            Some(join_path(ws.as_str(), "Cargo.lock"))
        },
        None => None,
    }
}

pub open spec fn opt_items(o: Option<&Vec<JsonValue>>) -> Seq<JsonValue> {
    match o {
        Some(xs) => xs@,
        None => seq![],
    }
}

pub open spec fn opt_value(o: Option<&JsonValue>) -> JsonValue {
    match o {
        Some(x) => *x,
        None => JsonValue::Null,
    }
}

fn is_member(members: Option<&Vec<JsonValue>>, id: Option<&JsonValue>) -> (r: bool)
    ensures
        r == exists|i: int| 0 <= i < opt_items(members).len() && json_same(#[trigger] opt_items(members)[i], opt_value(id)),
{
    let ghost want = opt_value(id);
    match members {
        None => false,
        Some(xs) => {
            let ghost ms = opt_items(members);
            assert(ms == xs@);
            let mut i: usize = 0;
            while i < xs.len()
                invariant
                    i <= xs.len(),
                    ms == xs@,
                    ms == opt_items(members),
                    want == opt_value(id),
                    forall|k: int| 0 <= k < i ==> !json_same(#[trigger] ms[k], want),
                decreases xs.len() - i,
            {
                let same = match id {
                    Some(x) => json_equal(&xs[i], x),
                    None => match &xs[i] {
                        JsonValue::Null => true,
                        _ => false,
                    },
                };
                assert(same == json_same(ms[i as int], want));
                if same {
                    return true;
                }
                i += 1;
            }
            false
        },
    }
}

fn packages_of(ps: &Vec<JsonValue>, members: Option<&Vec<JsonValue>>, root: &str) -> (r: Vec<CargoPackage>)
    ensures
        r@.map_values(|p: CargoPackage| package_view(p)) == metadata_packages(ps@, opt_items(members), root@),
{
    let ghost ms = opt_items(members);
    let mut r: Vec<CargoPackage> = Vec::new();
    let mut i: usize = 0;
    while i < ps.len()
        invariant
            i <= ps.len(),
            ms == opt_items(members),
            r@.map_values(|p: CargoPackage| package_view(p)) == metadata_packages(ps@.take(i as int), ms, root@),
        decreases ps.len() - i,
    {
        assert(ps@.take(i + 1).drop_last() =~= ps@.take(i as int));
        assert(ps@.take(i + 1).last() == ps@[i as int]);
        let ghost pre = r@.map_values(|p: CargoPackage| package_view(p));
        let p = &ps[i];
        match (index_str_of(p, "name"), index_str_of(p, "manifest_path")) {
            (Some(name), Some(manifest)) => {
                let member = is_member(members, get(p, "id"));
                let pkg = CargoPackage {
                    name: name.clone(),
                    manifest_path: display_path(manifest.as_str(), root),
                    workspace_member: member,
                };
                r.push(pkg);
                assert(r@.map_values(|p: CargoPackage| package_view(p)) =~= pre.push(package_view(pkg)));
            },
            _ => {},
        }
        assert(r@.map_values(|p: CargoPackage| package_view(p)) =~= metadata_packages(ps@.take(i + 1), ms, root@));
        i += 1;
    }
    assert(ps@.take(ps.len() as int) =~= ps@);
    r
}

fn metadata_dep_of(d: &JsonValue) -> (r: Option<NativeDependency>)
    ensures
        match r {
            Some(x) => metadata_dep(*d) == Some(dep_view(x)),
            None => metadata_dep(*d) is None,
        },
{
    match index_str_of(d, "name") {
        Some(name) => {
            let kind: &str = match index_str_of(d, "kind") {
                Some(k) => if str_eq(k.as_str(), "dev") {
                    "development"
                } else if str_eq(k.as_str(), "build") {
                    "build"
                } else {
                    "dependency"
                },
                None => "dependency",
            };
            let specifier = match index_str_of(d, "req") {
                Some(r) => r.clone(),
                None => copy_str("*"),
            };
            let optional = match get(d, "optional") {
                Some(JsonValue::Bool(b)) => *b,
                _ => false,
            };
            let native = if optional {
                "optional"
            } else {
                kind
            };
            Some(
                NativeDependency {
                    name: name.clone(),
                    specifier,
                    kind: copy_str(kind),
                    ecosystem: Ecosystem::Rust,
                    native_kind: copy_str(native),
                },
            )
        },
        None => None,
    }
}

fn deps_of(ps: &Vec<JsonValue>) -> (r: Vec<NativeDependency>)
    ensures
        deps_view(r@) == metadata_deps(ps@),
{
    let mut r: Vec<NativeDependency> = Vec::new();
    let mut i: usize = 0;
    while i < ps.len()
        invariant
            i <= ps.len(),
            deps_view(r@) == metadata_deps(ps@.take(i as int)),
        decreases ps.len() - i,
    {
        assert(ps@.take(i + 1).drop_last() =~= ps@.take(i as int));
        assert(ps@.take(i + 1).last() == ps@[i as int]);
        let ghost start = deps_view(r@);
        match items_ref(get(&ps[i], "dependencies")) {
            Some(ds) => {
                let mut j: usize = 0;
                while j < ds.len()
                    invariant
                        j <= ds.len(),
                        deps_view(r@) == start + metadata_deps_of(ds@.take(j as int)),
                    decreases ds.len() - j,
                {
                    assert(ds@.take(j + 1).drop_last() =~= ds@.take(j as int));
                    assert(ds@.take(j + 1).last() == ds@[j as int]);
                    let ghost pre = deps_view(r@);
                    match metadata_dep_of(&ds[j]) {
                        Some(x) => {
                            r.push(x);
                            assert(deps_view(r@) =~= pre.push(dep_view(x)));
                        },
                        None => {},
                    }
                    assert(deps_view(r@) =~= start + metadata_deps_of(ds@.take(j + 1)));
                    j += 1;
                }
                assert(ds@.take(ds.len() as int) =~= ds@);
            },
            None => {
                assert(deps_view(r@) =~= start + metadata_deps_of(Seq::<JsonValue>::empty()));
            },
        }
        i += 1;
    }
    assert(ps@.take(ps.len() as int) =~= ps@);
    r
}

pub open spec fn exec_package_lt() -> spec_fn(CargoPackage, CargoPackage) -> bool {
    |a: CargoPackage, b: CargoPackage| package_lt(package_view(a), package_view(b))
}

pub open spec fn exec_dep_lt() -> spec_fn(NativeDependency, NativeDependency) -> bool {
    |a: NativeDependency, b: NativeDependency| dep_lt(dep_view(a), dep_view(b))
}

pub open spec fn exec_dep_same() -> spec_fn(NativeDependency, NativeDependency) -> bool {
    |a: NativeDependency, b: NativeDependency| dep_same(dep_view(a), dep_view(b))
}

pub open spec fn exec_string_lt() -> spec_fn(String, String) -> bool {
    |a: String, b: String| string_lt(a@, b@)
}

/// What `cargo metadata`'s parsed output reports (`root` is the project
/// root, `declares` whether `Cargo.toml` has a `[workspace]` line and
/// `lock_found` whether `Cargo.lock` is a file at the workspace root).
pub fn cargo_from_metadata(m: &JsonValue, root: &str, declares: bool, lock_found: bool) -> (c: CargoObservation)
    ensures
        cargo_view(c) == spec_cargo_metadata(*m, root@, declares, lock_found),
{
    let ws = metadata_root_of(m, root);
    let members = items_ref(get(m, "workspace_members"));
    let empty: Vec<JsonValue> = Vec::new();
    let ps: &Vec<JsonValue> = match items_ref(get(m, "packages")) {
        Some(xs) => xs,
        None => &empty,
    };
    let ghost ms = items_of(json_index(*m, "workspace_members"@));
    assert(ms == opt_items(members));
    assert(ps@ == items_of(json_index(*m, "packages"@)));
    let unsorted = packages_of(ps, members, root);
    let ghost pu = unsorted@;
    let plt = |a: &CargoPackage, b: &CargoPackage| -> (res: bool)
        ensures
            res == package_lt(package_view(*a), package_view(*b)),
        { crate::order::str_lt(a.name.as_str(), b.name.as_str()) };
    let packages = crate::order::sort_vec_by(unsorted, plt, Ghost(exec_package_lt()));
    proof {
        crate::order::lemma_sort_by_map(
            pu,
            |p: CargoPackage| package_view(p),
            exec_package_lt(),
            |a: PackageView, b: PackageView| package_lt(a, b),
        );
    }
    let mut names: Vec<String> = Vec::new();
    let ghost pv = packages@.map_values(|p: CargoPackage| package_view(p));
    let mut i: usize = 0;
    while i < packages.len()
        invariant
            i <= packages.len(),
            pv == packages@.map_values(|p: CargoPackage| package_view(p)),
            views(names@) == member_names(pv.take(i as int)),
        decreases packages.len() - i,
    {
        assert(pv.take(i + 1).drop_last() =~= pv.take(i as int));
        let ghost pre = views(names@);
        if packages[i].workspace_member {
            names.push(packages[i].name.clone());
            assert(views(names@) =~= pre.push(pv[i as int].0));
        } else {
            assert(views(names@) =~= pre + Seq::<Seq<char>>::empty());
        }
        i += 1;
    }
    assert(pv.take(packages.len() as int) =~= pv);
    let ghost nu = names@;
    let slt = |a: &String, b: &String| -> (res: bool)
        ensures
            res == string_lt(a@, b@),
        { crate::order::str_lt(a.as_str(), b.as_str()) };
    let members_sorted = crate::order::sort_vec_by(names, slt, Ghost(exec_string_lt()));
    proof {
        crate::order::lemma_sort_by_map(nu, |s: String| s@, exec_string_lt(), |a: Seq<char>, b: Seq<char>| string_lt(a, b));
        assert(nu.map_values(|s: String| s@) =~= views(nu));
        assert(members_sorted@.map_values(|s: String| s@) =~= views(members_sorted@));
    }
    let all_deps = deps_of(ps);
    let ghost du = all_deps@;
    let dlt = |a: &NativeDependency, b: &NativeDependency| -> (res: bool)
        ensures
            res == dep_lt(dep_view(*a), dep_view(*b)),
        {
            crate::order::str_lt(a.name.as_str(), b.name.as_str()) || (str_eq(a.name.as_str(), b.name.as_str())
                && crate::order::str_lt(a.kind.as_str(), b.kind.as_str())) || (str_eq(a.name.as_str(), b.name.as_str())
                && str_eq(a.kind.as_str(), b.kind.as_str()) && crate::order::str_lt(
                a.specifier.as_str(),
                b.specifier.as_str(),
            ))
        };
    let sorted_deps = crate::order::sort_vec_by(all_deps, dlt, Ghost(exec_dep_lt()));
    let ghost ds = sorted_deps@;
    let dsame = |a: &NativeDependency, b: &NativeDependency| -> (res: bool)
        ensures
            res == dep_same(dep_view(*a), dep_view(*b)),
        {
            str_eq(a.name.as_str(), b.name.as_str()) && str_eq(a.kind.as_str(), b.kind.as_str()) && str_eq(
                a.specifier.as_str(),
                b.specifier.as_str(),
            )
        };
    let deps = crate::order::dedup_vec_by(sorted_deps, dsame, Ghost(exec_dep_same()));
    proof {
        crate::order::lemma_sort_by_map(du, |d: NativeDependency| dep_view(d), exec_dep_lt(), |a: DepView, b: DepView| dep_lt(a, b));
        crate::order::lemma_dedup_by_map(
            ds,
            |d: NativeDependency| dep_view(d),
            exec_dep_same(),
            |a: DepView, b: DepView| dep_same(a, b),
        );
        assert(du.map_values(|d: NativeDependency| dep_view(d)) =~= deps_view(du));
        assert(ds.map_values(|d: NativeDependency| dep_view(d)) =~= deps_view(ds));
        assert(deps@.map_values(|d: NativeDependency| dep_view(d)) =~= deps_view(deps@));
    }
    let lockfile = if lock_found {
        let lock_path = join_path(ws.as_str(), "Cargo.lock");
        Some(display_path(lock_path.as_str(), root))
    } else {
        None
    };
    CargoObservation {
        manifest: copy_str("Cargo.toml"),
        lockfile,
        workspace: declares,
        workspace_root: display_path(ws.as_str(), root),
        workspace_members: members_sorted,
        packages,
        dependencies: deps,
        source: copy_str("cargo metadata --no-deps --offline"),
    }
}

/// What reading the text of `Cargo.toml` alone reports.
pub fn cargo_from_manifest(text: &str, lock_at_root: bool) -> (c: CargoObservation)
    ensures
        cargo_view(c) == spec_cargo_fallback(text@, lock_at_root),
{
    let name = manifest_package_name(text);
    let listed = parse_toml_list(text, "[workspace]", "members");
    let mut members: Vec<String> = Vec::new();
    let mut packages: Vec<CargoPackage> = Vec::new();
    match &name {
        Some(n) => {
            members.push(n.clone());
            packages.push(CargoPackage { name: n.clone(), manifest_path: copy_str("Cargo.toml"), workspace_member: true });
        },
        None => {},
    }
    let ghost m0 = views(members@);
    crate::operations::extend_strings(&mut members, listed.as_slice());
    let deps: Vec<NativeDependency> = Vec::new();
    let c = CargoObservation {
        manifest: copy_str("Cargo.toml"),
        lockfile: if lock_at_root {
            Some(copy_str("Cargo.lock"))
        } else {
            None
        },
        workspace: manifest_declares_workspace(text),
        workspace_root: copy_str("."),
        workspace_members: members,
        packages,
        dependencies: deps,
        source: copy_str("Cargo.toml fallback"),
    };
    assert(deps_view(c.dependencies@) =~= seq![]);
    assert(views(c.workspace_members@) =~= (match manifest_name(crate::text::lines(text@)) {
        Some(n) => seq![n],
        None => seq![],
    }) + spec_toml_list(text@, "[workspace]"@, "members"@));
    assert(c.packages@.map_values(|p: CargoPackage| package_view(p)) =~= match manifest_name(crate::text::lines(text@)) {
        Some(n) => seq![(n, "Cargo.toml"@, true)],
        None => seq![],
    });
    c
}

/// What Cargo reports of a project: `None` when the root has no
/// `Cargo.toml`; from `cargo metadata`'s output when it ran and printed JSON
/// (`metadata_lock`: whether the probe `cargo_lock_probe` names is a file);
/// else from `Cargo.toml`.
pub fn detect_cargo(root: &DirFacts, metadata: Option<&[u8]>, metadata_lock: bool) -> (r: Option<CargoObservation>)
    ensures
        match r {
            Some(c) => spec_detect_cargo(*root, match metadata {
                Some(b) => Some(b@),
                None => None,
            }, metadata_lock) == Some(cargo_view(c)),
            None => spec_detect_cargo(*root, match metadata {
                Some(b) => Some(b@),
                None => None,
            }, metadata_lock) is None,
        },
{
    if !crate::manager::contains_string(root.files.as_slice(), "Cargo.toml") {
        return None;
    }
    let text = match crate::components::read_text(root, "Cargo.toml") {
        Some(t) => t.clone(),
        None => String::new(),
    };
    let declares = manifest_declares_workspace(text.as_str());
    let parsed = match metadata {
        Some(bytes) => parse_json_bytes(bytes),
        None => None,
    };
    match parsed {
        Some(m) => Some(cargo_from_metadata(&m, root.path.as_str(), declares, metadata_lock)),
        None => {
            let lock = crate::manager::contains_string(root.files.as_slice(), "Cargo.lock");
            Some(cargo_from_manifest(text.as_str(), lock))
        },
    }
}

// ---------------------------------------------------------------------------
// The report's order
// ---------------------------------------------------------------------------
proof fn lemma_lex_order()
    ensures
        crate::order::strict_weak(|a: Seq<char>, b: Seq<char>| lex_lt(a, b)),
{
    let lt = |a: Seq<char>, b: Seq<char>| lex_lt(a, b);
    assert forall|a: Seq<char>| !#[trigger] lt(a, a) by {
        crate::order::lemma_lex_irreflexive(a);
    }
    assert forall|a: Seq<char>, b: Seq<char>, c: Seq<char>| #![trigger lt(a, b), lt(b, c)] lt(a, b) && lt(b, c) implies lt(a, c) by {
        crate::order::lemma_lex_transitive(a, b, c);
    }
    assert forall|a: Seq<char>, b: Seq<char>, c: Seq<char>| #![trigger lt(a, c), lt(a, b)] #![trigger lt(a, c), lt(b, c)] lt(a, c) implies lt(a, b) || lt(b, c) by {
        crate::order::lemma_lex_total(a, b);
        crate::order::lemma_lex_total(b, c);
        if lt(b, a) && lt(c, b) {
            crate::order::lemma_lex_transitive(c, b, a);
            crate::order::lemma_lex_total(a, c);
        }
        if a == b || b == c {
        }
    }
}

proof fn lemma_package_order()
    ensures
        crate::order::strict_weak(|a: PackageView, b: PackageView| package_lt(a, b)),
{
    lemma_lex_order();
    let lt = |a: PackageView, b: PackageView| package_lt(a, b);
    let sl = |a: Seq<char>, b: Seq<char>| lex_lt(a, b);
    assert forall|a: PackageView| !#[trigger] lt(a, a) by {
        assert(!sl(a.0, a.0));
    }
    assert forall|a: PackageView, b: PackageView, c: PackageView| #![trigger lt(a, b), lt(b, c)] lt(a, b) && lt(b, c) implies lt(a, c) by {
        assert(sl(a.0, b.0) && sl(b.0, c.0));
    }
    assert forall|a: PackageView, b: PackageView, c: PackageView| #![trigger lt(a, c), lt(a, b)] #![trigger lt(a, c), lt(b, c)] lt(a, c) implies lt(a, b) || lt(b, c) by {
        crate::order::lemma_lex_total(a.0, b.0);
        crate::order::lemma_lex_total(b.0, c.0);
        if sl(b.0, a.0) && sl(c.0, b.0) {
            crate::order::lemma_lex_transitive(c.0, b.0, a.0);
            crate::order::lemma_lex_total(a.0, c.0);
        }
    }
}

proof fn lemma_dep_order()
    ensures
        crate::order::strict_weak(|a: DepView, b: DepView| dep_lt(a, b)),
        forall|a: DepView, b: DepView| #[trigger] dep_same(a, b) <== !dep_lt(a, b) && !dep_lt(b, a),
{
    lemma_lex_order();
    let lt = |a: DepView, b: DepView| dep_lt(a, b);
    let sl = |a: Seq<char>, b: Seq<char>| lex_lt(a, b);
    assert forall|a: DepView| !#[trigger] lt(a, a) by {
        assert(!sl(a.0, a.0) && !sl(a.1, a.1) && !sl(a.2, a.2));
    }
    assert forall|a: DepView, b: DepView, c: DepView| #![trigger lt(a, b), lt(b, c)] lt(a, b) && lt(b, c) implies lt(a, c) by {
        if sl(a.0, b.0) && sl(b.0, c.0) {
        }
        if sl(a.2, b.2) && sl(b.2, c.2) {
        }
        if sl(a.1, b.1) && sl(b.1, c.1) {
        }
    }
    assert forall|a: DepView, b: DepView, c: DepView| #![trigger lt(a, c), lt(a, b)] #![trigger lt(a, c), lt(b, c)] lt(a, c) implies lt(a, b) || lt(b, c) by {
        if !lt(a, b) && !lt(b, c) {
            crate::order::lemma_lex_total(a.0, b.0);
            crate::order::lemma_lex_total(b.0, c.0);
            crate::order::lemma_lex_total(a.2, b.2);
            crate::order::lemma_lex_total(b.2, c.2);
            crate::order::lemma_lex_total(a.1, b.1);
            crate::order::lemma_lex_total(b.1, c.1);
            if sl(a.0, c.0) {
                assert(sl(a.0, c.0) ==> sl(a.0, b.0) || sl(b.0, c.0));
            }
            if a.0 == c.0 && sl(a.2, c.2) {
                assert(sl(a.2, c.2) ==> sl(a.2, b.2) || sl(b.2, c.2));
            }
            if a.0 == c.0 && a.2 == c.2 && sl(a.1, c.1) {
                assert(sl(a.1, c.1) ==> sl(a.1, b.1) || sl(b.1, c.1));
            }
        }
    }
    assert forall|a: DepView, b: DepView| !dep_lt(a, b) && !dep_lt(b, a) implies #[trigger] dep_same(a, b) by {
        crate::order::lemma_lex_total(a.0, b.0);
        crate::order::lemma_lex_total(a.1, b.1);
        crate::order::lemma_lex_total(a.2, b.2);
    }
}

/// What `cargo metadata` gives is reported in order: the packages by name
/// (two packages of one name both stay); the workspace members by name,
/// being exactly the names of the member packages; and the dependencies
/// strictly by name, then kind, then specifier, so that no two agree on all
/// three.
pub proof fn law_cargo_metadata_ordered(m: JsonValue, root: Seq<char>, declares: bool, lock_found: bool)
    ensures
        crate::order::is_sorted_by(
            spec_cargo_metadata(m, root, declares, lock_found).packages,
            |a: PackageView, b: PackageView| package_lt(a, b),
        ),
        crate::order::is_sorted_by(
            spec_cargo_metadata(m, root, declares, lock_found).workspace_members,
            |a: Seq<char>, b: Seq<char>| string_lt(a, b),
        ),
        spec_cargo_metadata(m, root, declares, lock_found).workspace_members.to_multiset() =~= member_names(
            spec_cargo_metadata(m, root, declares, lock_found).packages,
        ).to_multiset(),
        crate::order::is_increasing_by(
            spec_cargo_metadata(m, root, declares, lock_found).dependencies,
            |a: DepView, b: DepView| dep_lt(a, b),
        ),
{
    let c = spec_cargo_metadata(m, root, declares, lock_found);
    let ps = items_of(json_index(m, "packages"@));
    lemma_package_order();
    lemma_lex_order();
    lemma_dep_order();
    crate::order::lemma_sort_by_sorted(
        metadata_packages(ps, items_of(json_index(m, "workspace_members"@)), root),
        |a: PackageView, b: PackageView| package_lt(a, b),
    );
    let sl = |a: Seq<char>, b: Seq<char>| string_lt(a, b);
    assert(sl == |a: Seq<char>, b: Seq<char>| lex_lt(a, b));
    crate::order::lemma_sort_by_sorted(member_names(c.packages), sl);
    crate::order::lemma_sort_by_permutes(member_names(c.packages), sl);
    let dl = |a: DepView, b: DepView| dep_lt(a, b);
    crate::order::lemma_sort_by_sorted(metadata_deps(ps), dl);
    crate::order::lemma_dedup_sorted(sort_by(metadata_deps(ps), dl), dl, |a: DepView, b: DepView| dep_same(a, b));
}

/// Where `Cargo.toml` is a file at the root and `cargo metadata` answered
/// with JSON, Cargo's report comes from it: its source says so, the manifest
/// is `Cargo.toml`, the workspace flag is whether `Cargo.toml` declares a
/// workspace; packages are ordered by name, the workspace members are the
/// member packages' names in order, and the dependencies are strictly
/// ordered by name, kind and specifier.
pub proof fn law_detect_cargo_from_metadata(root: DirFacts, metadata: Seq<u8>, metadata_lock: bool)
    requires
        files_of(root).contains("Cargo.toml"@),
        json_from_bytes(metadata) is Some,
    ensures
        spec_detect_cargo(root, Some(metadata), metadata_lock) matches Some(o) && {
            &&& o.source == "cargo metadata --no-deps --offline"@
            &&& o.manifest == "Cargo.toml"@
            &&& o.workspace == declares_workspace(crate::text::lines(text_or_empty(root, "Cargo.toml"@)))
            &&& crate::order::is_sorted_by(o.packages, |a: PackageView, b: PackageView| package_lt(a, b))
            &&& crate::order::is_sorted_by(o.workspace_members, |a: Seq<char>, b: Seq<char>| string_lt(a, b))
            &&& o.workspace_members.to_multiset() =~= member_names(o.packages).to_multiset()
            &&& crate::order::is_increasing_by(o.dependencies, |a: DepView, b: DepView| dep_lt(a, b))
        },
{
    let m = json_from_bytes(metadata).unwrap();
    law_cargo_metadata_ordered(
        m,
        root.path@,
        declares_workspace(crate::text::lines(text_or_empty(root, "Cargo.toml"@))),
        metadata_lock,
    );
}

} // verus!
