//! Detection of a project: its package manager, workspace, components,
//! dependencies and Cargo view, from what was read in its directories.
use vstd::prelude::*;

use crate::cargo::{cargo_view, detect_cargo, spec_detect_cargo, CargoView};
use crate::components::{
    container_in, detect_components, files_of, js_lock_names, opt_seq, spec_components, tagged, text_or_empty,
    walk_container, walk_deps, DirFacts,
};
use crate::json::json_from_text;
use crate::manager::{select_manager, spec_selected_manager, spec_selection_notes};
use crate::manifests::{package_json_of, pnpm_entries, pnpm_workspace_packages, read_package_json};
use crate::model::{
    cli_error, components_view, deps_view, evidence_view, strings_view, CliError, Component,
    ComponentView, DepView, Ecosystem, EvidenceItem, NativeDependency, PackageJsonData,
    RepositoryDetection,
};
use crate::paths::{file_name, join_path, path_file_name, path_joined};
use crate::plan::{present, push_present};
use crate::seqs::first_index;
use crate::text::{concat, copy_str, opt_view, starts_with, str_eq, views};

verus! {

/// What was read of a project.
#[derive(Debug)]
pub struct ProjectFacts {
    /// The project root.
    pub root: DirFacts,
    /// The other directories of the walk from the root, in walk order.
    pub subdirs: Vec<DirFacts>,
    /// When `package.json` is a file at the root: its text, or the reason
    /// reading it failed.
    pub package_json: Option<Result<String, String>>,
    /// What `cargo metadata` printed, when it ran and succeeded.
    pub cargo_metadata: Option<Vec<u8>>,
    /// Whether the file that `cargo_lock_probe` names exists.
    pub cargo_metadata_lock: bool,
}

pub open spec fn all_dirs(f: ProjectFacts) -> Seq<DirFacts> {
    seq![f.root] + f.subdirs@
}

pub open spec fn metadata_of(f: ProjectFacts) -> Option<Seq<u8>> {
    match f.cargo_metadata {
        Some(b) => Some(b@),
        None => None,
    }
}

pub open spec fn spec_cargo(f: ProjectFacts) -> Option<CargoView> {
    spec_detect_cargo(f.root, metadata_of(f), f.cargo_metadata_lock)
}

pub open spec fn package_json_path(f: ProjectFacts) -> Seq<char> {
    path_joined(f.root.path@, "package.json"@)
}

/// The error detection ends with, if any: `package.json` could not be read,
/// or is not JSON.
pub open spec fn detection_error(f: ProjectFacts) -> Option<Seq<char>> {
    match f.package_json {
        Some(Err(e)) => Some("failed to read "@ + package_json_path(f) + ": "@ + e@),
        Some(Ok(t)) => match json_from_text(t@) {
            Err(m) => Some("failed to parse "@ + package_json_path(f) + ": "@ + m),
            Ok(_) => None,
        },
        None => None,
    }
}

pub open spec fn field_of(data: Option<PackageJsonData>) -> Option<Seq<char>> {
    match data {
        Some(d) => opt_view(d.package_manager_field),
        None => None,
    }
}

pub open spec fn spec_workspace_source(data: Option<PackageJsonData>, files: Seq<Seq<char>>) -> Option<Seq<char>> {
    if data matches Some(d) && d.has_workspaces {
        Some("package.json#workspaces"@)
    } else if files.contains("pnpm-workspace.yaml"@) {
        Some("pnpm-workspace.yaml"@)
    } else {
        None
    }
}

pub open spec fn spec_workspace_packages(data: Option<PackageJsonData>, root: DirFacts) -> Seq<Seq<char>> {
    if data matches Some(d) && d.workspace_packages.len() > 0 {
        strings_view(data.unwrap().workspace_packages)
    } else if files_of(root).contains("pnpm-workspace.yaml"@) {
        pnpm_entries(crate::text::lines(text_or_empty(root, "pnpm-workspace.yaml"@)))
    } else {
        seq![]
    }
}

pub open spec fn spec_notes(data: Option<PackageJsonData>, f: ProjectFacts) -> Seq<Seq<char>> {
    if spec_cargo(f) is Some && f.package_json is None {
        seq!["Cargo.toml selects Cargo"@]
    } else {
        spec_selection_notes(field_of(data), present(js_lock_names(), files_of(f.root)))
    }
}

/// The name of the package Cargo reports for the root manifest.
pub open spec fn at_manifest(m: Seq<char>) -> spec_fn(crate::cargo::PackageView) -> bool {
    |p: crate::cargo::PackageView| p.1 == m
}

pub open spec fn cargo_root_package(c: CargoView) -> Option<Seq<char>> {
    match first_index(c.packages, at_manifest(c.manifest)) {
        Some(i) => Some(c.packages[i].0),
        None => None,
    }
}

pub open spec fn spec_project_name(data: Option<PackageJsonData>, f: ProjectFacts) -> Seq<char> {
    let from_cargo = match spec_cargo(f) {
        Some(c) => cargo_root_package(c),
        None => None,
    };
    if data matches Some(d) && d.name is Some {
        data.unwrap().name.unwrap()@
    } else if from_cargo is Some {
        from_cargo.unwrap()
    } else {
        match path_file_name(f.root.path@) {
            Some(n) => n,
            None => "unknown-project"@,
        }
    }
}

/// The items of `ev` that are not lockfiles.
pub open spec fn non_lock_evidence(ev: Seq<(Seq<char>, Seq<char>)>) -> Seq<(Seq<char>, Seq<char>)>
    decreases ev.len(),
{
    if ev.len() == 0 {
        seq![]
    } else {
        non_lock_evidence(ev.drop_last()) + if ev.last().0 != "lockfile"@ {
            seq![ev.last()]
        } else {
            seq![]
        }
    }
}

pub open spec fn is_root_rust(c: ComponentView) -> bool {
    c.ecosystem == Ecosystem::Rust && c.path == "."@
}

/// The root Rust component, with Cargo's members and lockfile.
pub open spec fn with_cargo(x: ComponentView, c: CargoView) -> ComponentView {
    ComponentView {
        workspace_packages: c.workspace_members,
        lockfiles: opt_seq(c.lockfile),
        evidence: non_lock_evidence(x.evidence) + tagged("lockfile"@, opt_seq(c.lockfile)),
        ..x
    }
}

pub open spec fn adjust_components(cs: Seq<ComponentView>, cargo: Option<CargoView>) -> Seq<ComponentView> {
    match cargo {
        Some(c) => match first_index(cs, |x: ComponentView| is_root_rust(x)) {
            Some(i) => cs.update(i, with_cargo(cs[i], c)),
            None => cs,
        },
        None => cs,
    }
}

/// The dependencies that are not Rust ones.
pub open spec fn non_rust(ds: Seq<DepView>) -> Seq<DepView>
    decreases ds.len(),
{
    if ds.len() == 0 {
        seq![]
    } else {
        non_rust(ds.drop_last()) + if ds.last().3 != Ecosystem::Rust {
            seq![ds.last()]
        } else {
            seq![]
        }
    }
}

/// Where `cargo metadata` answered, its dependencies replace the Rust ones
/// read from manifests.
pub open spec fn adjust_native(ds: Seq<DepView>, cargo: Option<CargoView>) -> Seq<DepView> {
    match cargo {
        Some(c) => if starts_with(c.source, "cargo metadata"@) {
            non_rust(ds) + c.dependencies
        } else {
            ds
        },
        None => ds,
    }
}

/// `det` is what detection reports of a project whose facts are `f`.
pub open spec fn spec_detection(f: ProjectFacts, det: RepositoryDetection) -> bool {
    let files = files_of(f.root);
    let data = det.package_json_data;
    let locks = present(js_lock_names(), files);
    &&& det.root@ == f.root.path@
    &&& det.package_json == f.package_json is Some
    &&& match (f.package_json, data) {
        (Some(Ok(t)), Some(d)) => json_from_text(t@) matches Ok(v) && package_json_of(d, v),
        (None, None) => true,
        _ => false,
    }
    &&& views(det.workspace_files@) == present(seq!["pnpm-workspace.yaml"@], files)
    &&& views(det.lockfiles@) == locks
    &&& opt_view(det.workspace_source) == spec_workspace_source(data, files)
    &&& det.workspace == spec_workspace_source(data, files) is Some
    &&& views(det.workspace_packages@) == spec_workspace_packages(data, f.root)
    &&& match det.manager {
        Some(m) => spec_selected_manager(field_of(data), locks) == Some(m@),
        None => spec_selected_manager(field_of(data), locks) is None,
    }
    &&& views(det.selection_notes@) == spec_notes(data, f)
    &&& det.project_name@ == spec_project_name(data, f)
    &&& components_view(det.components@) == adjust_components(spec_components(f.root, all_dirs(f)), spec_cargo(f))
    &&& deps_view(det.native_dependencies@) == adjust_native(walk_deps(all_dirs(f), f.root.path@), spec_cargo(f))
    &&& container_in(det.container) == walk_container(all_dirs(f), f.root.path@)
    &&& match det.cargo {
        Some(c) => spec_cargo(f) == Some(cargo_view(c)),
        None => spec_cargo(f) is None,
    }
}

fn first_root_rust(cs: &Vec<Component>) -> (r: Option<usize>)
    ensures
        match r {
            Some(i) => first_index(components_view(cs@), |x: ComponentView| is_root_rust(x)) == Some(i as int),
            None => first_index(components_view(cs@), |x: ComponentView| is_root_rust(x)) is None,
        },
{
    let ghost cv = components_view(cs@);
    let ghost p = |x: ComponentView| is_root_rust(x);
    let mut i: usize = 0;
    while i < cs.len()
        invariant
            i <= cs.len(),
            cv == components_view(cs@),
            p == |x: ComponentView| is_root_rust(x),
            forall|k: int| 0 <= k < i ==> !p(#[trigger] cv[k]),
        decreases cs.len() - i,
    {
        let rust = match cs[i].ecosystem {
            Ecosystem::Rust => true,
            _ => false,
        };
        if rust && str_eq(cs[i].path.as_str(), ".") {
            proof {
                assert(p(cv[i as int]));
                crate::seqs::lemma_first_index_at(cv, p, i as int);
            }
            return Some(i);
        }
        assert(!p(cv[i as int]));
        i += 1;
    }
    proof {
        crate::seqs::lemma_first_index_none(cv, p);
    }
    None
}

fn lock_items(lockfile: &Option<String>) -> (r: Vec<String>)
    ensures
        views(r@) == opt_seq(opt_view(*lockfile)),
{
    let mut r: Vec<String> = Vec::new();
    match lockfile {
        Some(l) => {
            r.push(l.clone());
        },
        None => {},
    }
    assert(views(r@) =~= opt_seq(opt_view(*lockfile)));
    r
}

fn adjust_root_rust(components: &mut Vec<Component>, cargo: &crate::model::CargoObservation)
    ensures
        components_view(final(components)@) == adjust_components(components_view(old(components)@), Some(cargo_view(*cargo))),
{
    let ghost cv = components_view(components@);
    match first_root_rust(components) {
        Some(i) => {
            proof {
                crate::seqs::lemma_first_index_bounds(cv, |x: ComponentView| is_root_rust(x));
            }
            let mut c = components.remove(i);
            c.workspace_packages = crate::plan::clone_strings(&cargo.workspace_members);
            c.lockfiles = lock_items(&cargo.lockfile);
            let ghost ev = evidence_view(c.evidence@);
            let mut kept: Vec<EvidenceItem> = Vec::new();
            let mut k: usize = 0;
            while k < c.evidence.len()
                invariant
                    k <= c.evidence.len(),
                    ev == evidence_view(c.evidence@),
                    evidence_view(kept@) == non_lock_evidence(ev.take(k as int)),
                decreases c.evidence.len() - k,
            {
                assert(ev.take(k + 1).drop_last() =~= ev.take(k as int));
                let ghost pre = evidence_view(kept@);
                if !str_eq(c.evidence[k].kind.as_str(), "lockfile") {
                    kept.push(EvidenceItem { kind: c.evidence[k].kind.clone(), path: c.evidence[k].path.clone() });
                    assert(evidence_view(kept@) =~= pre.push(ev[k as int]));
                } else {
                    assert(evidence_view(kept@) =~= pre + Seq::<(Seq<char>, Seq<char>)>::empty());
                }
                k += 1;
            }
            assert(ev.take(c.evidence.len() as int) =~= ev);
            let locks = lock_items(&cargo.lockfile);
            crate::components::push_evidence(&mut kept, "lockfile", &locks);
            c.evidence = kept;
            let ghost cc = c@;
            components.insert(i, c);
            proof {
                crate::seqs::lemma_first_index_bounds(cv, |x: ComponentView| is_root_rust(x));
                assert(cc == with_cargo(cv[i as int], cargo_view(*cargo)));
                assert(components_view(components@) =~= cv.update(i as int, cc));
            }
        },
        None => {},
    }
}

fn adjust_deps(deps: Vec<NativeDependency>, cargo: &crate::model::CargoObservation) -> (r: Vec<NativeDependency>)
    ensures
        deps_view(r@) == adjust_native(deps_view(deps@), Some(cargo_view(*cargo))),
{
    if !crate::text::starts_with_str(cargo.source.as_str(), "cargo metadata") {
        return deps;
    }
    let ghost dv = deps_view(deps@);
    let mut r: Vec<NativeDependency> = Vec::new();
    let mut i: usize = 0;
    while i < deps.len()
        invariant
            i <= deps.len(),
            dv == deps_view(deps@),
            deps_view(r@) == non_rust(dv.take(i as int)),
        decreases deps.len() - i,
    {
        assert(dv.take(i + 1).drop_last() =~= dv.take(i as int));
        let ghost pre = deps_view(r@);
        let rust = match deps[i].ecosystem {
            Ecosystem::Rust => true,
            _ => false,
        };
        if !rust {
            r.push(crate::output::copy_dependency(&deps[i]));
            assert(deps_view(r@) =~= pre.push(dv[i as int]));
        } else {
            assert(deps_view(r@) =~= pre + Seq::<DepView>::empty());
        }
        i += 1;
    }
    assert(dv.take(deps.len() as int) =~= dv);
    let more = crate::output::copy_dependencies(&cargo.dependencies);
    let ghost pre = deps_view(r@);
    let mut more = more;
    r.append(&mut more);
    assert(deps_view(r@) =~= pre + deps_view(cargo.dependencies@));
    r
}

fn project_name_of(
    data: &Option<PackageJsonData>,
    cargo: &Option<crate::model::CargoObservation>,
    root: &str,
) -> (r: String)
    ensures
        r@ == ({
            let from_cargo = match *cargo {
                Some(c) => cargo_root_package(cargo_view(c)),
                None => None,
            };
            if *data matches Some(d) && d.name is Some {
                data.unwrap().name.unwrap()@
            } else if from_cargo is Some {
                from_cargo.unwrap()
            } else {
                match path_file_name(root@) {
                    Some(n) => n,
                    None => "unknown-project"@,
                }
            }
        }),
{
    match data {
        Some(d) => match &d.name {
            Some(n) => return n.clone(),
            None => {},
        },
        None => {},
    }
    match cargo {
        Some(c) => {
            let ghost cv = cargo_view(*c);
            let ghost p = at_manifest(cv.manifest);
            let ghost pv = c.packages@.map_values(|q: crate::model::CargoPackage| crate::cargo::package_view(q));
            let mut i: usize = 0;
            while i < c.packages.len()
                invariant
                    i <= c.packages.len(),
                    cv == cargo_view(*c),
                    pv == cv.packages,
                    p == at_manifest(cv.manifest),
                    !(*data matches Some(d) && d.name is Some),
                    *cargo == Some(*c),
                    forall|k: int| 0 <= k < i ==> !p(#[trigger] pv[k]),
                decreases c.packages.len() - i,
            {
                if str_eq(c.packages[i].manifest_path.as_str(), c.manifest.as_str()) {
                    proof {
                        assert(pv[i as int] == crate::cargo::package_view(c.packages@[i as int]));
                        assert(p(pv[i as int]));
                        crate::seqs::lemma_first_index_at(pv, p, i as int);
                        assert(cargo_root_package(cv) == Some(pv[i as int].0));
                        assert(*cargo == Some(*c));
                    }
                    return c.packages[i].name.clone();
                }
                assert(!p(pv[i as int]));
                i += 1;
            }
            proof {
                crate::seqs::lemma_first_index_none(pv, p);
            }
        },
        None => {},
    }
    match file_name(root) {
        Some(n) => n,
        None => copy_str("unknown-project"),
    }
}

/// Detection of a project from what was read of it. Fails, with exit code
/// 1, when `package.json` is a file that could not be read or is not JSON.
pub fn detect_repository(f: &ProjectFacts) -> (r: Result<RepositoryDetection, CliError>)
    ensures
        match detection_error(*f) {
            Some(m) => r matches Err(e) && e.exit_code == 1 && e.message@ == m,
            None => r matches Ok(det) && spec_detection(*f, det),
        },
{
    let root = &f.root;
    let cargo = detect_cargo(
        root,
        match &f.cargo_metadata {
            Some(b) => Some(b.as_slice()),
            None => None,
        },
        f.cargo_metadata_lock,
    );
    let data: Option<PackageJsonData> = match &f.package_json {
        Some(Err(e)) => {
            let path = join_path(root.path.as_str(), "package.json");
            let head = concat("failed to read ", path.as_str());
            let head = concat(head.as_str(), ": ");
            let message = concat(head.as_str(), e.as_str());
            return Err(cli_error(message, 1));
        },
        Some(Ok(text)) => {
            let path = join_path(root.path.as_str(), "package.json");
            match read_package_json(path.as_str(), text.as_str()) {
                Ok(d) => Some(d),
                Err(e) => return Err(e),
            }
        },
        None => None,
    };
    let pnpm = ["pnpm-workspace.yaml"];
    assert(pnpm@.map_values(|s: &str| s@) =~= seq!["pnpm-workspace.yaml"@]);
    let mut workspace_files: Vec<String> = Vec::new();
    push_present(&mut workspace_files, pnpm.as_slice(), root.files.as_slice());
    assert(views(workspace_files@) =~= present(seq!["pnpm-workspace.yaml"@], files_of(*root)));
    let lock_names = ["bun.lock", "bun.lockb", "pnpm-lock.yaml", "yarn.lock", "package-lock.json"];
    assert(lock_names@.map_values(|s: &str| s@) =~= js_lock_names());
    let mut lockfiles: Vec<String> = Vec::new();
    push_present(&mut lockfiles, lock_names.as_slice(), root.files.as_slice());
    assert(views(lockfiles@) =~= present(js_lock_names(), files_of(*root)));
    let has_pnpm = crate::manager::contains_string(root.files.as_slice(), "pnpm-workspace.yaml");
    let declared_workspaces = match &data {
        Some(d) => d.has_workspaces,
        None => false,
    };
    let workspace_source = if declared_workspaces {
        Some(copy_str("package.json#workspaces"))
    } else if has_pnpm {
        Some(copy_str("pnpm-workspace.yaml"))
    } else {
        None
    };
    let workspace = workspace_source.is_some();
    let listed = match &data {
        Some(d) => d.workspace_packages.len() > 0,
        None => false,
    };
    let workspace_packages = if listed {
        match &data {
            Some(d) => crate::plan::clone_strings(&d.workspace_packages),
            None => Vec::new(),
        }
    } else if has_pnpm {
        let text = match crate::components::read_text(root, "pnpm-workspace.yaml") {
            Some(t) => t.clone(),
            None => String::new(),
        };
        pnpm_workspace_packages(text.as_str())
    } else {
        let v: Vec<String> = Vec::new();
        assert(views(v@) =~= seq![]);
        v
    };
    let (manager, notes) = select_manager(
        match &data {
            Some(d) => Some(d),
            None => None,
        },
        lockfiles.as_slice(),
    );
    let selection_notes = if cargo.is_some() && f.package_json.is_none() {
        let mut v: Vec<String> = Vec::new();
        v.push(copy_str("Cargo.toml selects Cargo"));
        assert(views(v@) =~= seq!["Cargo.toml selects Cargo"@]);
        v
    } else {
        notes
    };
    let project_name = project_name_of(&data, &cargo, root.path.as_str());
    let (mut components, native, container) = detect_components(root, &f.subdirs);
    let native_dependencies = match &cargo {
        Some(c) => {
            adjust_root_rust(&mut components, c);
            adjust_deps(native, c)
        },
        None => native,
    };
    Ok(
        RepositoryDetection {
            root: root.path.clone(),
            project_name,
            package_json: f.package_json.is_some(),
            package_json_data: data,
            workspace,
            workspace_source,
            manager,
            lockfiles,
            workspace_files,
            workspace_packages,
            selection_notes,
            components,
            native_dependencies,
            container,
            cargo,
        },
    )
}

/// Where `cargo metadata` answered, the root Rust component lists exactly
/// the workspace members Cargo resolved, and the lockfile Cargo names.
pub proof fn law_cargo_metadata_sets_root_members(f: ProjectFacts, det: RepositoryDetection, i: int)
    requires
        spec_detection(f, det),
        spec_cargo(f) is Some,
        0 <= i < det.components@.len(),
        det.components@[i].ecosystem == Ecosystem::Rust,
        det.components@[i].path@ == "."@,
        forall|k: int| 0 <= k < i ==> !is_root_rust(#[trigger] det.components@[k]@),
    ensures
        views(det.components@[i].workspace_packages@) == spec_cargo(f).unwrap().workspace_members,
        views(det.components@[i].lockfiles@) == opt_seq(spec_cargo(f).unwrap().lockfile),
{
    let cs = spec_components(f.root, all_dirs(f));
    let c = spec_cargo(f).unwrap();
    let p = |x: ComponentView| is_root_rust(x);
    assert(components_view(det.components@) == adjust_components(cs, Some(c)));
    assert(components_view(det.components@).len() == det.components@.len());
    let adjusted = adjust_components(cs, Some(c));
    match first_index(cs, p) {
        Some(j) => {
            crate::seqs::lemma_first_index_bounds(cs, p);
            assert(adjusted == cs.update(j, with_cargo(cs[j], c)));
            assert(adjusted.len() == cs.len());
            // the update keeps every other component, so the first root Rust
            // component is still at j
            if j < i {
                assert(adjusted[j] == components_view(det.components@)[j]);
                assert(is_root_rust(adjusted[j]));
                assert(!is_root_rust(det.components@[j]@));
            } else if j > i {
                assert(adjusted[i] == cs[i]);
                assert(is_root_rust(det.components@[i]@));
                assert(components_view(det.components@)[i] == det.components@[i]@);
                crate::seqs::lemma_first_index_before(cs, p, i);
                assert(!p(cs[i]));
            }
            assert(j == i);
            assert(components_view(det.components@)[i] == det.components@[i]@);
        },
        None => {
            assert(adjusted == cs);
            assert(components_view(det.components@)[i] == det.components@[i]@);
            crate::seqs::lemma_first_index_bounds(cs, p);
            assert(is_root_rust(cs[i]));
            crate::seqs::lemma_first_index_some(cs, p, i);
        },
    }
}

/// What detection reports of the root: `package_json` exactly when
/// `package.json` is a file there; the JavaScript lockfiles present, in the
/// order `bun.lock`, `bun.lockb`, `pnpm-lock.yaml`, `yarn.lock`,
/// `package-lock.json`; `pnpm-workspace.yaml` as the workspace file when it
/// is present; and the manager that selection makes of the `packageManager`
/// field and those lockfiles.
pub proof fn law_detection_reports_the_root(f: ProjectFacts, det: RepositoryDetection)
    requires
        spec_detection(f, det),
    ensures
        det.package_json == f.package_json is Some,
        views(det.lockfiles@) == present(
            seq!["bun.lock"@, "bun.lockb"@, "pnpm-lock.yaml"@, "yarn.lock"@, "package-lock.json"@],
            files_of(f.root),
        ),
        views(det.workspace_files@) == if files_of(f.root).contains("pnpm-workspace.yaml"@) {
            seq!["pnpm-workspace.yaml"@]
        } else {
            seq![]
        },
        match det.manager {
            Some(m) => spec_selected_manager(field_of(det.package_json_data), views(det.lockfiles@)) == Some(m@),
            None => spec_selected_manager(field_of(det.package_json_data), views(det.lockfiles@)) is None,
        },
{
    let files = files_of(f.root);
    assert(seq!["pnpm-workspace.yaml"@].drop_last() =~= Seq::<Seq<char>>::empty());
    assert(present(seq!["pnpm-workspace.yaml"@], files) == present(Seq::<Seq<char>>::empty(), files) + if files.contains(
        "pnpm-workspace.yaml"@,
    ) {
        seq!["pnpm-workspace.yaml"@]
    } else {
        seq![]
    });
    assert(present(seq!["pnpm-workspace.yaml"@], files) =~= if files.contains("pnpm-workspace.yaml"@) {
        seq!["pnpm-workspace.yaml"@]
    } else {
        seq![]
    });
}

} // verus!
