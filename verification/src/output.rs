//! The report of the inspection commands (`info`, `doctor`, `deps`,
//! `scripts`, `workspaces`, `lock`): its data, its diagnostics and its text.
use vstd::prelude::*;

use crate::manager::{
    first_present, parse_package_manager_field, spec_expected_lockfiles, spec_manager_name,
    spec_parse_package_manager_field,
};
use crate::model::{
    CargoObservation, Component, ContainerInfo, Ecosystem, NameMap, NativeDependency,
    PackageManager, RepositoryDetection,
};
use crate::order::{insert_all_sorted, is_sorted_set_of, strictly_sorted};
use crate::text::{
    concat, concat3, copy_str, decimal, decimal_string, join, join_strings, opt_view, str_eq,
    views,
};

verus! {

#[derive(Clone, Copy, Debug, PartialEq, Eq, Structural)]
pub enum DiagnosticLevel {
    Passed,
    Warn,
    Error,
}

pub open spec fn spec_symbol(l: DiagnosticLevel) -> Seq<char> {
    match l {
        DiagnosticLevel::Passed => "✓"@,
        DiagnosticLevel::Warn => "⚠"@,
        DiagnosticLevel::Error => "✗"@,
    }
}

impl DiagnosticLevel {
    pub fn symbol(&self) -> (r: &'static str)
        ensures
            r@ == spec_symbol(*self),
    {
        match self {
            DiagnosticLevel::Passed => "✓",
            DiagnosticLevel::Warn => "⚠",
            DiagnosticLevel::Error => "✗",
        }
    }
}

#[derive(Debug)]
pub struct Diagnostic {
    pub level: DiagnosticLevel,
    pub check: String,
    pub message: String,
}

#[derive(Debug)]
pub struct ProjectInfo {
    pub root: String,
    pub name: String,
    pub package_json: bool,
    pub workspace: bool,
    pub workspace_source: Option<String>,
}

#[derive(Debug)]
pub struct ManagerInfo {
    pub name: Option<String>,
    pub version: Option<String>,
    pub lockfile: Option<String>,
    pub selected_by: Option<String>,
}

#[derive(Debug)]
pub struct CommandResult {
    pub summary: String,
    pub runtime: Option<String>,
}

#[derive(Debug)]
pub struct Evidence {
    pub package_manager_field: Option<String>,
    pub lockfiles: Vec<String>,
    pub workspace_files: Vec<String>,
    pub selection_notes: Vec<String>,
}

#[derive(Debug)]
pub struct DependencyGroups {
    pub dependencies: NameMap,
    pub dev_dependencies: NameMap,
    pub optional_dependencies: NameMap,
    pub peer_dependencies: NameMap,
    pub native_dependencies: Vec<NativeDependency>,
}

#[derive(Debug)]
pub struct WorkspaceOutput {
    pub enabled: bool,
    pub source: Option<String>,
    pub packages: Vec<String>,
}

#[derive(Debug)]
pub struct LockOutput {
    pub found: bool,
    pub files: Vec<String>,
    pub selected: Option<String>,
    pub manager: Option<PackageManager>,
}

/// The report of an inspection command.
#[derive(Debug)]
pub struct CommandOutput {
    pub schema_version: String,
    pub command: String,
    pub project: ProjectInfo,
    pub manager: ManagerInfo,
    pub result: CommandResult,
    pub diagnostics: Vec<Diagnostic>,
    pub evidence: Evidence,
    pub dependencies: Option<DependencyGroups>,
    pub scripts: Option<NameMap>,
    pub workspaces: Option<WorkspaceOutput>,
    pub lock: Option<LockOutput>,
    pub ecosystem: Option<Ecosystem>,
    pub components: Vec<Component>,
    pub native_dependencies: Vec<NativeDependency>,
    pub container: Option<ContainerInfo>,
    pub cargo: Option<CargoObservation>,
}

/// The Node.js runtime version, which this build does not probe.
pub fn detect_node_runtime() -> (r: Option<String>)
    ensures
        r is None,
{
    None
}

// ---------------------------------------------------------------------------
// Diagnostics
// ---------------------------------------------------------------------------
pub open spec fn diag(level: DiagnosticLevel, check: Seq<char>, message: Seq<char>) -> (
    DiagnosticLevel,
    Seq<char>,
    Seq<char>,
) {
    (level, check, message)
}

pub open spec fn diagnostics_view(v: Seq<Diagnostic>) -> Seq<(DiagnosticLevel, Seq<char>, Seq<char>)> {
    v.map_values(|d: Diagnostic| (d.level, d.check@, d.message@))
}

pub open spec fn cargo_diagnostics(c: CargoObservation) -> Seq<(DiagnosticLevel, Seq<char>, Seq<char>)> {
    seq![
        diag(DiagnosticLevel::Passed, "Cargo project"@, c.manifest@ + " found"@),
        match c.lockfile {
            Some(l) => diag(DiagnosticLevel::Passed, "Cargo lockfile"@, "Found "@ + l@),
            None => diag(DiagnosticLevel::Warn, "Cargo lockfile"@, "No Cargo.lock detected"@),
        },
        diag(
            DiagnosticLevel::Passed,
            "Cargo workspace"@,
            if c.workspace {
                "Workspace detected at "@ + c.workspace_root@ + " with "@ + decimal(
                    c.workspace_members@.len(),
                ) + " member(s)"@
            } else {
                "Single-package Cargo project detected"@
            },
        ),
    ]
}

pub open spec fn field_of(d: RepositoryDetection) -> Option<Seq<char>> {
    match d.package_json_data {
        Some(data) => opt_view(data.package_manager_field),
        None => None,
    }
}

pub open spec fn parsed_field(d: RepositoryDetection) -> Option<(PackageManager, Option<Seq<char>>)> {
    match field_of(d) {
        Some(f) => spec_parse_package_manager_field(f),
        None => None,
    }
}

pub open spec fn consistency_diagnostic(d: RepositoryDetection) -> (DiagnosticLevel, Seq<char>, Seq<char>) {
    let ls = views(d.lockfiles@);
    let check = "package/lock consistency"@;
    match parsed_field(d) {
        Some((m, _)) => match first_present(spec_expected_lockfiles(m), ls) {
            Some(l) => diag(DiagnosticLevel::Passed, check, spec_manager_name(m) + " agrees with "@ + l),
            None => if ls.len() > 0 {
                diag(
                    DiagnosticLevel::Warn,
                    check,
                    "packageManager selects "@ + spec_manager_name(m) + ", but detected "@ + join(ls, ", "@),
                )
            } else {
                diag(
                    DiagnosticLevel::Warn,
                    check,
                    "packageManager selects "@ + spec_manager_name(m) + ", but no lockfile was found"@,
                )
            },
        },
        None => if ls.len() > 0 {
            diag(DiagnosticLevel::Warn, check, "Manager inferred from lockfile only"@)
        } else {
            diag(DiagnosticLevel::Warn, check, "Not enough evidence to verify package/lock consistency"@)
        },
    }
}

pub open spec fn package_diagnostics(d: RepositoryDetection) -> Seq<(DiagnosticLevel, Seq<char>, Seq<char>)> {
    let ls = views(d.lockfiles@);
    seq![
        if d.package_json {
            diag(DiagnosticLevel::Passed, "package.json"@, "package.json found"@)
        } else {
            diag(DiagnosticLevel::Error, "package.json"@, "package.json is required to inspect a JavaScript package"@)
        },
        if ls.len() == 0 {
            diag(DiagnosticLevel::Warn, "lockfile"@, "No supported lockfile detected"@)
        } else {
            diag(DiagnosticLevel::Passed, "lockfile"@, "Found "@ + join(ls, ", "@))
        },
        consistency_diagnostic(d),
        diag(
            DiagnosticLevel::Passed,
            "workspace configuration"@,
            match d.workspace_source {
                Some(s) => "Workspace detected via "@ + s@,
                None => "No workspace configuration detected"@,
            },
        ),
    ]
}

/// One warning for each Python component with more than one lockfile.
pub open spec fn python_diagnostics(cs: Seq<Component>) -> Seq<(DiagnosticLevel, Seq<char>, Seq<char>)>
    decreases cs.len(),
{
    if cs.len() == 0 {
        seq![]
    } else {
        let c = cs.last();
        python_diagnostics(cs.drop_last()) + if c.ecosystem == Ecosystem::Python && c.lockfiles@.len() > 1 {
            seq![
                diag(
                    DiagnosticLevel::Warn,
                    "python lockfiles"@,
                    "Python project has multiple lockfiles: "@ + join(views(c.lockfiles@), ", "@),
                ),
            ]
        } else {
            seq![]
        }
    }
}

/// The doctor checks, in the order they are reported.
pub open spec fn spec_diagnostics(d: RepositoryDetection) -> Seq<(DiagnosticLevel, Seq<char>, Seq<char>)> {
    (match d.cargo {
        Some(c) => cargo_diagnostics(c),
        None => seq![],
    }) + (if d.package_json || d.cargo is None {
        package_diagnostics(d)
    } else {
        seq![]
    }) + python_diagnostics(d.components@)
}

fn diagnostic(level: DiagnosticLevel, check: &str, message: String) -> (r: Diagnostic)
    ensures
        r.level == level,
        r.check@ == check@,
        r.message@ == message@,
{
    Diagnostic { level, check: copy_str(check), message }
}

fn push_diag(v: &mut Vec<Diagnostic>, d: Diagnostic)
    ensures
        diagnostics_view(final(v)@) == diagnostics_view(old(v)@).push((d.level, d.check@, d.message@)),
{
    let ghost pre = diagnostics_view(v@);
    v.push(d);
    assert(diagnostics_view(v@) =~= pre.push((d.level, d.check@, d.message@)));
}

fn matching_expected(m: PackageManager, lockfiles: &[String]) -> (r: Option<String>)
    ensures
        opt_view(r) == first_present(spec_expected_lockfiles(m), views(lockfiles@)),
{
    let expected = m.expected_lockfiles();
    let ghost exp = expected@.map_values(|s: &str| s@);
    let mut i: usize = 0;
    assert(exp.skip(0) =~= exp);
    while i < expected.len()
        invariant
            i <= expected.len(),
            exp == expected@.map_values(|s: &str| s@),
            exp == spec_expected_lockfiles(m),
            first_present(exp, views(lockfiles@)) == first_present(exp.skip(i as int), views(lockfiles@)),
        decreases expected.len() - i,
    {
        let e = expected[i];
        assert(exp.skip(i as int)[0] == e@);
        assert(exp.skip(i as int).drop_first() =~= exp.skip(i + 1));
        if crate::manager::contains_string(lockfiles, e) {
            return Some(copy_str(e));
        }
        i += 1;
    }
    assert(exp.skip(i as int).len() == 0);
    None
}

/// The doctor checks for a detected project.
pub fn build_diagnostics(detection: &RepositoryDetection) -> (r: Vec<Diagnostic>)
    ensures
        diagnostics_view(r@) == spec_diagnostics(*detection),
{
    let mut diagnostics: Vec<Diagnostic> = Vec::new();
    assert(diagnostics_view(diagnostics@) =~= Seq::<(DiagnosticLevel, Seq<char>, Seq<char>)>::empty());
    if let Some(cargo) = &detection.cargo {
        push_diag(&mut diagnostics, diagnostic(DiagnosticLevel::Passed, "Cargo project", concat(cargo.manifest.as_str(), " found")));
        match &cargo.lockfile {
            Some(l) => push_diag(&mut diagnostics, diagnostic(DiagnosticLevel::Passed, "Cargo lockfile", concat("Found ", l.as_str()))),
            None => push_diag(&mut diagnostics, diagnostic(DiagnosticLevel::Warn, "Cargo lockfile", copy_str("No Cargo.lock detected"))),
        }
        let message = if cargo.workspace {
            let mut m = concat3("Workspace detected at ", cargo.workspace_root.as_str(), " with ");
            m.append(decimal_string(cargo.workspace_members.len() as u128).as_str());
            m.append(" member(s)");
            m
        } else {
            copy_str("Single-package Cargo project detected")
        };
        push_diag(&mut diagnostics, diagnostic(DiagnosticLevel::Passed, "Cargo workspace", message));
        assert(diagnostics_view(diagnostics@) =~= cargo_diagnostics(*cargo));
    }
    let ghost first = diagnostics_view(diagnostics@);
    let lockfiles = detection.lockfiles.as_slice();
    if detection.package_json || detection.cargo.is_none() {
        if detection.package_json {
            push_diag(&mut diagnostics, diagnostic(DiagnosticLevel::Passed, "package.json", copy_str("package.json found")));
        } else {
            push_diag(&mut diagnostics, diagnostic(DiagnosticLevel::Error, "package.json", copy_str("package.json is required to inspect a JavaScript package")));
        }
        if lockfiles.len() == 0 {
            push_diag(&mut diagnostics, diagnostic(DiagnosticLevel::Warn, "lockfile", copy_str("No supported lockfile detected")));
        } else {
            push_diag(&mut diagnostics, diagnostic(DiagnosticLevel::Passed, "lockfile", concat("Found ", join_strings(lockfiles, ", ").as_str())));
        }
        let parsed = match &detection.package_json_data {
            Some(data) => match &data.package_manager_field {
                Some(f) => parse_package_manager_field(f.as_str()),
                None => None,
            },
            None => None,
        };
        let check = "package/lock consistency";
        match parsed {
            Some((m, _)) => match matching_expected(m, lockfiles) {
                Some(l) => push_diag(&mut diagnostics, diagnostic(DiagnosticLevel::Passed, check, concat3(m.display_name(), " agrees with ", l.as_str()))),
                None => {
                    if lockfiles.len() > 0 {
                        let mut msg = concat3("packageManager selects ", m.display_name(), ", but detected ");
                        msg.append(join_strings(lockfiles, ", ").as_str());
                        push_diag(&mut diagnostics, diagnostic(DiagnosticLevel::Warn, check, msg));
                    } else {
                        push_diag(&mut diagnostics, diagnostic(DiagnosticLevel::Warn, check, concat3("packageManager selects ", m.display_name(), ", but no lockfile was found")));
                    }
                },
            },
            None => {
                if lockfiles.len() > 0 {
                    push_diag(&mut diagnostics, diagnostic(DiagnosticLevel::Warn, check, copy_str("Manager inferred from lockfile only")));
                } else {
                    push_diag(&mut diagnostics, diagnostic(DiagnosticLevel::Warn, check, copy_str("Not enough evidence to verify package/lock consistency")));
                }
            },
        }
        let message = match &detection.workspace_source {
            Some(s) => concat("Workspace detected via ", s.as_str()),
            None => copy_str("No workspace configuration detected"),
        };
        push_diag(&mut diagnostics, diagnostic(DiagnosticLevel::Passed, "workspace configuration", message));
        assert(diagnostics_view(diagnostics@) =~= first + package_diagnostics(*detection));
    }
    let ghost second = diagnostics_view(diagnostics@);
    let comps = detection.components.as_slice();
    let mut i: usize = 0;
    assert(comps@.take(0) =~= Seq::<Component>::empty());
    assert(second + python_diagnostics(comps@.take(0)) =~= second);
    while i < comps.len()
        invariant
            i <= comps.len(),
            comps@ == detection.components@,
            diagnostics_view(diagnostics@) == second + python_diagnostics(comps@.take(i as int)),
        decreases comps.len() - i,
    {
        let c = &comps[i];
        assert(comps@.take(i + 1).drop_last() =~= comps@.take(i as int));
        assert(comps@.take(i + 1).last() == *c);
        if c.ecosystem == Ecosystem::Python && c.lockfiles.len() > 1 {
            let ghost pre = diagnostics_view(diagnostics@);
            push_diag(&mut diagnostics, diagnostic(DiagnosticLevel::Warn, "python lockfiles", concat("Python project has multiple lockfiles: ", join_strings(c.lockfiles.as_slice(), ", ").as_str())));
            assert(diagnostics_view(diagnostics@) =~= second + python_diagnostics(comps@.take(i + 1)));
        } else {
            assert(diagnostics_view(diagnostics@) =~= second + python_diagnostics(comps@.take(i + 1)));
        }
        i += 1;
    }
    assert(comps@.take(comps.len() as int) =~= comps@);
    diagnostics
}


// ---------------------------------------------------------------------------
// The report
// ---------------------------------------------------------------------------
pub fn copy_dependency(d: &NativeDependency) -> (r: NativeDependency)
    ensures
        r == *d,
{
    NativeDependency {
        name: d.name.clone(),
        specifier: d.specifier.clone(),
        kind: d.kind.clone(),
        ecosystem: d.ecosystem,
        native_kind: d.native_kind.clone(),
    }
}

pub fn copy_dependencies(v: &Vec<NativeDependency>) -> (r: Vec<NativeDependency>)
    ensures
        r@ == v@,
{
    let mut r: Vec<NativeDependency> = Vec::new();
    let mut i: usize = 0;
    while i < v.len()
        invariant
            i <= v.len(),
            r@ == v@.take(i as int),
        decreases v.len() - i,
    {
        r.push(copy_dependency(&v[i]));
        assert(r@ =~= v@.take(i + 1));
        i += 1;
    }
    assert(v@.take(v.len() as int) =~= v@);
    r
}

pub open spec fn cargo_workspace(d: RepositoryDetection) -> bool {
    d.cargo is Some && d.cargo.unwrap().workspace
}

pub open spec fn cargo_lockfile(d: RepositoryDetection) -> Seq<Seq<char>> {
    match d.cargo {
        Some(c) => match c.lockfile {
            Some(l) => seq![l@],
            None => seq![],
        },
        None => seq![],
    }
}

/// The lockfile the report names: the manager's, else the first JavaScript
/// lockfile, else Cargo's.
pub open spec fn spec_manager_lockfile(d: RepositoryDetection) -> Option<Seq<char>> {
    match d.manager {
        Some(m) if m.lockfile is Some => opt_view(m.lockfile),
        _ => if d.lockfiles@.len() > 0 {
            Some(d.lockfiles@[0]@)
        } else {
            match d.cargo {
                Some(c) => opt_view(c.lockfile),
                None => None,
            }
        },
    }
}

pub open spec fn spec_summary(d: RepositoryDetection) -> Seq<char> {
    match d.manager {
        Some(m) => "Detected "@ + spec_manager_name(m.name) + " package reality for "@ + d.project_name@,
        None => if d.cargo is Some {
            "Detected Cargo project reality for "@ + d.project_name@
        } else {
            "Unable to determine a supported package manager for "@ + d.project_name@
        },
    }
}

pub open spec fn component_workspace_packages(cs: Seq<Component>) -> Seq<Seq<char>>
    decreases cs.len(),
{
    if cs.len() == 0 {
        seq![]
    } else {
        component_workspace_packages(cs.drop_last()) + views(cs.last().workspace_packages@)
    }
}

pub open spec fn any_component_workspace(cs: Seq<Component>) -> bool {
    exists|i: int| 0 <= i < cs.len() && (#[trigger] cs[i]).workspace_packages@.len() > 0
}

pub open spec fn cargo_members(d: RepositoryDetection) -> Seq<Seq<char>> {
    match d.cargo {
        Some(c) => views(c.workspace_members@),
        None => seq![],
    }
}

pub open spec fn spec_workspace_source(d: RepositoryDetection) -> Option<Seq<char>> {
    match d.workspace_source {
        Some(s) => Some(s@),
        None => if cargo_workspace(d) {
            Some("Cargo.toml#[workspace]"@)
        } else {
            None
        },
    }
}

/// The ecosystem all components share, if they share one.
pub open spec fn spec_single_ecosystem(cs: Seq<Component>) -> Option<Ecosystem> {
    if cs.len() > 0 && forall|i: int| 0 <= i < cs.len() ==> (#[trigger] cs[i]).ecosystem == cs[0].ecosystem {
        Some(cs[0].ecosystem)
    } else {
        None
    }
}

pub open spec fn maps_empty(g: DependencyGroups) -> bool {
    g.dependencies@.len() == 0 && g.dev_dependencies@.len() == 0 && g.optional_dependencies@.len() == 0
        && g.peer_dependencies@.len() == 0
}

/// What `build_output` reports about a detected project.
pub open spec fn output_matches(o: CommandOutput, command: Seq<char>, d: RepositoryDetection) -> bool {
    &&& o.schema_version@ == "1"@
    &&& o.command@ == command
    &&& o.project.root@ == d.root@
    &&& o.project.name@ == d.project_name@
    &&& o.project.package_json == d.package_json
    &&& o.project.workspace == (d.workspace || cargo_workspace(d))
    &&& opt_view(o.project.workspace_source) == spec_workspace_source(d)
    &&& opt_view(o.manager.name) == match d.manager {
        Some(m) => Some(spec_manager_name(m.name)),
        None => if d.cargo is Some {
            Some("cargo"@)
        } else {
            None
        },
    }
    &&& opt_view(o.manager.version) == match d.manager {
        Some(m) => opt_view(m.version),
        None => None,
    }
    &&& opt_view(o.manager.lockfile) == spec_manager_lockfile(d)
    &&& opt_view(o.manager.selected_by) == match d.manager {
        Some(m) => Some(m.selected_by@),
        None => None,
    }
    &&& o.result.summary@ == spec_summary(d)
    &&& o.result.runtime is None
    &&& diagnostics_view(o.diagnostics@) == spec_diagnostics(d)
    &&& opt_view(o.evidence.package_manager_field) == field_of(d)
    &&& views(o.evidence.lockfiles@) == views(d.lockfiles@) + cargo_lockfile(d)
    &&& o.evidence.workspace_files == d.workspace_files
    &&& o.evidence.selection_notes == d.selection_notes
    &&& (o.dependencies is Some <==> command == "deps"@)
    &&& (o.dependencies matches Some(g) ==> {
        &&& match d.package_json_data {
            Some(data) => g.dependencies@ == data.dependencies@ && g.dev_dependencies@
                == data.dev_dependencies@ && g.optional_dependencies@ == data.optional_dependencies@
                && g.peer_dependencies@ == data.peer_dependencies@,
            None => maps_empty(g),
        }
        &&& g.native_dependencies@ == d.native_dependencies@
    })
    &&& (o.scripts is Some <==> command == "scripts"@)
    &&& (o.scripts matches Some(s) ==> match d.package_json_data {
        Some(data) => s@ == data.scripts@,
        None => s@.len() == 0,
    })
    &&& (o.workspaces is Some <==> command == "workspaces"@)
    &&& (o.workspaces matches Some(w) ==> {
        &&& w.enabled == (d.workspace || cargo_workspace(d) || any_component_workspace(d.components@))
        &&& opt_view(w.source) == match spec_workspace_source(d) {
            Some(s) => Some(s),
            None => if any_component_workspace(d.components@) {
                Some("Cargo.toml#[workspace]"@)
            } else {
                None
            },
        }
        &&& is_sorted_set_of(
            views(w.packages@),
            views(d.workspace_packages@) + cargo_members(d) + component_workspace_packages(d.components@),
        )
    })
    &&& (o.lock is Some <==> command == "lock"@)
    &&& (o.lock matches Some(l) ==> {
        &&& l.found == spec_manager_lockfile(d) is Some
        &&& views(l.files@) == views(d.lockfiles@) + cargo_lockfile(d)
        &&& opt_view(l.selected) == spec_manager_lockfile(d)
        &&& l.manager == match d.manager {
            Some(m) => Some(m.name),
            None => None,
        }
    })
    &&& o.ecosystem == spec_single_ecosystem(d.components@)
    &&& o.components == d.components
    &&& o.native_dependencies == d.native_dependencies
    &&& o.container == d.container
    &&& o.cargo == d.cargo
}

fn manager_lockfile(d: &RepositoryDetection) -> (r: Option<String>)
    ensures
        opt_view(r) == spec_manager_lockfile(*d),
{
    if let Some(m) = &d.manager {
        if let Some(l) = &m.lockfile {
            return Some(l.clone());
        }
    }
    if d.lockfiles.len() > 0 {
        return Some(d.lockfiles[0].clone());
    }
    match &d.cargo {
        Some(c) => match &c.lockfile {
            Some(l) => Some(l.clone()),
            None => None,
        },
        None => None,
    }
}

fn all_lockfiles(d: &RepositoryDetection) -> (r: Vec<String>)
    ensures
        views(r@) == views(d.lockfiles@) + cargo_lockfile(*d),
{
    let mut r: Vec<String> = Vec::new();
    crate::operations::extend_strings(&mut r, d.lockfiles.as_slice());
    if let Some(c) = &d.cargo {
        if let Some(l) = &c.lockfile {
            let ghost pre = views(r@);
            r.push(l.clone());
            assert(views(r@) =~= pre.push(l@));
        }
    }
    assert(views(r@) =~= views(d.lockfiles@) + cargo_lockfile(*d));
    r
}

fn workspace_source(d: &RepositoryDetection) -> (r: Option<String>)
    ensures
        opt_view(r) == spec_workspace_source(*d),
{
    match &d.workspace_source {
        Some(s) => Some(s.clone()),
        None => {
            let cw = match &d.cargo {
                Some(c) => c.workspace,
                None => false,
            };
            if cw {
                Some(copy_str("Cargo.toml#[workspace]"))
            } else {
                None
            }
        },
    }
}

fn any_workspace_component(cs: &Vec<Component>) -> (r: bool)
    ensures
        r == any_component_workspace(cs@),
{
    let mut i: usize = 0;
    while i < cs.len()
        invariant
            i <= cs.len(),
            forall|k: int| 0 <= k < i ==> (#[trigger] cs@[k]).workspace_packages@.len() == 0,
        decreases cs.len() - i,
    {
        if cs[i].workspace_packages.len() > 0 {
            return true;
        }
        i += 1;
    }
    false
}

fn workspace_packages(d: &RepositoryDetection) -> (r: Vec<String>)
    ensures
        is_sorted_set_of(
            views(r@),
            views(d.workspace_packages@) + cargo_members(*d) + component_workspace_packages(d.components@),
        ),
{
    let mut r: Vec<String> = Vec::new();
    assert(views(r@).to_set() =~= Set::<Seq<char>>::empty());
    insert_all_sorted(&mut r, d.workspace_packages.as_slice());
    let ghost s1 = views(d.workspace_packages@);
    if let Some(c) = &d.cargo {
        insert_all_sorted(&mut r, c.workspace_members.as_slice());
    } else {
        assert(views(r@).to_set() =~= views(r@).to_set() + Seq::<Seq<char>>::empty().to_set());
    }
    let ghost s2 = cargo_members(*d);
    let cs = &d.components;
    let mut i: usize = 0;
    assert(cs@.take(0) =~= Seq::<Component>::empty());
    while i < cs.len()
        invariant
            i <= cs.len(),
            strictly_sorted(views(r@)),
            views(r@).to_set() == Set::<Seq<char>>::empty() + s1.to_set() + s2.to_set()
                + component_workspace_packages(cs@.take(i as int)).to_set(),
        decreases cs.len() - i,
    {
        insert_all_sorted(&mut r, cs[i].workspace_packages.as_slice());
        proof {
            let t = cs@.take(i + 1);
            assert(t.drop_last() =~= cs@.take(i as int));
            let a = component_workspace_packages(cs@.take(i as int));
            let b = views(cs@[i as int].workspace_packages@);
            assert((a + b).to_set() =~= a.to_set() + b.to_set()) by {
                assert forall|y: Seq<char>| (a + b).to_set().contains(y) <==> (a.to_set() + b.to_set()).contains(y) by {
                    if (a + b).to_set().contains(y) {
                        let k = choose|k: int| 0 <= k < (a + b).len() && (a + b)[k] == y;
                        if k < a.len() {
                            assert(a[k] == y);
                        } else {
                            assert(b[k - a.len()] == y);
                        }
                    }
                    if a.to_set().contains(y) {
                        let k = choose|k: int| 0 <= k < a.len() && a[k] == y;
                        assert((a + b)[k] == y);
                    }
                    if b.to_set().contains(y) {
                        let k = choose|k: int| 0 <= k < b.len() && b[k] == y;
                        assert((a + b)[k + a.len()] == y);
                    }
                }
            }
        }
        i += 1;
    }
    proof {
        assert(cs@.take(cs.len() as int) =~= cs@);
        let all = s1 + s2 + component_workspace_packages(cs@);
        assert forall|y: Seq<char>| all.to_set().contains(y) <==> (s1.to_set() + s2.to_set() + component_workspace_packages(cs@).to_set()).contains(y) by {
            let c = component_workspace_packages(cs@);
            if all.to_set().contains(y) {
                let k = choose|k: int| 0 <= k < all.len() && all[k] == y;
                if k < s1.len() {
                    assert(s1[k] == y);
                } else if k < s1.len() + s2.len() {
                    assert(s2[k - s1.len()] == y);
                } else {
                    assert(c[k - s1.len() - s2.len()] == y);
                }
            }
            if s1.to_set().contains(y) {
                let k = choose|k: int| 0 <= k < s1.len() && s1[k] == y;
                assert(all[k] == y);
            }
            if s2.to_set().contains(y) {
                let k = choose|k: int| 0 <= k < s2.len() && s2[k] == y;
                assert(all[k + s1.len()] == y);
            }
            if c.to_set().contains(y) {
                let k = choose|k: int| 0 <= k < c.len() && c[k] == y;
                assert(all[k + s1.len() + s2.len()] == y);
            }
        }
        assert(views(r@).to_set() =~= all.to_set());
    }
    r
}

fn single_ecosystem(cs: &Vec<Component>) -> (r: Option<Ecosystem>)
    ensures
        r == spec_single_ecosystem(cs@),
{
    if cs.len() == 0 {
        return None;
    }
    let first = cs[0].ecosystem;
    let mut i: usize = 0;
    while i < cs.len()
        invariant
            i <= cs.len(),
            cs.len() > 0,
            first == cs@[0].ecosystem,
            forall|k: int| 0 <= k < i ==> (#[trigger] cs@[k]).ecosystem == first,
        decreases cs.len() - i,
    {
        if cs[i].ecosystem != first {
            return None;
        }
        i += 1;
    }
    Some(first)
}

/// The report of an inspection command on a detected project.
pub fn build_output(command: &str, detection: RepositoryDetection, include_runtime: bool) -> (o: CommandOutput)
    ensures
        output_matches(o, command@, detection),
{
    let ghost d = detection;
    let diagnostics = build_diagnostics(&detection);
    let runtime = if include_runtime {
        detect_node_runtime()
    } else {
        None
    };
    let manager_name: Option<PackageManager> = match &detection.manager {
        Some(m) => Some(m.name),
        None => None,
    };
    let manager_version: Option<String> = match &detection.manager {
        Some(m) => match &m.version {
            Some(v) => Some(v.clone()),
            None => None,
        },
        None => None,
    };
    let lockfile = manager_lockfile(&detection);
    let selected_by: Option<String> = match &detection.manager {
        Some(m) => Some(m.selected_by.clone()),
        None => None,
    };
    let summary = match manager_name {
        Some(m) => {
            let mut s = concat3("Detected ", m.display_name(), " package reality for ");
            s.append(detection.project_name.as_str());
            s
        },
        None => if detection.cargo.is_some() {
            concat("Detected Cargo project reality for ", detection.project_name.as_str())
        } else {
            concat("Unable to determine a supported package manager for ", detection.project_name.as_str())
        },
    };
    let cargo_ws = match &detection.cargo {
        Some(c) => c.workspace,
        None => false,
    };
    let source = workspace_source(&detection);
    let manager_display: Option<String> = match manager_name {
        Some(m) => Some(copy_str(m.display_name())),
        None => if detection.cargo.is_some() {
            Some(copy_str("cargo"))
        } else {
            None
        },
    };
    let evidence_lockfiles = all_lockfiles(&detection);
    let pm_field: Option<String> = match &detection.package_json_data {
        Some(data) => match &data.package_manager_field {
            Some(f) => Some(f.clone()),
            None => None,
        },
        None => None,
    };
    let workspaces = if str_eq(command, "workspaces") {
        let any = any_workspace_component(&detection.components);
        let src = match workspace_source(&detection) {
            Some(s) => Some(s),
            None => if any {
                Some(copy_str("Cargo.toml#[workspace]"))
            } else {
                None
            },
        };
        Some(WorkspaceOutput {
            enabled: detection.workspace || cargo_ws || any,
            source: src,
            packages: workspace_packages(&detection),
        })
    } else {
        None
    };
    let lock = if str_eq(command, "lock") {
        Some(LockOutput {
            found: lockfile.is_some(),
            files: all_lockfiles(&detection),
            selected: match &lockfile {
                Some(l) => Some(l.clone()),
                None => None,
            },
            manager: manager_name,
        })
    } else {
        None
    };
    let ecosystem = single_ecosystem(&detection.components);
    let dependencies = if str_eq(command, "deps") {
        let native = copy_dependencies(&detection.native_dependencies);
        Some(match &detection.package_json_data {
            Some(data) => DependencyGroups {
                dependencies: copy_map(&data.dependencies),
                dev_dependencies: copy_map(&data.dev_dependencies),
                optional_dependencies: copy_map(&data.optional_dependencies),
                peer_dependencies: copy_map(&data.peer_dependencies),
                native_dependencies: native,
            },
            None => DependencyGroups {
                dependencies: Vec::new(),
                dev_dependencies: Vec::new(),
                optional_dependencies: Vec::new(),
                peer_dependencies: Vec::new(),
                native_dependencies: native,
            },
        })
    } else {
        None
    };
    let scripts = if str_eq(command, "scripts") {
        Some(match &detection.package_json_data {
            Some(data) => copy_map(&data.scripts),
            None => Vec::new(),
        })
    } else {
        None
    };
    let RepositoryDetection {
        root,
        project_name,
        package_json,
        workspace,
        workspace_files,
        selection_notes,
        components,
        native_dependencies,
        container,
        cargo,
        ..
    } = detection;
    CommandOutput {
        schema_version: copy_str("1"),
        command: copy_str(command),
        project: ProjectInfo {
            root,
            name: project_name,
            package_json,
            workspace: workspace || cargo_ws,
            workspace_source: source,
        },
        manager: ManagerInfo {
            name: manager_display,
            version: manager_version,
            lockfile,
            selected_by,
        },
        result: CommandResult { summary, runtime },
        diagnostics,
        evidence: Evidence {
            package_manager_field: pm_field,
            lockfiles: evidence_lockfiles,
            workspace_files,
            selection_notes,
        },
        dependencies,
        scripts,
        workspaces,
        lock,
        ecosystem,
        components,
        native_dependencies,
        container,
        cargo,
    }
}

pub fn copy_map(m: &NameMap) -> (r: NameMap)
    ensures
        r@ == m@,
{
    let mut r: NameMap = Vec::new();
    let mut i: usize = 0;
    while i < m.len()
        invariant
            i <= m.len(),
            r@ == m@.take(i as int),
        decreases m.len() - i,
    {
        r.push((m[i].0.clone(), m[i].1.clone()));
        assert(r@ =~= m@.take(i + 1));
        i += 1;
    }
    assert(m@.take(m.len() as int) =~= m@);
    r
}


// ---------------------------------------------------------------------------
// The text report
// ---------------------------------------------------------------------------
pub open spec fn spec_heading(command: Seq<char>) -> Seq<char> {
    if command == "info"@ {
        "PAX Info"@
    } else if command == "doctor"@ {
        "PAX Doctor"@
    } else if command == "deps"@ {
        "PAX Dependencies"@
    } else if command == "scripts"@ {
        "PAX Scripts"@
    } else if command == "workspaces"@ {
        "PAX Workspaces"@
    } else if command == "lock"@ {
        "PAX Lock"@
    } else if command == "graph"@ {
        "PAX Graph"@
    } else if command == "reality"@ {
        "PAX Reality"@
    } else if command == "drift"@ {
        "PAX Drift"@
    } else {
        "PAX"@
    }
}

/// The lower-case name of an ecosystem.
pub open spec fn spec_ecosystem_name(e: Ecosystem) -> Seq<char> {
    match e {
        Ecosystem::JavaScript => "javascript"@,
        Ecosystem::Python => "python"@,
        Ecosystem::Rust => "rust"@,
        Ecosystem::Container => "container"@,
    }
}

pub fn ecosystem_name(e: Ecosystem) -> (r: &'static str)
    ensures
        r@ == spec_ecosystem_name(e),
{
    match e {
        Ecosystem::JavaScript => "javascript",
        Ecosystem::Python => "python",
        Ecosystem::Rust => "rust",
        Ecosystem::Container => "container",
    }
}

pub open spec fn prefixed_lines(prefix: Seq<char>, items: Seq<Seq<char>>) -> Seq<Seq<char>> {
    items.map_values(|x: Seq<char>| prefix + x)
}

pub open spec fn dependency_total(o: CommandOutput) -> nat {
    match o.dependencies {
        Some(g) => g.dependencies@.len() + g.dev_dependencies@.len() + g.optional_dependencies@.len()
            + g.peer_dependencies@.len() + g.native_dependencies@.len(),
        None => 0,
    }
}

pub open spec fn diagnostic_line(d: (DiagnosticLevel, Seq<char>, Seq<char>)) -> Seq<char> {
    spec_symbol(d.0) + " "@ + d.1 + " "@ + d.2
}

pub open spec fn header_lines(o: CommandOutput) -> Seq<Seq<char>> {
    let manager = match opt_view(o.manager.name) {
        Some(n) => n,
        None => "unknown"@,
    };
    let manager = match opt_view(o.manager.version) {
        Some(v) => manager + " "@ + v,
        None => manager,
    };
    let workspace = match opt_view(o.project.workspace_source) {
        Some(s) => "yes ("@ + s + ")"@,
        None => "no"@,
    };
    let lockfile = match opt_view(o.manager.lockfile) {
        Some(l) => l,
        None => "missing"@,
    };
    seq![
        spec_heading(o.command@),
        "Project       "@ + o.project.name@,
        "Root          "@ + o.project.root@,
        "Manager       "@ + manager,
        "Workspace     "@ + workspace,
        "Lockfile      "@ + lockfile,
    ]
}

pub open spec fn project_lines(o: CommandOutput) -> Seq<Seq<char>> {
    (match o.cargo {
        Some(c) => seq![
            "Cargo root    "@ + c.workspace_root@,
            "Cargo members "@ + decimal(c.workspace_members@.len()),
        ],
        None => seq![],
    }) + (if o.components@.len() > 0 {
        seq![
            "Ecosystems    "@ + join(
                o.components@.map_values(|c: Component| spec_ecosystem_name(c.ecosystem)),
                ", "@,
            ),
            "Components    "@ + decimal(o.components@.len()),
        ]
    } else {
        seq![]
    }) + (match o.manager.selected_by {
        Some(s) => seq!["Selected by   "@ + s@],
        None => seq![],
    }) + (match o.result.runtime {
        Some(r) => seq!["Runtime       Node "@ + r@],
        None => seq![],
    })
}

pub open spec fn section_lines(o: CommandOutput) -> Seq<Seq<char>> {
    (if o.dependencies is Some {
        seq!["Dependencies "@ + decimal(dependency_total(o))]
    } else {
        seq![]
    }) + (match o.scripts {
        Some(s) => seq!["Scripts      "@ + decimal(s@.len())],
        None => seq![],
    }) + (match o.workspaces {
        Some(w) => seq!["Packages     "@ + decimal(w.packages@.len())] + prefixed_lines(
            "  - "@,
            views(w.packages@),
        ),
        None => seq![],
    }) + (match o.lock {
        Some(l) => seq!["Lockfiles    "@ + join(views(l.files@), ", "@)],
        None => seq![],
    })
}

pub open spec fn diagnostic_lines(o: CommandOutput) -> Seq<Seq<char>> {
    diagnostics_view(o.diagnostics@).map_values(
        |d: (DiagnosticLevel, Seq<char>, Seq<char>)| diagnostic_line(d),
    )
}

pub open spec fn evidence_lines(o: CommandOutput) -> Seq<Seq<char>> {
    if o.evidence.selection_notes@.len() > 0 {
        seq![seq![], "Evidence"@] + prefixed_lines("  - "@, views(o.evidence.selection_notes@))
    } else {
        seq![]
    }
}

/// The lines of the text report.
pub open spec fn spec_human_lines(o: CommandOutput) -> Seq<Seq<char>> {
    header_lines(o) + project_lines(o) + seq![seq![]] + section_lines(o) + diagnostic_lines(o)
        + evidence_lines(o)
}

pub open spec fn spec_render_human(o: CommandOutput) -> Seq<char> {
    join(spec_human_lines(o), "\n"@)
}

fn push_line(lines: &mut Vec<String>, s: String)
    ensures
        views(final(lines)@) == views(old(lines)@).push(s@),
{
    let ghost pre = views(lines@);
    lines.push(s);
    assert(views(lines@) =~= pre.push(s@));
}

fn push_prefixed(lines: &mut Vec<String>, prefix: &str, items: &Vec<String>)
    ensures
        views(final(lines)@) == views(old(lines)@) + prefixed_lines(prefix@, views(items@)),
{
    let ghost start = views(lines@);
    let mut i: usize = 0;
    while i < items.len()
        invariant
            i <= items.len(),
            views(lines@) == start + prefixed_lines(prefix@, views(items@).take(i as int)),
        decreases items.len() - i,
    {
        push_line(lines, concat(prefix, items[i].as_str()));
        assert(prefixed_lines(prefix@, views(items@).take(i + 1)) =~= prefixed_lines(prefix@, views(items@).take(i as int)).push(prefix@ + items@[i as int]@));
        i += 1;
    }
    assert(views(items@).take(items.len() as int) =~= views(items@));
}

fn heading(command: &str) -> (r: &'static str)
    ensures
        r@ == spec_heading(command@),
{
    if str_eq(command, "info") {
        "PAX Info"
    } else if str_eq(command, "doctor") {
        "PAX Doctor"
    } else if str_eq(command, "deps") {
        "PAX Dependencies"
    } else if str_eq(command, "scripts") {
        "PAX Scripts"
    } else if str_eq(command, "workspaces") {
        "PAX Workspaces"
    } else if str_eq(command, "lock") {
        "PAX Lock"
    } else if str_eq(command, "graph") {
        "PAX Graph"
    } else if str_eq(command, "reality") {
        "PAX Reality"
    } else if str_eq(command, "drift") {
        "PAX Drift"
    } else {
        "PAX"
    }
}

fn ecosystem_names(cs: &Vec<Component>) -> (r: Vec<String>)
    ensures
        views(r@) == cs@.map_values(|c: Component| spec_ecosystem_name(c.ecosystem)),
{
    let mut r: Vec<String> = Vec::new();
    let mut i: usize = 0;
    while i < cs.len()
        invariant
            i <= cs.len(),
            views(r@) == cs@.take(i as int).map_values(|c: Component| spec_ecosystem_name(c.ecosystem)),
        decreases cs.len() - i,
    {
        push_line(&mut r, copy_str(ecosystem_name(cs[i].ecosystem)));
        assert(cs@.take(i + 1).map_values(|c: Component| spec_ecosystem_name(c.ecosystem)) =~= cs@.take(i as int).map_values(|c: Component| spec_ecosystem_name(c.ecosystem)).push(spec_ecosystem_name(cs@[i as int].ecosystem)));
        i += 1;
    }
    assert(cs@.take(cs.len() as int) =~= cs@);
    r
}

fn append_header(lines: &mut Vec<String>, output: &CommandOutput)
    ensures
        views(final(lines)@) == views(old(lines)@) + header_lines(*output),
{
    let ghost start = views(lines@);
    let mut manager = match &output.manager.name {
        Some(n) => n.clone(),
        None => copy_str("unknown"),
    };
    if let Some(v) = &output.manager.version {
        manager.append(" ");
        manager.append(v.as_str());
    }
    let workspace = match &output.project.workspace_source {
        Some(s) => concat3("yes (", s.as_str(), ")"),
        None => copy_str("no"),
    };
    let lockfile = match &output.manager.lockfile {
        Some(l) => l.clone(),
        None => copy_str("missing"),
    };
    push_line(lines, copy_str(heading(output.command.as_str())));
    push_line(lines, concat("Project       ", output.project.name.as_str()));
    push_line(lines, concat("Root          ", output.project.root.as_str()));
    push_line(lines, concat("Manager       ", manager.as_str()));
    push_line(lines, concat("Workspace     ", workspace.as_str()));
    push_line(lines, concat("Lockfile      ", lockfile.as_str()));
    assert(views(lines@) =~= start + header_lines(*output));
}

fn append_project(lines: &mut Vec<String>, output: &CommandOutput)
    ensures
        views(final(lines)@) == views(old(lines)@) + project_lines(*output),
{
    let ghost start = views(lines@);
    if let Some(cargo) = &output.cargo {
        push_line(lines, concat("Cargo root    ", cargo.workspace_root.as_str()));
        push_line(lines, concat("Cargo members ", decimal_string(cargo.workspace_members.len() as u128).as_str()));
    }
    let ghost p1 = views(lines@);
    if output.components.len() > 0 {
        let names = ecosystem_names(&output.components);
        push_line(lines, concat("Ecosystems    ", join_strings(names.as_slice(), ", ").as_str()));
        push_line(lines, concat("Components    ", decimal_string(output.components.len() as u128).as_str()));
    }
    let ghost p2 = views(lines@);
    if let Some(s) = &output.manager.selected_by {
        push_line(lines, concat("Selected by   ", s.as_str()));
    }
    let ghost p3 = views(lines@);
    if let Some(rt) = &output.result.runtime {
        push_line(lines, concat("Runtime       Node ", rt.as_str()));
    }
    assert(views(lines@) =~= start + project_lines(*output));
}

fn append_sections(lines: &mut Vec<String>, output: &CommandOutput)
    ensures
        views(final(lines)@) == views(old(lines)@) + section_lines(*output),
{
    let ghost start = views(lines@);
    if let Some(g) = &output.dependencies {
        let total: u128 = g.dependencies.len() as u128 + g.dev_dependencies.len() as u128
            + g.optional_dependencies.len() as u128 + g.peer_dependencies.len() as u128
            + g.native_dependencies.len() as u128;
        push_line(lines, concat("Dependencies ", decimal_string(total).as_str()));
    }
    let ghost p1 = views(lines@);
    if let Some(sc) = &output.scripts {
        push_line(lines, concat("Scripts      ", decimal_string(sc.len() as u128).as_str()));
    }
    let ghost p2 = views(lines@);
    if let Some(w) = &output.workspaces {
        push_line(lines, concat("Packages     ", decimal_string(w.packages.len() as u128).as_str()));
        push_prefixed(lines, "  - ", &w.packages);
    }
    let ghost p3 = views(lines@);
    if let Some(l) = &output.lock {
        push_line(lines, concat("Lockfiles    ", join_strings(l.files.as_slice(), ", ").as_str()));
    }
    assert(views(lines@) =~= start + section_lines(*output));
}

fn append_diagnostics(lines: &mut Vec<String>, output: &CommandOutput)
    ensures
        views(final(lines)@) == views(old(lines)@) + diagnostic_lines(*output),
{
    let ghost start = views(lines@);
    let ds = &output.diagnostics;
    let mut i: usize = 0;
    while i < ds.len()
        invariant
            i <= ds.len(),
            views(lines@) == start + diagnostics_view(ds@).take(i as int).map_values(
                |d: (DiagnosticLevel, Seq<char>, Seq<char>)| diagnostic_line(d),
            ),
        decreases ds.len() - i,
    {
        let mut line = concat3(ds[i].level.symbol(), " ", ds[i].check.as_str());
        line.append(" ");
        line.append(ds[i].message.as_str());
        push_line(lines, line);
        assert(diagnostics_view(ds@).take(i + 1).map_values(|d: (DiagnosticLevel, Seq<char>, Seq<char>)| diagnostic_line(d)) =~= diagnostics_view(ds@).take(i as int).map_values(|d: (DiagnosticLevel, Seq<char>, Seq<char>)| diagnostic_line(d)).push(diagnostic_line(diagnostics_view(ds@)[i as int])));
        i += 1;
    }
    assert(diagnostics_view(ds@).take(ds.len() as int) =~= diagnostics_view(ds@));
}

fn append_evidence(lines: &mut Vec<String>, output: &CommandOutput)
    ensures
        views(final(lines)@) == views(old(lines)@) + evidence_lines(*output),
{
    let ghost start = views(lines@);
    if output.evidence.selection_notes.len() > 0 {
        push_line(lines, String::new());
        push_line(lines, copy_str("Evidence"));
        push_prefixed(lines, "  - ", &output.evidence.selection_notes);
    }
    assert(views(lines@) =~= start + evidence_lines(*output));
}

/// The text report of an inspection command.
pub fn render_human(output: &CommandOutput) -> (r: String)
    ensures
        r@ == spec_render_human(*output),
{
    let mut lines: Vec<String> = Vec::new();
    append_header(&mut lines, output);
    append_project(&mut lines, output);
    push_line(&mut lines, String::new());
    append_sections(&mut lines, output);
    append_diagnostics(&mut lines, output);
    append_evidence(&mut lines, output);
    assert(views(lines@) =~= spec_human_lines(*output));
    join_strings(lines.as_slice(), "\n")
}

/// Where the diagnostics stand among the report's lines.
pub open spec fn diagnostics_start(o: CommandOutput) -> nat {
    header_lines(o).len() + project_lines(o).len() + 1 + section_lines(o).len()
}

/// The text report is its lines joined by newlines. It opens with the
/// command's heading on a line of its own, and holds one line per
/// diagnostic, `symbol check message`, in the diagnostics' order, one after
/// another.
pub proof fn law_human_report(o: CommandOutput)
    ensures
        spec_render_human(o) == crate::text::join(spec_human_lines(o), "\n"@),
        spec_human_lines(o)[0] == spec_heading(o.command@),
        crate::text::starts_with(spec_render_human(o), spec_heading(o.command@) + "\n"@),
        diagnostics_start(o) + o.diagnostics@.len() <= spec_human_lines(o).len(),
        forall|i: int| 0 <= i < o.diagnostics@.len() ==> spec_human_lines(o)[diagnostics_start(o) + i] == spec_symbol(
            (#[trigger] o.diagnostics@[i]).level,
        ) + " "@ + o.diagnostics@[i].check@ + " "@ + o.diagnostics@[i].message@,
{
    let lines = spec_human_lines(o);
    let k = diagnostics_start(o);
    let pre = header_lines(o) + project_lines(o) + seq![seq![]] + section_lines(o);
    assert(lines == pre + diagnostic_lines(o) + evidence_lines(o));
    assert(pre.len() == k);
    assert(lines[0] == header_lines(o)[0]);
    crate::text::lemma_join_starts(lines, "\n"@);
    assert forall|i: int| 0 <= i < o.diagnostics@.len() implies lines[k + i] == spec_symbol(
        (#[trigger] o.diagnostics@[i]).level,
    ) + " "@ + o.diagnostics@[i].check@ + " "@ + o.diagnostics@[i].message@ by {
        assert(lines[k + i] == diagnostic_lines(o)[i]);
    }
}

} // verus!
