//! The data that detection produces and the commands and reports read.
use vstd::prelude::*;

use crate::text::{opt_view, views};

verus! {

#[derive(Clone, Copy, Debug, PartialEq, Eq, Structural)]
pub enum Ecosystem {
    JavaScript,
    Python,
    Rust,
    Container,
}

#[derive(Clone, Copy, Debug, PartialEq, Eq, Structural)]
pub enum PackageManager {
    Npm,
    Pnpm,
    Bun,
    Yarn,
}

/// An error that ends the command: what to print and the process exit code.
#[derive(Debug)]
pub struct CliError {
    pub message: String,
    pub exit_code: u8,
}

pub fn cli_error(message: String, exit_code: u8) -> (e: CliError)
    ensures
        e.message@ == message@,
        e.exit_code == exit_code,
{
    CliError { message, exit_code }
}

#[derive(Debug)]
pub struct EvidenceItem {
    pub kind: String,
    pub path: String,
}

#[derive(Debug)]
pub struct DependencySource {
    pub kind: String,
    pub path: String,
}

#[derive(Debug)]
pub struct NativeDependency {
    pub name: String,
    pub specifier: String,
    pub kind: String,
    pub ecosystem: Ecosystem,
    pub native_kind: String,
}

#[derive(Debug)]
pub struct Component {
    pub path: String,
    pub ecosystem: Ecosystem,
    pub tool: Option<String>,
    pub manifests: Vec<String>,
    pub lockfiles: Vec<String>,
    pub evidence: Vec<EvidenceItem>,
    pub workspace_packages: Vec<String>,
    pub dependency_sources: Vec<DependencySource>,
}

#[derive(Debug)]
pub struct CargoPackage {
    pub name: String,
    pub manifest_path: String,
    pub workspace_member: bool,
}

#[derive(Debug)]
pub struct CargoObservation {
    pub manifest: String,
    pub lockfile: Option<String>,
    pub workspace: bool,
    pub workspace_root: String,
    pub workspace_members: Vec<String>,
    pub packages: Vec<CargoPackage>,
    pub dependencies: Vec<NativeDependency>,
    pub source: String,
}

/// A map from names to values, kept sorted by name with each name once
/// (the order in which `BTreeMap` walks its entries).
pub type NameMap = Vec<(String, String)>;

#[derive(Debug)]
pub struct ContainerInfo {
    pub dockerfiles: Vec<String>,
    pub compose_files: Vec<String>,
    pub services: Vec<String>,
    pub images: Vec<String>,
    /// Directive name to the values it was given, sorted by directive name.
    pub directives: Vec<(String, Vec<String>)>,
}

#[derive(Debug)]
pub struct PackageJsonData {
    pub name: Option<String>,
    pub package_manager_field: Option<String>,
    pub has_workspaces: bool,
    pub dependencies: NameMap,
    pub dev_dependencies: NameMap,
    pub optional_dependencies: NameMap,
    pub peer_dependencies: NameMap,
    pub scripts: NameMap,
    pub workspace_packages: Vec<String>,
}

/// The package manager that detection settled on.
#[derive(Debug)]
pub struct DetectedManager {
    pub name: PackageManager,
    pub version: Option<String>,
    pub lockfile: Option<String>,
    pub selected_by: String,
}

pub struct ManagerChoice {
    pub name: PackageManager,
    pub version: Option<Seq<char>>,
    pub lockfile: Option<Seq<char>>,
    pub selected_by: Seq<char>,
}

impl View for DetectedManager {
    type V = ManagerChoice;

    open spec fn view(&self) -> ManagerChoice {
        ManagerChoice {
            name: self.name,
            version: opt_view(self.version),
            lockfile: opt_view(self.lockfile),
            selected_by: self.selected_by@,
        }
    }
}

/// What detection found in a project directory.
#[derive(Debug)]
pub struct RepositoryDetection {
    pub root: String,
    pub project_name: String,
    pub package_json: bool,
    pub package_json_data: Option<PackageJsonData>,
    pub workspace: bool,
    pub workspace_source: Option<String>,
    pub manager: Option<DetectedManager>,
    pub lockfiles: Vec<String>,
    pub workspace_files: Vec<String>,
    pub workspace_packages: Vec<String>,
    pub selection_notes: Vec<String>,
    pub components: Vec<Component>,
    pub native_dependencies: Vec<NativeDependency>,
    pub container: Option<ContainerInfo>,
    pub cargo: Option<CargoObservation>,
}

/// A native command: the program, its arguments and where it runs.
#[derive(Debug)]
pub struct RunCommand {
    pub program: String,
    pub args: Vec<String>,
    pub working_directory: String,
}

pub struct CommandView {
    pub program: Seq<char>,
    pub args: Seq<Seq<char>>,
    pub working_directory: Seq<char>,
}

impl View for RunCommand {
    type V = CommandView;

    open spec fn view(&self) -> CommandView {
        CommandView {
            program: self.program@,
            args: views(self.args@),
            working_directory: self.working_directory@,
        }
    }
}

/// A command, or the message and exit code it failed with.
pub open spec fn command_result(r: Result<RunCommand, CliError>) -> Result<CommandView, (Seq<char>, u8)> {
    match r {
        Ok(c) => Ok(c@),
        Err(e) => Err((e.message@, e.exit_code)),
    }
}

pub open spec fn names_view(m: NameMap) -> Seq<(Seq<char>, Seq<char>)> {
    m@.map_values(|e: (String, String)| (e.0@, e.1@))
}

pub open spec fn strings_view(v: Vec<String>) -> Seq<Seq<char>> {
    views(v@)
}

/// A dependency as plain values: name, specifier, kind, ecosystem and the
/// manifest's own word for its kind.
pub type DepView = (Seq<char>, Seq<char>, Seq<char>, Ecosystem, Seq<char>);

pub open spec fn dep_view(d: NativeDependency) -> DepView {
    (d.name@, d.specifier@, d.kind@, d.ecosystem, d.native_kind@)
}

pub open spec fn deps_view(v: Seq<NativeDependency>) -> Seq<DepView> {
    v.map_values(|d: NativeDependency| dep_view(d))
}

pub open spec fn evidence_view(v: Seq<EvidenceItem>) -> Seq<(Seq<char>, Seq<char>)> {
    v.map_values(|e: EvidenceItem| (e.kind@, e.path@))
}

pub open spec fn sources_view(v: Seq<DependencySource>) -> Seq<(Seq<char>, Seq<char>)> {
    v.map_values(|e: DependencySource| (e.kind@, e.path@))
}

pub struct ComponentView {
    pub path: Seq<char>,
    pub ecosystem: Ecosystem,
    pub tool: Option<Seq<char>>,
    pub manifests: Seq<Seq<char>>,
    pub lockfiles: Seq<Seq<char>>,
    pub evidence: Seq<(Seq<char>, Seq<char>)>,
    pub workspace_packages: Seq<Seq<char>>,
    pub dependency_sources: Seq<(Seq<char>, Seq<char>)>,
}

impl View for Component {
    type V = ComponentView;

    open spec fn view(&self) -> ComponentView {
        ComponentView {
            path: self.path@,
            ecosystem: self.ecosystem,
            tool: opt_view(self.tool),
            manifests: views(self.manifests@),
            lockfiles: views(self.lockfiles@),
            evidence: evidence_view(self.evidence@),
            workspace_packages: views(self.workspace_packages@),
            dependency_sources: sources_view(self.dependency_sources@),
        }
    }
}

pub open spec fn components_view(v: Seq<Component>) -> Seq<ComponentView> {
    v.map_values(|c: Component| c@)
}

/// A container description as plain values: Dockerfiles, compose files,
/// services, images, and each directive with its values.
pub type ContainerView = (Seq<Seq<char>>, Seq<Seq<char>>, Seq<Seq<char>>, Seq<Seq<char>>, Seq<(Seq<char>, Seq<Seq<char>>)>);

pub open spec fn container_view(c: ContainerInfo) -> ContainerView {
    (
        views(c.dockerfiles@),
        views(c.compose_files@),
        views(c.services@),
        views(c.images@),
        c.directives@.map_values(|e: (String, Vec<String>)| (e.0@, views(e.1@))),
    )
}

} // verus!
