//! Resolving an operation with its selection reason, and the execution plan
//! that a dry run reports.
use vstd::prelude::*;

use crate::manager::spec_manager_name;
use crate::model::{
    cli_error, CliError, CommandView, RepositoryDetection, RunCommand,
};
use crate::operations::{
    build_install_command, build_package_mutation_command, build_run_command, extend_strings,
    find_root, resolve_root_install_command, resolve_standard_project_command,
    root_component, select_deploy_provider, spec_build_install, spec_build_run, spec_mutation,
    spec_operation_name, spec_provider_name, spec_resolve_standard, spec_root_install,
    spec_select_deploy, tool_view, DeployEvidence, Operation,
};
use crate::text::{concat, concat3, contains, contains_str, copy_str, join, join_strings, opt_view, str_eq, views};

verus! {

/// An operation resolved to its native command.
#[derive(Debug)]
pub struct ResolvedOperation {
    pub operation: Operation,
    pub command: RunCommand,
    pub selection_reason: String,
    pub ecosystem: Option<String>,
    pub evidence: Vec<String>,
}

pub struct ResolvedView {
    pub operation: Operation,
    pub command: CommandView,
    pub selection_reason: Seq<char>,
    pub ecosystem: Option<Seq<char>>,
    pub evidence: Seq<Seq<char>>,
}

pub open spec fn resolved_result(r: Result<ResolvedOperation, CliError>) -> Result<ResolvedView, (Seq<char>, u8)> {
    match r {
        Ok(o) => Ok(
            ResolvedView {
                operation: o.operation,
                command: o.command@,
                selection_reason: o.selection_reason@,
                ecosystem: opt_view(o.ecosystem),
                evidence: views(o.evidence@),
            },
        ),
        Err(e) => Err((e.message@, e.exit_code)),
    }
}

/// Why the tool was chosen, when the operation gives no reason of its own.
pub open spec fn default_reason(d: RepositoryDetection, tool: Option<Seq<char>>, program: Seq<char>) -> Seq<char> {
    match tool {
        Some(t) => "selected "@ + t + " by explicit --tool override"@,
        None => match d.manager {
            Some(m) => "selected "@ + spec_manager_name(m.name) + " by "@ + m.selected_by@,
            None => {
                let t = match root_component(d.components@, None) {
                    Some(c) => match opt_view(c.tool) {
                        Some(t) => t,
                        None => program,
                    },
                    None => program,
                };
                "selected "@ + t + " from root project evidence"@
            },
        },
    }
}

pub open spec fn spec_resolve_operation(
    d: RepositoryDetection,
    op: Operation,
    args: Seq<Seq<char>>,
    tool: Option<Seq<char>>,
    deploy: DeployEvidence,
) -> Result<ResolvedView, (Seq<char>, u8)> {
    let with_reason = |r: Result<CommandView, (Seq<char>, u8)>|
        match r {
            Ok(c) => Ok(
                ResolvedView {
                    operation: op,
                    command: c,
                    selection_reason: default_reason(d, tool, c.program),
                    ecosystem: None,
                    evidence: seq![],
                },
            ),
            Err(e) => Err(e),
        };
    match op {
        Operation::Build | Operation::Test | Operation::Lint | Operation::Typecheck => with_reason(
            spec_resolve_standard(d, spec_operation_name(op), args, tool),
        ),
        Operation::Custom(name) => with_reason(spec_build_run(d, seq![name@] + args, tool)),
        Operation::Install => with_reason(
            if args.len() == 0 {
                spec_root_install(d, tool)
            } else {
                spec_build_install(d, args, tool)
            },
        ),
        Operation::Add => with_reason(spec_mutation(d, args, tool, true)),
        Operation::Remove => with_reason(spec_mutation(d, args, tool, false)),
        Operation::Deploy => match spec_select_deploy(deploy, tool) {
            Err(e) => Err(e),
            Ok((p, evidence)) => Ok(
                ResolvedView {
                    operation: Operation::Deploy,
                    command: CommandView {
                        program: spec_provider_name(p),
                        args: seq!["deploy"@] + args,
                        working_directory: d.root@,
                    },
                    selection_reason: "selected "@ + spec_provider_name(p) + (if tool is Some {
                        " by explicit --tool override"@
                    } else {
                        " from deployment evidence"@
                    }),
                    ecosystem: Some("deployment"@),
                    evidence,
                },
            ),
        },
    }
}

fn selection_reason(detection: &RepositoryDetection, override_tool: Option<&str>, program: &String) -> (r: String)
    ensures
        r@ == default_reason(*detection, tool_view(override_tool), program@),
{
    if let Some(tool) = override_tool {
        return concat3("selected ", tool, " by explicit --tool override");
    }
    if let Some(m) = &detection.manager {
        let mut s = concat3("selected ", m.name.display_name(), " by ");
        s.append(m.selected_by.as_str());
        return s;
    }
    let tool: &str = match find_root(detection.components.as_slice(), None) {
        Some(i) => match &detection.components[i].tool {
            Some(t) => t.as_str(),
            None => program.as_str(),
        },
        None => program.as_str(),
    };
    concat3("selected ", tool, " from root project evidence")
}

fn with_args_head(head: &String, rest: &[String]) -> (r: Vec<String>)
    ensures
        views(r@) == seq![head@] + views(rest@),
{
    let mut r = vec![head.clone()];
    assert(views(r@) =~= seq![head@]);
    extend_strings(&mut r, rest);
    r
}

/// Resolve an operation to its native command, with why that tool was chosen.
pub fn resolve_operation(
    detection: &RepositoryDetection,
    operation: Operation,
    args: &[String],
    override_tool: Option<&str>,
    deploy: &DeployEvidence,
) -> (r: Result<ResolvedOperation, CliError>)
    ensures
        resolved_result(r) == spec_resolve_operation(*detection, operation, views(args@), tool_view(override_tool), *deploy),
        r matches Ok(o) ==> o.operation == operation,
{
    let ghost op = operation;
    let command = match &operation {
        Operation::Build | Operation::Test | Operation::Lint | Operation::Typecheck => {
            let name = operation.name();
            resolve_standard_project_command(detection, name.as_str(), args, override_tool)
        },
        Operation::Custom(name) => {
            let run_args = with_args_head(name, args);
            build_run_command(detection, run_args.as_slice(), override_tool)
        },
        Operation::Install => {
            if args.len() == 0 {
                resolve_root_install_command(detection, override_tool)
            } else {
                build_install_command(detection, args, override_tool)
            }
        },
        Operation::Add => build_package_mutation_command(detection, args, override_tool, true),
        Operation::Remove => build_package_mutation_command(detection, args, override_tool, false),
        Operation::Deploy => {
            let selection = match select_deploy_provider(deploy, override_tool) {
                Ok(s) => s,
                Err(e) => {
                    return Err(e);
                },
            };
            let (program, canonical) = selection.provider.command();
            let mut cargs = vec![copy_str(canonical)];
            assert(views(cargs@) =~= seq!["deploy"@]);
            extend_strings(&mut cargs, args);
            let command = RunCommand {
                program: copy_str(program),
                args: cargs,
                working_directory: detection.root.clone(),
            };
            let reason = concat3(
                "selected ",
                selection.provider.name(),
                if override_tool.is_some() {
                    " by explicit --tool override"
                } else {
                    " from deployment evidence"
                },
            );
            return Ok(
                ResolvedOperation {
                    operation,
                    command,
                    selection_reason: reason,
                    ecosystem: Some(copy_str("deployment")),
                    evidence: selection.evidence,
                },
            );
        },
    };
    match command {
        Err(e) => Err(e),
        Ok(command) => {
            let reason = selection_reason(detection, override_tool, &command.program);
            let evidence: Vec<String> = Vec::new();
            assert(views(evidence@) =~= Seq::<Seq<char>>::empty());
            Ok(
                ResolvedOperation {
                    operation,
                    command,
                    selection_reason: reason,
                    ecosystem: None,
                    evidence,
                },
            )
        },
    }
}

// ---------------------------------------------------------------------------
// Execution plans
// ---------------------------------------------------------------------------
/// What a dry run reports about a command.
#[derive(Debug)]
pub struct ExecutionPlan {
    pub operation: String,
    pub ecosystem: String,
    pub tool: String,
    pub runner: String,
    pub command: Vec<String>,
    pub evidence: Vec<String>,
    pub working_directory: String,
    pub project_root: String,
    pub workspace: Option<String>,
    pub environment: Vec<(String, String)>,
    pub supported: bool,
    pub selection_reason: String,
}

/// What the working directory holds that a plan cites as evidence.
#[derive(Debug)]
pub struct WorkdirFacts {
    /// The names of the regular files directly in the directory.
    pub files: Vec<String>,
    /// The text of `package.json`, when it is a file that could be read.
    pub package_json_text: Option<String>,
}

pub struct PlanView {
    pub operation: Seq<char>,
    pub ecosystem: Seq<char>,
    pub tool: Seq<char>,
    pub runner: Seq<char>,
    pub command: Seq<Seq<char>>,
    pub evidence: Seq<Seq<char>>,
    pub working_directory: Seq<char>,
    pub project_root: Seq<char>,
    pub workspace: Option<Seq<char>>,
    pub environment_len: nat,
    pub supported: bool,
    pub selection_reason: Seq<char>,
}

impl View for ExecutionPlan {
    type V = PlanView;

    open spec fn view(&self) -> PlanView {
        PlanView {
            operation: self.operation@,
            ecosystem: self.ecosystem@,
            tool: self.tool@,
            runner: self.runner@,
            command: views(self.command@),
            evidence: views(self.evidence@),
            working_directory: self.working_directory@,
            project_root: self.project_root@,
            workspace: opt_view(self.workspace),
            environment_len: self.environment@.len(),
            supported: self.supported,
            selection_reason: self.selection_reason@,
        }
    }
}

/// The tool a program belongs to.
pub open spec fn spec_plan_tool(program: Seq<char>) -> Seq<char> {
    if program == "npx"@ {
        "npm"@
    } else if program == "bunx"@ {
        "bun"@
    } else if program == "uvx"@ || program == "uv"@ {
        "uv"@
    } else if program == "pipx"@ || program == "pip"@ {
        "pip"@
    } else {
        program
    }
}

pub open spec fn first_is(args: Seq<Seq<char>>, s: Seq<char>) -> bool {
    args.len() > 0 && args[0] == s
}

pub open spec fn spec_plan_operation(program: Seq<char>, args: Seq<Seq<char>>) -> Seq<char> {
    if first_is(args, "install"@) {
        "install"@
    } else if first_is(args, "add"@) || first_is(args, "remove"@) || first_is(args, "uninstall"@) {
        args[0]
    } else if first_is(args, "run"@) {
        "task"@
    } else if program == "npx"@ || program == "bunx"@ || program == "uvx"@ || (program == "pnpm"@
        && first_is(args, "dlx"@)) || (program == "yarn"@ && first_is(args, "dlx"@)) {
        "package-run"@
    } else {
        "exec"@
    }
}

pub open spec fn spec_plan_ecosystem(tool: Seq<char>) -> Seq<char> {
    if tool == "cargo"@ {
        "rust"@
    } else if tool == "uv"@ || tool == "pip"@ {
        "python"@
    } else if tool == "docker"@ {
        "docker"@
    } else {
        "javascript"@
    }
}

/// The names among `names` that are present, in the order of `names`.
pub open spec fn present(names: Seq<Seq<char>>, files: Seq<Seq<char>>) -> Seq<Seq<char>>
    decreases names.len(),
{
    if names.len() == 0 {
        seq![]
    } else {
        present(names.drop_last(), files) + if files.contains(names.last()) {
            seq![names.last()]
        } else {
            seq![]
        }
    }
}

pub open spec fn js_evidence_files() -> Seq<Seq<char>> {
    seq!["package-lock.json"@, "pnpm-lock.yaml"@, "yarn.lock"@, "bun.lock"@, "bun.lockb"@]
}

pub open spec fn python_evidence_files() -> Seq<Seq<char>> {
    seq![
        "requirements.txt"@,
        "requirements-dev.txt"@,
        "uv.lock"@,
        "poetry.lock"@,
        "pdm.lock"@,
        "pyproject.toml"@,
    ]
}

pub open spec fn spec_plan_evidence(files: Seq<Seq<char>>, package_json_text: Option<Seq<char>>) -> Seq<Seq<char>> {
    let js: Seq<Seq<char>> = if files.contains("package.json"@) {
        (if package_json_text is Some && contains(package_json_text.unwrap(), "\"packageManager\""@) {
            seq!["package.json#packageManager"@]
        } else {
            seq![]
        }) + present(js_evidence_files(), files)
    } else {
        seq![]
    };
    js + present(python_evidence_files(), files)
}

pub open spec fn spec_execution_plan(c: CommandView, files: Seq<Seq<char>>, package_json_text: Option<Seq<char>>) -> PlanView {
    let tool = spec_plan_tool(c.program);
    PlanView {
        operation: spec_plan_operation(c.program, c.args),
        ecosystem: spec_plan_ecosystem(tool),
        tool,
        runner: if c.program == "pnpm"@ && first_is(c.args, "dlx"@) {
            "pnpm dlx"@
        } else {
            c.program
        },
        command: seq![c.program] + c.args,
        evidence: spec_plan_evidence(files, package_json_text),
        working_directory: c.working_directory,
        project_root: c.working_directory,
        workspace: None,
        environment_len: 0,
        supported: true,
        selection_reason: "selected "@ + tool + " from project evidence"@,
    }
}

fn plan_tool(program: &str) -> (r: &str)
    ensures
        r@ == spec_plan_tool(program@),
{
    if str_eq(program, "npx") {
        "npm"
    } else if str_eq(program, "bunx") {
        "bun"
    } else if str_eq(program, "uvx") || str_eq(program, "uv") {
        "uv"
    } else if str_eq(program, "pipx") || str_eq(program, "pip") {
        "pip"
    } else {
        program
    }
}

fn first_arg_is(args: &Vec<String>, s: &str) -> (r: bool)
    ensures
        r == first_is(views(args@), s@),
{
    args.len() > 0 && str_eq(args[0].as_str(), s)
}

pub fn push_present(out: &mut Vec<String>, names: &[&str], files: &[String])
    ensures
        views(final(out)@) == views(old(out)@) + present(names@.map_values(|s: &str| s@), views(files@)),
{
    let ghost start = views(out@);
    let ghost nv = names@.map_values(|s: &str| s@);
    let mut i: usize = 0;
    assert(nv.take(0) =~= Seq::<Seq<char>>::empty());
    assert(start + present(nv.take(0), views(files@)) =~= start);
    while i < names.len()
        invariant
            i <= names.len(),
            nv == names@.map_values(|s: &str| s@),
            views(out@) == start + present(nv.take(i as int), views(files@)),
        decreases names.len() - i,
    {
        let ghost pre = views(out@);
        assert(nv.take(i + 1).drop_last() =~= nv.take(i as int));
        assert(nv.take(i + 1).last() == names@[i as int]@);
        if crate::manager::contains_string(files, names[i]) {
            out.push(copy_str(names[i]));
            assert(views(out@) =~= pre.push(names@[i as int]@));
        }
        assert(views(out@) =~= start + present(nv.take(i + 1), views(files@)));
        i += 1;
    }
    assert(nv.take(names.len() as int) =~= nv);
}

fn js_evidence_names() -> (r: Vec<&'static str>)
    ensures
        r@.map_values(|s: &str| s@) == js_evidence_files(),
{
    let r = vec!["package-lock.json", "pnpm-lock.yaml", "yarn.lock", "bun.lock", "bun.lockb"];
    assert(r@.map_values(|s: &str| s@) =~= js_evidence_files());
    r
}

fn python_evidence_names() -> (r: Vec<&'static str>)
    ensures
        r@.map_values(|s: &str| s@) == python_evidence_files(),
{
    let r = vec!["requirements.txt", "requirements-dev.txt", "uv.lock", "poetry.lock", "pdm.lock", "pyproject.toml"];
    assert(r@.map_values(|s: &str| s@) =~= python_evidence_files());
    r
}

/// The plan a dry run reports for a command.
pub fn execution_plan(command: &RunCommand, facts: &WorkdirFacts) -> (p: ExecutionPlan)
    ensures
        p@ == spec_execution_plan(command@, views(facts.files@), opt_view(facts.package_json_text)),
{
    let program = command.program.as_str();
    let tool = plan_tool(program);
    let operation: String = if first_arg_is(&command.args, "install") {
        copy_str("install")
    } else if first_arg_is(&command.args, "add") || first_arg_is(&command.args, "remove") || first_arg_is(&command.args, "uninstall") {
        command.args[0].clone()
    } else if first_arg_is(&command.args, "run") {
        copy_str("task")
    } else if str_eq(program, "npx") || str_eq(program, "bunx") || str_eq(program, "uvx")
        || (str_eq(program, "pnpm") && first_arg_is(&command.args, "dlx"))
        || (str_eq(program, "yarn") && first_arg_is(&command.args, "dlx")) {
        copy_str("package-run")
    } else {
        copy_str("exec")
    };
    let mut evidence: Vec<String> = Vec::new();
    assert(views(evidence@) =~= Seq::<Seq<char>>::empty());
    let files = facts.files.as_slice();
    if crate::manager::contains_string(files, "package.json") {
        let cites = match &facts.package_json_text {
            Some(t) => contains_str(t.as_str(), "\"packageManager\""),
            None => false,
        };
        if cites {
            evidence.push(copy_str("package.json#packageManager"));
            assert(views(evidence@) =~= seq!["package.json#packageManager"@]);
        } else {
            assert(views(evidence@) =~= Seq::<Seq<char>>::empty());
        }
        let names = js_evidence_names();
        push_present(&mut evidence, names.as_slice(), files);
    }
    let ghost js_part = views(evidence@);
    let ghost fv = views(facts.files@);
    let ghost pj = opt_view(facts.package_json_text);
    assert(js_part == if fv.contains("package.json"@) {
        (if pj is Some && contains(pj.unwrap(), "\"packageManager\""@) {
            seq!["package.json#packageManager"@]
        } else {
            Seq::<Seq<char>>::empty()
        }) + present(js_evidence_files(), fv)
    } else {
        Seq::<Seq<char>>::empty()
    });
    let names = python_evidence_names();
    push_present(&mut evidence, names.as_slice(), files);
    assert(views(evidence@) == spec_plan_evidence(fv, pj));
    let ecosystem = if str_eq(tool, "cargo") {
        "rust"
    } else if str_eq(tool, "uv") || str_eq(tool, "pip") {
        "python"
    } else if str_eq(tool, "docker") {
        "docker"
    } else {
        "javascript"
    };
    let runner = if str_eq(program, "pnpm") && first_arg_is(&command.args, "dlx") {
        copy_str("pnpm dlx")
    } else {
        command.program.clone()
    };
    let mut cmdline = vec![command.program.clone()];
    assert(views(cmdline@) =~= seq![command.program@]);
    extend_strings(&mut cmdline, command.args.as_slice());
    let env: Vec<(String, String)> = Vec::new();
    ExecutionPlan {
        operation,
        ecosystem: copy_str(ecosystem),
        tool: copy_str(tool),
        runner,
        command: cmdline,
        evidence,
        working_directory: command.working_directory.clone(),
        project_root: command.working_directory.clone(),
        workspace: None,
        environment: env,
        supported: true,
        selection_reason: concat3("selected ", tool, " from project evidence"),
    }
}


/// The plan for a resolved operation: the command's plan, named after the
/// operation, rooted at the project and with the resolution's reason and
/// evidence.
pub open spec fn spec_operation_plan(
    r: ResolvedOperation,
    d: RepositoryDetection,
    files: Seq<Seq<char>>,
    package_json_text: Option<Seq<char>>,
) -> PlanView {
    let base = spec_execution_plan(r.command@, files, package_json_text);
    PlanView {
        operation: spec_operation_name(r.operation),
        project_root: d.root@,
        workspace: opt_view(d.workspace_source),
        selection_reason: r.selection_reason@,
        ecosystem: match r.ecosystem {
            Some(e) => e@,
            None => base.ecosystem,
        },
        evidence: if r.evidence@.len() > 0 {
            views(r.evidence@)
        } else {
            base.evidence
        },
        ..base
    }
}

pub fn clone_strings(v: &Vec<String>) -> (r: Vec<String>)
    ensures
        views(r@) == views(v@),
{
    let mut r: Vec<String> = Vec::new();
    extend_strings(&mut r, v.as_slice());
    assert(views(r@) =~= views(v@));
    r
}

pub fn operation_plan(resolved: &ResolvedOperation, detection: &RepositoryDetection, facts: &WorkdirFacts) -> (p: ExecutionPlan)
    ensures
        p@ == spec_operation_plan(*resolved, *detection, views(facts.files@), opt_view(facts.package_json_text)),
{
    let mut plan = execution_plan(&resolved.command, facts);
    plan.operation = resolved.operation.name();
    plan.project_root = detection.root.clone();
    plan.workspace = match &detection.workspace_source {
        Some(w) => Some(w.clone()),
        None => None,
    };
    plan.selection_reason = resolved.selection_reason.clone();
    if let Some(ecosystem) = &resolved.ecosystem {
        plan.ecosystem = ecosystem.clone();
    }
    if resolved.evidence.len() > 0 {
        plan.evidence = clone_strings(&resolved.evidence);
    }
    plan
}

pub open spec fn evidence_text(e: Seq<Seq<char>>) -> Seq<char> {
    if e.len() == 0 {
        "none"@
    } else {
        join(e, ", "@)
    }
}

/// The text of a dry run of an operation.
pub open spec fn spec_render_operation_plan(p: PlanView, is_deploy: bool) -> Seq<char> {
    if is_deploy {
        "ecosystem: "@ + p.ecosystem + "\nprovider: "@ + p.tool + "\nevidence: "@ + evidence_text(p.evidence)
            + "\ncommand: "@ + join(p.command, " "@) + "\nworking directory: "@ + p.working_directory
    } else {
        "Operation:   "@ + p.operation + "\nTool:        "@ + p.tool + "\nSelected by: "@
            + p.selection_reason + "\nCommand:     "@ + join(p.command, " "@) + "\nWorking dir: "@
            + p.working_directory
    }
}

/// The text of a dry run of a command given directly (`exec`, `x`).
pub open spec fn spec_render_execution_plan(p: PlanView) -> Seq<char> {
    "Ecosystem:   "@ + p.ecosystem + "\nTool:        "@ + p.tool + "\nOperation:   "@ + p.operation
        + "\nEvidence:    "@ + evidence_text(p.evidence) + "\nCommand:     "@ + join(p.command, " "@)
        + "\nWorking dir: "@ + p.working_directory
}

fn render_evidence(e: &Vec<String>) -> (r: String)
    ensures
        r@ == evidence_text(views(e@)),
{
    if e.len() == 0 {
        copy_str("none")
    } else {
        join_strings(e.as_slice(), ", ")
    }
}

pub fn render_operation_plan(plan: &ExecutionPlan, is_deploy: bool) -> (r: String)
    ensures
        r@ == spec_render_operation_plan(plan@, is_deploy),
{
    let command = join_strings(plan.command.as_slice(), " ");
    if is_deploy {
        let mut s = concat("ecosystem: ", plan.ecosystem.as_str());
        s.append("\nprovider: ");
        s.append(plan.tool.as_str());
        s.append("\nevidence: ");
        s.append(render_evidence(&plan.evidence).as_str());
        s.append("\ncommand: ");
        s.append(command.as_str());
        s.append("\nworking directory: ");
        s.append(plan.working_directory.as_str());
        s
    } else {
        let mut s = concat("Operation:   ", plan.operation.as_str());
        s.append("\nTool:        ");
        s.append(plan.tool.as_str());
        s.append("\nSelected by: ");
        s.append(plan.selection_reason.as_str());
        s.append("\nCommand:     ");
        s.append(command.as_str());
        s.append("\nWorking dir: ");
        s.append(plan.working_directory.as_str());
        s
    }
}

pub fn render_execution_plan(plan: &ExecutionPlan) -> (r: String)
    ensures
        r@ == spec_render_execution_plan(plan@),
{
    let mut s = concat("Ecosystem:   ", plan.ecosystem.as_str());
    s.append("\nTool:        ");
    s.append(plan.tool.as_str());
    s.append("\nOperation:   ");
    s.append(plan.operation.as_str());
    s.append("\nEvidence:    ");
    s.append(render_evidence(&plan.evidence).as_str());
    s.append("\nCommand:     ");
    s.append(join_strings(plan.command.as_slice(), " ").as_str());
    s.append("\nWorking dir: ");
    s.append(plan.working_directory.as_str());
    s
}

/// How a finished native command ends PAX: success prints nothing; a failure
/// passes the exit code on (capped at 255; a signal counts as 1).
pub open spec fn spec_execution_outcome(code: Option<i32>) -> Result<Seq<char>, (Seq<char>, u8)> {
    match code {
        Some(0) => Ok(seq![]),
        Some(c) => Err((seq![], (if c < 255 { c } else { 255 }) as u8)),
        None => Err((seq![], 1u8)),
    }
}

pub fn execution_outcome(code: Option<i32>) -> (r: Result<String, CliError>)
    ensures
        match r {
            Ok(s) => spec_execution_outcome(code) == Ok::<_, (Seq<char>, u8)>(s@),
            Err(e) => spec_execution_outcome(code) == Err::<Seq<char>, _>((e.message@, e.exit_code)),
        },
{
    match code {
        Some(0) => Ok(String::new()),
        Some(c) => {
            let capped: i32 = if c < 255 { c } else { 255 };
            Err(cli_error(String::new(), #[verifier::truncate] (capped as u8)))
        },
        None => Err(cli_error(String::new(), 1)),
    }
}

// ---------------------------------------------------------------------------
// Laws of resolution
// ---------------------------------------------------------------------------
/// Deploying runs the selected provider's `deploy` with the given arguments
/// in the project root, in the deployment ecosystem, with the provider's
/// evidence and the reason it was selected (by the override, else from the
/// evidence); a failed selection is the operation's failure.
pub proof fn law_deploy_operation(d: RepositoryDetection, args: Seq<Seq<char>>, tool: Option<Seq<char>>, deploy: DeployEvidence)
    ensures
        spec_resolve_operation(d, Operation::Deploy, args, tool, deploy) == match spec_select_deploy(deploy, tool) {
            Err(e) => Err(e),
            Ok((p, evidence)) => Ok(
                ResolvedView {
                    operation: Operation::Deploy,
                    command: CommandView {
                        program: spec_provider_name(p),
                        args: seq!["deploy"@] + args,
                        working_directory: d.root@,
                    },
                    selection_reason: "selected "@ + spec_provider_name(p) + if tool is Some {
                        " by explicit --tool override"@
                    } else {
                        " from deployment evidence"@
                    },
                    ecosystem: Some("deployment"@),
                    evidence,
                },
            ),
        },
{
}

/// Every other operation that resolves has no ecosystem and no evidence of
/// its own, and says why its tool was chosen: by the override, else by how
/// the package manager was selected, else from the root project's tool.
pub proof fn law_operation_reason(d: RepositoryDetection, op: Operation, args: Seq<Seq<char>>, tool: Option<Seq<char>>, deploy: DeployEvidence)
    requires
        !(op is Deploy),
    ensures
        match spec_resolve_operation(d, op, args, tool, deploy) {
            Ok(r) => r.ecosystem is None && r.evidence.len() == 0 && r.selection_reason == default_reason(
                d,
                tool,
                r.command.program,
            ),
            Err(_) => true,
        },
{
}

} // verus!
