//! What a command line asks for, once the project is known: a report, an
//! observation, a native command to run, or the plan of one.
use vstd::prelude::*;

use crate::cli::{spec_parse_args, CliView, CommandName, ParsedCli, USAGE};
use crate::model::{cli_error, CliError, CommandView, Ecosystem, RepositoryDetection, RunCommand};
use crate::observe::js_locks;
use crate::operations::{build_x_command, spec_build_x, DeployEvidence, Operation};
use crate::plan::{resolve_operation, resolved_result, spec_resolve_operation, ResolvedOperation, ResolvedView};
use crate::text::{concat, copy_str, join, views};

verus! {

/// What to do for a command.
#[derive(Debug)]
pub enum Action {
    /// Report the detection under this command name (`doctor` also reports
    /// the runtime).
    Report { command: String, include_runtime: bool },
    /// Observe the project: `graph`, `reality` or `drift`.
    Observe(CommandName),
    /// Run this native command.
    Execute(RunCommand),
    /// Show the plan of this native command without running it.
    ShowPlan(RunCommand),
    /// Show the plan of this resolved operation without running it.
    ShowOperationPlan(ResolvedOperation),
}

pub enum ActionView {
    Report(Seq<char>, bool),
    Observe(CommandName),
    Execute(CommandView),
    ShowPlan(CommandView),
    ShowOperationPlan(ResolvedView),
}

pub open spec fn action_view(a: Action) -> ActionView {
    match a {
        Action::Report { command, include_runtime } => ActionView::Report(command@, include_runtime),
        Action::Observe(c) => ActionView::Observe(c),
        Action::Execute(c) => ActionView::Execute(c@),
        Action::ShowPlan(c) => ActionView::ShowPlan(c@),
        Action::ShowOperationPlan(o) => ActionView::ShowOperationPlan(
            resolved_result(Ok::<ResolvedOperation, CliError>(o))->Ok_0,
        ),
    }
}

pub open spec fn action_result(r: Result<Action, CliError>) -> Result<ActionView, (Seq<char>, u8)> {
    match r {
        Ok(a) => Ok(action_view(a)),
        Err(e) => Err((e.message@, e.exit_code)),
    }
}

/// Run `c` or, in a dry run, show its plan.
pub open spec fn run_or_plan(c: CommandView, dry_run: bool) -> ActionView {
    if dry_run {
        ActionView::ShowPlan(c)
    } else {
        ActionView::Execute(c)
    }
}

/// `pax exec PROGRAM ARGS...` in `working_directory`.
pub open spec fn spec_exec_action(cli: CliView, working_directory: Seq<char>) -> Result<ActionView, (Seq<char>, u8)> {
    if cli.run_args.len() == 0 {
        Err(("pax exec requires a command\n\n"@ + USAGE@, 2u8))
    } else {
        Ok(
            run_or_plan(
                CommandView {
                    program: cli.run_args[0],
                    args: cli.run_args.drop_first(),
                    working_directory,
                },
                cli.dry_run,
            ),
        )
    }
}

pub open spec fn is_observation(c: CommandName) -> bool {
    c == CommandName::Graph || c == CommandName::Reality || c == CommandName::Drift
}

pub open spec fn is_inspection(c: CommandName) -> bool {
    ||| c == CommandName::Info
    ||| c == CommandName::Doctor
    ||| c == CommandName::Deps
    ||| c == CommandName::Scripts
    ||| c == CommandName::Workspaces
    ||| c == CommandName::Lock
    ||| is_observation(c)
}

/// The commands that delegate to a package tool and so refuse to guess
/// between several.
pub open spec fn is_guarded(c: CommandName) -> bool {
    ||| c == CommandName::Build
    ||| c == CommandName::Test
    ||| c == CommandName::Lint
    ||| c == CommandName::Typecheck
    ||| c == CommandName::Run
    ||| c == CommandName::X
    ||| c == CommandName::Install
    ||| c == CommandName::Add
    ||| c == CommandName::Remove
}

/// Lockfiles of different JavaScript managers, with no `packageManager` field.
pub open spec fn js_ambiguous(d: RepositoryDetection) -> bool {
    let locks = js_locks(views(d.lockfiles@));
    &&& d.package_json
    &&& !(d.package_json_data matches Some(data) && data.package_manager_field is Some)
    &&& exists|i: int, j: int| 0 <= i < locks.len() && 0 <= j < locks.len() && (#[trigger] locks[i]).0 != (#[trigger] locks[j]).0
}

/// A Python component with more than one lockfile.
pub open spec fn python_ambiguous(d: RepositoryDetection) -> bool {
    exists|i: int|
        0 <= i < d.components@.len() && (#[trigger] d.components@[i]).ecosystem == Ecosystem::Python
            && d.components@[i].lockfiles@.len() > 1
}

pub open spec fn ambiguity_message(d: RepositoryDetection) -> Seq<char> {
    if python_ambiguous(d) {
        "ambiguous Python toolchain: multiple lockfiles detected; use --tool uv, --tool poetry, --tool pdm, or --tool pip"@
    } else {
        "multiple JavaScript package managers detected: "@ + join(views(d.lockfiles@), ", "@)
            + "\nuse --tool npm, --tool pnpm, --tool yarn, or --tool bun"@
    }
}

/// The operation a command stands for, if it is one.
pub open spec fn spec_operation(cli: ParsedCli) -> Option<Operation> {
    match cli.command {
        CommandName::Build => Some(Operation::Build),
        CommandName::Test => Some(Operation::Test),
        CommandName::Lint => Some(Operation::Lint),
        CommandName::Typecheck => Some(Operation::Typecheck),
        CommandName::Run => Some(Operation::Custom(cli.run_args@[0])),
        CommandName::Install => Some(Operation::Install),
        CommandName::Add => Some(Operation::Add),
        CommandName::Remove => Some(Operation::Remove),
        CommandName::Deploy => Some(Operation::Deploy),
        _ => None,
    }
}

/// The arguments an operation gets: those after the target for `run`.
pub open spec fn operation_args(cli: CliView) -> Seq<Seq<char>> {
    if cli.command == CommandName::Run {
        cli.run_args.drop_first()
    } else {
        cli.run_args
    }
}

pub open spec fn report_name(c: CommandName) -> Seq<char> {
    match c {
        CommandName::Info => "info"@,
        CommandName::Doctor => "doctor"@,
        CommandName::Deps => "deps"@,
        CommandName::Scripts => "scripts"@,
        CommandName::Workspaces => "workspaces"@,
        _ => "lock"@,
    }
}

/// What a command other than `exec` asks for, given the detection and the
/// deployment evidence.
pub open spec fn spec_choose_action(cli: ParsedCli, d: RepositoryDetection, deploy: DeployEvidence) -> Result<
    ActionView,
    (Seq<char>, u8),
> {
    let c = cli.command;
    if is_observation(c) {
        Ok(ActionView::Observe(c))
    } else if is_guarded(c) && cli.tool is None && (js_ambiguous(d) || python_ambiguous(d)) {
        Err((ambiguity_message(d), 2u8))
    } else {
        match spec_operation(cli) {
            Some(op) => match spec_resolve_operation(d, op, operation_args(cli@), cli@.tool, deploy) {
                Err(e) => Err(e),
                Ok(r) => Ok(
                    if cli.dry_run {
                        ActionView::ShowOperationPlan(r)
                    } else {
                        ActionView::Execute(r.command)
                    },
                ),
            },
            None => if c == CommandName::X {
                match spec_build_x(d, cli@.run_args, cli@.tool) {
                    Err(e) => Err(e),
                    Ok(cmd) => Ok(run_or_plan(cmd, cli.dry_run)),
                }
            } else {
                Ok(ActionView::Report(report_name(c), c == CommandName::Doctor))
            },
        }
    }
}

/// The action for `pax exec` (which needs no detection).
pub fn exec_action(cli: &ParsedCli, working_directory: &str) -> (r: Result<Action, CliError>)
    ensures
        action_result(r) == spec_exec_action(cli@, working_directory@),
{
    if cli.run_args.len() == 0 {
        let message = concat("pax exec requires a command\n\n", USAGE);
        return Err(cli_error(message, 2));
    }
    let program = cli.run_args[0].clone();
    let args = crate::cli::clone_tail(cli.run_args.as_slice(), 1);
    assert(views(cli.run_args@).skip(1) =~= views(cli.run_args@).drop_first());
    let command = RunCommand { program, args, working_directory: copy_str(working_directory) };
    if cli.dry_run {
        Ok(Action::ShowPlan(command))
    } else {
        Ok(Action::Execute(command))
    }
}

fn js_ambiguous_of(d: &RepositoryDetection) -> (r: bool)
    ensures
        r == js_ambiguous(*d),
{
    let declared = match &d.package_json_data {
        Some(data) => data.package_manager_field.is_some(),
        None => false,
    };
    if !d.package_json || declared {
        return false;
    }
    let (ms, fs) = crate::observe::js_locks_of(&d.lockfiles);
    let ghost locks = js_locks(views(d.lockfiles@));
    if ms.len() == 0 {
        return false;
    }
    let first = ms[0];
    let mut differs = false;
    let mut i: usize = 0;
    while i < ms.len()
        invariant
            i <= ms.len(),
            ms@.len() > 0,
            first == ms@[0],
            ms@.len() == fs@.len(),
            locks == ms@.zip_with(views(fs@)),
            differs == exists|k: int| 0 <= k < i && (#[trigger] locks[k]).0 != first,
        decreases ms.len() - i,
    {
        if ms[i] != first {
            differs = true;
        }
        assert(locks[i as int].0 == ms@[i as int]);
        i += 1;
    }
    assert(locks[0].0 == first);
    if !differs {
        assert forall|a: int, b: int| 0 <= a < locks.len() && 0 <= b < locks.len() implies !((#[trigger] locks[a]).0
            != (#[trigger] locks[b]).0) by {
            assert(!(locks[a].0 != first));
            assert(!(locks[b].0 != first));
        }
    }
    differs
}

fn python_ambiguous_of(d: &RepositoryDetection) -> (r: bool)
    ensures
        r == python_ambiguous(*d),
{
    let mut i: usize = 0;
    while i < d.components.len()
        invariant
            i <= d.components.len(),
            forall|k: int|
                0 <= k < i ==> !((#[trigger] d.components@[k]).ecosystem == Ecosystem::Python
                    && d.components@[k].lockfiles@.len() > 1),
        decreases d.components.len() - i,
    {
        let python = match d.components[i].ecosystem {
            Ecosystem::Python => true,
            _ => false,
        };
        if python && d.components[i].lockfiles.len() > 1 {
            return true;
        }
        i += 1;
    }
    false
}

fn ambiguity_message_of(d: &RepositoryDetection, python: bool) -> (r: String)
    requires
        python == python_ambiguous(*d),
    ensures
        r@ == ambiguity_message(*d),
{
    if python {
        copy_str(
            "ambiguous Python toolchain: multiple lockfiles detected; use --tool uv, --tool poetry, --tool pdm, or --tool pip",
        )
    } else {
        let listed = crate::text::join_strings(d.lockfiles.as_slice(), ", ");
        let head = concat("multiple JavaScript package managers detected: ", listed.as_str());
        concat(head.as_str(), "\nuse --tool npm, --tool pnpm, --tool yarn, or --tool bun")
    }
}

fn is_guarded_of(c: CommandName) -> (r: bool)
    ensures
        r == is_guarded(c),
{
    match c {
        CommandName::Build | CommandName::Test | CommandName::Lint | CommandName::Typecheck | CommandName::Run
        | CommandName::X | CommandName::Install | CommandName::Add | CommandName::Remove => true,
        _ => false,
    }
}

/// The action for a command other than `exec`. `run` comes with its target
/// as the first argument.
pub fn choose_action(cli: &ParsedCli, detection: &RepositoryDetection, deploy: &DeployEvidence) -> (r: Result<Action, CliError>)
    requires
        cli.command != CommandName::Exec,
        cli.command == CommandName::Run ==> cli.run_args.len() > 0,
    ensures
        action_result(r) == spec_choose_action(*cli, *detection, *deploy),
{
    let c = cli.command;
    match c {
        CommandName::Graph | CommandName::Reality | CommandName::Drift => {
            return Ok(Action::Observe(c));
        },
        _ => {},
    }
    if is_guarded_of(c) && cli.tool.is_none() {
        let python = python_ambiguous_of(detection);
        if js_ambiguous_of(detection) || python {
            return Err(cli_error(ambiguity_message_of(detection, python), 2));
        }
    }
    let tool: Option<&str> = match &cli.tool {
        Some(t) => Some(t.as_str()),
        None => None,
    };
    let operation = match c {
        CommandName::Build => Some(Operation::Build),
        CommandName::Test => Some(Operation::Test),
        CommandName::Lint => Some(Operation::Lint),
        CommandName::Typecheck => Some(Operation::Typecheck),
        CommandName::Run => Some(Operation::Custom(cli.run_args[0].clone())),
        CommandName::Install => Some(Operation::Install),
        CommandName::Add => Some(Operation::Add),
        CommandName::Remove => Some(Operation::Remove),
        CommandName::Deploy => Some(Operation::Deploy),
        _ => None,
    };
    assert(operation == spec_operation(*cli));
    match operation {
        Some(op) => {
            let args: Vec<String> = match c {
                CommandName::Run => {
                    let a = crate::cli::clone_tail(cli.run_args.as_slice(), 1);
                    assert(views(cli.run_args@).skip(1) =~= views(cli.run_args@).drop_first());
                    a
                },
                _ => crate::plan::clone_strings(&cli.run_args),
            };
            match resolve_operation(detection, op, args.as_slice(), tool, deploy) {
                Err(e) => Err(e),
                Ok(resolved) => if cli.dry_run {
                    Ok(Action::ShowOperationPlan(resolved))
                } else {
                    Ok(Action::Execute(resolved.command))
                },
            }
        },
        None => match c {
            CommandName::X => match build_x_command(detection, cli.run_args.as_slice(), tool) {
                Err(e) => Err(e),
                Ok(command) => if cli.dry_run {
                    Ok(Action::ShowPlan(command))
                } else {
                    Ok(Action::Execute(command))
                },
            },
            _ => {
                let name = match c {
                    CommandName::Info => "info",
                    CommandName::Doctor => "doctor",
                    CommandName::Deps => "deps",
                    CommandName::Scripts => "scripts",
                    CommandName::Workspaces => "workspaces",
                    _ => "lock",
                };
                let doctor = match c {
                    CommandName::Doctor => true,
                    _ => false,
                };
                Ok(Action::Report { command: copy_str(name), include_runtime: doctor })
            },
        },
    }
}

// ---------------------------------------------------------------------------
// Laws
// ---------------------------------------------------------------------------
/// Inspection and observation commands only report: they never run or plan
/// a native command, and never fail.
pub proof fn law_inspection_is_read_only(cli: ParsedCli, d: RepositoryDetection, deploy: DeployEvidence)
    requires
        is_inspection(cli.command),
    ensures
        spec_choose_action(cli, d, deploy) matches Ok(a) && (a is Report || a is Observe),
{
}

/// A dry run never runs anything.
pub proof fn law_dry_run_never_executes(cli: ParsedCli, d: RepositoryDetection, deploy: DeployEvidence, wd: Seq<char>)
    requires
        cli.dry_run,
    ensures
        !(spec_choose_action(cli, d, deploy) matches Ok(a) && a is Execute),
        !(spec_exec_action(cli@, wd) matches Ok(a) && a is Execute),
{
}

/// Without an explicit `--tool`, a delegating command refuses, with exit
/// code 2, to choose between several package managers or Python lockfiles.
pub proof fn law_ambiguity_fails_closed(cli: ParsedCli, d: RepositoryDetection, deploy: DeployEvidence)
    requires
        is_guarded(cli.command),
        cli.tool is None,
        js_ambiguous(d) || python_ambiguous(d),
    ensures
        spec_choose_action(cli, d, deploy) == Err::<ActionView, (Seq<char>, u8)>((ambiguity_message(d), 2u8)),
{
}

/// A parsed `run` always names its target: the first of its arguments,
/// which is not empty (what `choose_action` asks of a `run`).
pub proof fn law_parsed_run_names_a_target(raw: Seq<Seq<char>>)
    ensures
        match spec_parse_args(raw) {
            Ok(cli) => cli.command == CommandName::Run ==> cli.run_args.len() > 0 && cli.run_args[0].len() > 0,
            Err(_) => true,
        },
{
}

} // verus!
