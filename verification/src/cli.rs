//! Command-line parsing: global options, the command and its arguments.
use vstd::prelude::*;

use crate::model::{cli_error, CliError};
use crate::text::{concat, concat3, copy_str, join, join_strings, opt_view, str_eq, views};

verus! {

#[derive(Clone, Copy, Debug, PartialEq, Eq, Structural)]
pub enum CommandName {
    Build,
    Test,
    Lint,
    Typecheck,
    Run,
    X,
    Install,
    Add,
    Remove,
    Exec,
    Deploy,
    Info,
    Doctor,
    Deps,
    Scripts,
    Workspaces,
    Lock,
    Graph,
    Reality,
    Drift,
}

/// The parsed command line.
#[derive(Debug)]
pub struct ParsedCli {
    pub command: CommandName,
    pub json: bool,
    pub run_args: Vec<String>,
    pub tool: Option<String>,
    pub dir: Option<String>,
    pub dry_run: bool,
    pub live: bool,
}

pub struct CliView {
    pub command: CommandName,
    pub json: bool,
    pub run_args: Seq<Seq<char>>,
    pub tool: Option<Seq<char>>,
    pub dir: Option<Seq<char>>,
    pub dry_run: bool,
    pub live: bool,
}

impl View for ParsedCli {
    type V = CliView;

    open spec fn view(&self) -> CliView {
        CliView {
            command: self.command,
            json: self.json,
            run_args: views(self.run_args@),
            tool: opt_view(self.tool),
            dir: opt_view(self.dir),
            dry_run: self.dry_run,
            live: self.live,
        }
    }
}

pub const PAX_VERSION: &'static str = "0.2.0";

pub const USAGE: &'static str = r#"PAX is a universal, read-only project-tooling boundary.

Usage: pax [OPTIONS] COMMAND [ARGS...]

Inspection:
  info, doctor, deps, scripts, workspaces, lock
  graph, reality, drift
Project operations (delegated to native tools):
  build, test, lint, typecheck
Execution (delegated to native tools):
  run, x, install, add, remove, exec, deploy

Options:
  --dir <path>       select the project root
  --tool <tool>      explicitly select the native tool
  --dry-run          preview a delegated command without executing it
  --json             emit machine-readable output for automation
  --live             allow runtime observations for reality/drift
  -h, --help         show this help
  -V, --version      show the package version

All operations resolve to the project's native tooling. Use `pax run <operation>`
for project-defined operations. See README.md for the JSON contract."#;

pub fn usage() -> (r: String)
    ensures
        r@ == USAGE@,
{
    copy_str(USAGE)
}

/// The commands that have their own `--help` text.
pub open spec fn has_command_usage(c: Seq<char>) -> bool {
    c == "build"@ || c == "test"@ || c == "lint"@ || c == "typecheck"@ || c == "run"@ || c == "x"@
        || c == "install"@ || c == "graph"@ || c == "reality"@ || c == "drift"@
}

pub open spec fn spec_command_usage(c: Seq<char>) -> Seq<char> {
    if c == "build"@ {
        "Usage: pax build [args...]\nBuild the project with its selected native tool."@
    } else if c == "test"@ {
        "Usage: pax test [args...]\nTest the project with its selected native tool."@
    } else if c == "lint"@ {
        "Usage: pax lint [args...]\nLint the project with its selected native tool."@
    } else if c == "typecheck"@ {
        "Usage: pax typecheck [args...]\nTypecheck the project with its selected native tool."@
    } else if c == "run"@ {
        "Usage: pax run <target> [args...]\nRun a project task with the selected native tool."@
    } else if c == "x"@ {
        "Usage: pax x <package> [args...]\nRun an ephemeral package or tool with the native runner."@
    } else if c == "install"@ {
        "Usage: pax install [package...]\nInstall declared project dependencies or named packages."@
    } else if c == "graph"@ {
        "Usage: pax graph [--json]\nInspect static component and dependency relationships."@
    } else if c == "reality"@ {
        "Usage: pax reality [--live] [--json]\nCompare declared, resolved, installed, and runtime observations."@
    } else {
        "Usage: pax drift [--live] [--json]\nReport contradictions without repairing them."@
    }
}

pub fn command_usage(command: &str) -> (r: String)
    requires
        has_command_usage(command@),
    ensures
        r@ == spec_command_usage(command@),
{
    if str_eq(command, "build") {
        copy_str("Usage: pax build [args...]\nBuild the project with its selected native tool.")
    } else if str_eq(command, "test") {
        copy_str("Usage: pax test [args...]\nTest the project with its selected native tool.")
    } else if str_eq(command, "lint") {
        copy_str("Usage: pax lint [args...]\nLint the project with its selected native tool.")
    } else if str_eq(command, "typecheck") {
        copy_str("Usage: pax typecheck [args...]\nTypecheck the project with its selected native tool.")
    } else if str_eq(command, "run") {
        copy_str("Usage: pax run <target> [args...]\nRun a project task with the selected native tool.")
    } else if str_eq(command, "x") {
        copy_str("Usage: pax x <package> [args...]\nRun an ephemeral package or tool with the native runner.")
    } else if str_eq(command, "install") {
        copy_str("Usage: pax install [package...]\nInstall declared project dependencies or named packages.")
    } else if str_eq(command, "graph") {
        copy_str("Usage: pax graph [--json]\nInspect static component and dependency relationships.")
    } else if str_eq(command, "reality") {
        copy_str("Usage: pax reality [--live] [--json]\nCompare declared, resolved, installed, and runtime observations.")
    } else {
        copy_str("Usage: pax drift [--live] [--json]\nReport contradictions without repairing them.")
    }
}

// ---------------------------------------------------------------------------
// The option scan
// ---------------------------------------------------------------------------
pub struct Scan {
    pub json: bool,
    pub dry_run: bool,
    pub live: bool,
    pub tool: Option<Seq<char>>,
    pub dir: Option<Seq<char>>,
    pub filtered: Seq<Seq<char>>,
    pub options: bool,
}

/// Options are read until `--`; `--tool` and `--dir` take the next argument
/// (a later one replaces an earlier one); everything else is kept in order.
pub open spec fn scan(args: Seq<Seq<char>>, i: int, st: Scan) -> Result<Scan, Seq<char>>
    decreases args.len() - i,
{
    if i < 0 || i >= args.len() {
        Ok(st)
    } else {
        let a = args[i];
        if st.options && a == "--"@ {
            scan(args, i + 1, Scan { options: false, ..st })
        } else if st.options && a == "--json"@ {
            scan(args, i + 1, Scan { json: true, ..st })
        } else if st.options && a == "--dry-run"@ {
            scan(args, i + 1, Scan { dry_run: true, ..st })
        } else if st.options && a == "--live"@ {
            scan(args, i + 1, Scan { live: true, ..st })
        } else if st.options && a == "--tool"@ {
            if i + 1 < args.len() {
                scan(args, i + 2, Scan { tool: Some(args[i + 1]), ..st })
            } else {
                Err("pax --tool requires a tool"@)
            }
        } else if st.options && a == "--dir"@ {
            if i + 1 < args.len() {
                scan(args, i + 2, Scan { dir: Some(args[i + 1]), ..st })
            } else {
                Err("pax --dir requires a directory"@)
            }
        } else {
            scan(args, i + 1, Scan { filtered: st.filtered.push(a), ..st })
        }
    }
}

pub open spec fn scan_start() -> Scan {
    Scan {
        json: false,
        dry_run: false,
        live: false,
        tool: None,
        dir: None,
        filtered: seq![],
        options: true,
    }
}

/// The commands whose arguments are taken as given.
pub open spec fn project_command(c: Seq<char>) -> Option<CommandName> {
    if c == "build"@ {
        Some(CommandName::Build)
    } else if c == "test"@ {
        Some(CommandName::Test)
    } else if c == "lint"@ {
        Some(CommandName::Lint)
    } else if c == "typecheck"@ {
        Some(CommandName::Typecheck)
    } else {
        None
    }
}

pub open spec fn rest_command(c: Seq<char>) -> Option<CommandName> {
    if c == "deploy"@ {
        Some(CommandName::Deploy)
    } else if c == "install"@ {
        Some(CommandName::Install)
    } else if c == "add"@ {
        Some(CommandName::Add)
    } else if c == "remove"@ {
        Some(CommandName::Remove)
    } else if c == "exec"@ {
        Some(CommandName::Exec)
    } else {
        None
    }
}

/// The commands that take no arguments.
pub open spec fn bare_command(c: Seq<char>) -> Option<CommandName> {
    if c == "info"@ {
        Some(CommandName::Info)
    } else if c == "doctor"@ {
        Some(CommandName::Doctor)
    } else if c == "deps"@ {
        Some(CommandName::Deps)
    } else if c == "scripts"@ {
        Some(CommandName::Scripts)
    } else if c == "workspaces"@ {
        Some(CommandName::Workspaces)
    } else if c == "lock"@ {
        Some(CommandName::Lock)
    } else if c == "graph"@ {
        Some(CommandName::Graph)
    } else if c == "reality"@ {
        Some(CommandName::Reality)
    } else if c == "drift"@ {
        Some(CommandName::Drift)
    } else {
        None
    }
}

/// The command and its arguments, from what the option scan left.
pub open spec fn classify(f: Seq<Seq<char>>) -> Result<(CommandName, Seq<Seq<char>>), Seq<char>> {
    if f.len() == 0 {
        Err(USAGE@)
    } else if project_command(f[0]) is Some {
        Ok((project_command(f[0]).unwrap(), f.drop_first()))
    } else if f.len() >= 2 && (f[0] == "run"@ || f[0] == "x"@) {
        if f[1].len() == 0 {
            Err("pax "@ + f[0] + " requires a target\n\n"@ + USAGE@)
        } else {
            Ok((if f[0] == "run"@ { CommandName::Run } else { CommandName::X }, f.drop_first()))
        }
    } else if rest_command(f[0]) is Some {
        Ok((rest_command(f[0]).unwrap(), f.drop_first()))
    } else if f.len() == 1 && bare_command(f[0]) is Some {
        Ok((bare_command(f[0]).unwrap(), seq![]))
    } else if f.len() == 1 && f[0] == "run"@ {
        Err("pax run requires a target\n\n"@ + USAGE@)
    } else if f.len() == 1 && f[0] == "x"@ {
        Err("pax x requires a package\n\n"@ + USAGE@)
    } else {
        Err(
            "unknown arguments: "@ + join(f, " "@) + "\nTo run a project-defined operation, use: pax run "@
                + f[0] + "\n\n"@ + USAGE@,
        )
    }
}

/// What `parse_args` gives for the whole argument list (program name first):
/// the parsed command line, or the message and exit code to stop with.
pub open spec fn spec_parse_args(raw: Seq<Seq<char>>) -> Result<CliView, (Seq<char>, u8)> {
    let args = if raw.len() > 0 {
        raw.drop_first()
    } else {
        raw
    };
    if args.len() == 1 && (args[0] == "--help"@ || args[0] == "-h"@) {
        Err((USAGE@, 0u8))
    } else if args.len() == 1 && (args[0] == "--version"@ || args[0] == "-V"@) {
        Err(("pax "@ + PAX_VERSION@, 0u8))
    } else if args.len() == 2 && args[1] == "--help"@ && has_command_usage(args[0]) {
        Err((spec_command_usage(args[0]), 0u8))
    } else {
        parse_scanned(args)
    }
}

/// The option scan followed by the command classification.
pub open spec fn parse_scanned(args: Seq<Seq<char>>) -> Result<CliView, (Seq<char>, u8)> {
    match scan(args, 0, scan_start()) {
            Err(m) => Err((m, 2u8)),
            Ok(st) => match classify(st.filtered) {
                Err(m) => Err((m, 2u8)),
                Ok((command, run_args)) => Ok(
                    CliView {
                        command,
                        json: st.json,
                        run_args,
                        tool: st.tool,
                        dir: st.dir,
                        dry_run: st.dry_run,
                        live: st.live,
                    },
                ),
            },
    }
}

fn is_help_command(c: &str) -> (r: bool)
    ensures
        r == has_command_usage(c@),
{
    str_eq(c, "build") || str_eq(c, "test") || str_eq(c, "lint") || str_eq(c, "typecheck")
        || str_eq(c, "run") || str_eq(c, "x") || str_eq(c, "install") || str_eq(c, "graph")
        || str_eq(c, "reality") || str_eq(c, "drift")
}

fn project_command_of(c: &str) -> (r: Option<CommandName>)
    ensures
        r == project_command(c@),
{
    if str_eq(c, "build") {
        Some(CommandName::Build)
    } else if str_eq(c, "test") {
        Some(CommandName::Test)
    } else if str_eq(c, "lint") {
        Some(CommandName::Lint)
    } else if str_eq(c, "typecheck") {
        Some(CommandName::Typecheck)
    } else {
        None
    }
}

fn rest_command_of(c: &str) -> (r: Option<CommandName>)
    ensures
        r == rest_command(c@),
{
    if str_eq(c, "deploy") {
        Some(CommandName::Deploy)
    } else if str_eq(c, "install") {
        Some(CommandName::Install)
    } else if str_eq(c, "add") {
        Some(CommandName::Add)
    } else if str_eq(c, "remove") {
        Some(CommandName::Remove)
    } else if str_eq(c, "exec") {
        Some(CommandName::Exec)
    } else {
        None
    }
}

fn bare_command_of(c: &str) -> (r: Option<CommandName>)
    ensures
        r == bare_command(c@),
{
    if str_eq(c, "info") {
        Some(CommandName::Info)
    } else if str_eq(c, "doctor") {
        Some(CommandName::Doctor)
    } else if str_eq(c, "deps") {
        Some(CommandName::Deps)
    } else if str_eq(c, "scripts") {
        Some(CommandName::Scripts)
    } else if str_eq(c, "workspaces") {
        Some(CommandName::Workspaces)
    } else if str_eq(c, "lock") {
        Some(CommandName::Lock)
    } else if str_eq(c, "graph") {
        Some(CommandName::Graph)
    } else if str_eq(c, "reality") {
        Some(CommandName::Reality)
    } else if str_eq(c, "drift") {
        Some(CommandName::Drift)
    } else {
        None
    }
}

/// A copy of `v[from..]`.
pub fn clone_tail(v: &[String], from: usize) -> (r: Vec<String>)
    requires
        from <= v.len(),
    ensures
        views(r@) == views(v@).skip(from as int),
{
    let mut r: Vec<String> = Vec::new();
    let mut i = from;
    while i < v.len()
        invariant
            from <= i <= v.len(),
            views(r@) == views(v@).subrange(from as int, i as int),
        decreases v.len() - i,
    {
        let ghost pre = views(r@);
        r.push(v[i].clone());
        assert(views(r@) =~= pre.push(v@[i as int]@));
        i += 1;
        assert(views(r@) =~= views(v@).subrange(from as int, i as int));
    }
    assert(views(v@).subrange(from as int, v.len() as int) =~= views(v@).skip(from as int));
    r
}

fn classify_args(f: &Vec<String>) -> (r: Result<(CommandName, Vec<String>), String>)
    ensures
        match r {
            Ok((c, rest)) => classify(views(f@)) == Ok::<_, Seq<char>>((c, views(rest@))),
            Err(m) => classify(views(f@)) == Err::<(CommandName, Seq<Seq<char>>), _>(m@),
        },
{
    let ghost fv = views(f@);
    if f.len() == 0 {
        return Err(usage());
    }
    assert(fv.skip(1) =~= fv.drop_first());
    let first = f[0].as_str();
    assert(fv[0] == first@);
    if let Some(c) = project_command_of(first) {
        return Ok((c, clone_tail(f.as_slice(), 1)));
    }
    if f.len() >= 2 && (str_eq(first, "run") || str_eq(first, "x")) {
        assert(fv[1] == f@[1]@);
        if f[1].as_str().is_empty() {
            let mut m = concat3("pax ", first, " requires a target\n\n");
            m.append(USAGE);
            return Err(m);
        }
        let c = if str_eq(first, "run") {
            CommandName::Run
        } else {
            CommandName::X
        };
        return Ok((c, clone_tail(f.as_slice(), 1)));
    }
    if let Some(c) = rest_command_of(first) {
        return Ok((c, clone_tail(f.as_slice(), 1)));
    }
    if f.len() == 1 {
        if let Some(c) = bare_command_of(first) {
            let e: Vec<String> = Vec::new();
            assert(views(e@) =~= Seq::<Seq<char>>::empty());
            return Ok((c, e));
        }
        if str_eq(first, "run") {
            return Err(concat("pax run requires a target\n\n", USAGE));
        }
        if str_eq(first, "x") {
            return Err(concat("pax x requires a package\n\n", USAGE));
        }
    }
    let mut m = copy_str("unknown arguments: ");
    let joined = join_strings(f.as_slice(), " ");
    m.append(joined.as_str());
    m.append("\nTo run a project-defined operation, use: pax run ");
    m.append(first);
    m.append("\n\n");
    m.append(USAGE);
    Err(m)
}

/// Parse the command line (program name first).
pub fn parse_args(raw: Vec<String>) -> (r: Result<ParsedCli, CliError>)
    ensures
        match r {
            Ok(cli) => spec_parse_args(views(raw@)) == Ok::<CliView, (Seq<char>, u8)>(cli@),
            Err(e) => spec_parse_args(views(raw@)) == Err::<CliView, _>((e.message@, e.exit_code)),
        },
{
    let args: Vec<String> = if raw.len() > 0 {
        clone_tail(raw.as_slice(), 1)
    } else {
        Vec::new()
    };
    let ghost av = views(args@);
    proof {
        if raw.len() > 0 {
            assert(views(raw@).skip(1) =~= views(raw@).drop_first());
        } else {
            assert(av =~= views(raw@));
        }
    }
    if args.len() == 1 && (str_eq(args[0].as_str(), "--help") || str_eq(args[0].as_str(), "-h")) {
        assert(av[0] == args@[0]@);
        return Err(cli_error(usage(), 0));
    }
    if args.len() == 1 && (str_eq(args[0].as_str(), "--version") || str_eq(args[0].as_str(), "-V")) {
        assert(av[0] == args@[0]@);
        return Err(cli_error(concat("pax ", PAX_VERSION), 0));
    }
    if args.len() == 2 && str_eq(args[1].as_str(), "--help") && is_help_command(args[0].as_str()) {
        assert(av[0] == args@[0]@ && av[1] == args@[1]@);
        return Err(cli_error(command_usage(args[0].as_str()), 0));
    }
    proof {
        if args.len() == 1 {
            assert(av[0] == args@[0]@);
        }
        if args.len() == 2 {
            assert(av[0] == args@[0]@ && av[1] == args@[1]@);
        }
    }
    let mut json = false;
    let mut dry_run = false;
    let mut live = false;
    let mut tool: Option<String> = None;
    let mut dir: Option<String> = None;
    let mut filtered: Vec<String> = Vec::new();
    let mut options = true;
    let mut index: usize = 0;
    assert(views(filtered@) =~= Seq::<Seq<char>>::empty());
    while index < args.len()
        invariant
            index <= args.len(),
            av == views(args@),
            spec_parse_args(views(raw@)) == parse_scanned(av),
            scan(av, 0, scan_start()) == scan(
                av,
                index as int,
                Scan {
                    json,
                    dry_run,
                    live,
                    tool: opt_view(tool),
                    dir: opt_view(dir),
                    filtered: views(filtered@),
                    options,
                },
            ),
        decreases args.len() - index,
    {
        let arg = args[index].as_str();
        assert(av[index as int] == arg@);
        let ghost st = Scan {
            json,
            dry_run,
            live,
            tool: opt_view(tool),
            dir: opt_view(dir),
            filtered: views(filtered@),
            options,
        };
        if options && str_eq(arg, "--") {
            options = false;
        } else if options && str_eq(arg, "--json") {
            json = true;
        } else if options && str_eq(arg, "--dry-run") {
            dry_run = true;
        } else if options && str_eq(arg, "--live") {
            live = true;
        } else if options && str_eq(arg, "--tool") {
            if index + 1 >= args.len() {
                assert(scan(av, index as int, st) == Err::<Scan, Seq<char>>("pax --tool requires a tool"@));
                return Err(cli_error(copy_str("pax --tool requires a tool"), 2));
            }
            index += 1;
            assert(av[index as int] == args@[index as int]@);
            tool = Some(args[index].clone());
        } else if options && str_eq(arg, "--dir") {
            if index + 1 >= args.len() {
                assert(scan(av, index as int, st) == Err::<Scan, Seq<char>>("pax --dir requires a directory"@));
                return Err(cli_error(copy_str("pax --dir requires a directory"), 2));
            }
            index += 1;
            assert(av[index as int] == args@[index as int]@);
            dir = Some(args[index].clone());
        } else {
            let ghost pre = views(filtered@);
            filtered.push(args[index].clone());
            assert(views(filtered@) =~= pre.push(arg@));
        }
        index += 1;
    }
    match classify_args(&filtered) {
        Err(m) => Err(cli_error(m, 2)),
        Ok((command, run_args)) => Ok(
            ParsedCli { command, json, run_args, tool, dir, dry_run, live },
        ),
    }
}

} // verus!
