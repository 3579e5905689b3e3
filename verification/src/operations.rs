//! Resolving project operations to the native command that performs them.
use vstd::prelude::*;

use crate::cli::USAGE;
use crate::manager::{spec_manager_name, spec_parse_manager};
use crate::model::{
    cli_error, command_result, CliError, CommandView, Component, Ecosystem,
    NameMap, PackageManager, RepositoryDetection, RunCommand,
};
use crate::seqs::{first_index, first_where, lemma_first_index_at, lemma_first_index_none};
use crate::text::{concat, concat3, copy_str, ends_with, ends_with_str, join, join_strings, opt_view, str_eq, views};

verus! {

/// An operation that PAX resolves to a native command.
#[derive(Debug)]
pub enum Operation {
    Build,
    Test,
    Lint,
    Typecheck,
    Install,
    Add,
    Remove,
    Deploy,
    Custom(String),
}

pub open spec fn spec_operation_name(o: Operation) -> Seq<char> {
    match o {
        Operation::Build => "build"@,
        Operation::Test => "test"@,
        Operation::Lint => "lint"@,
        Operation::Typecheck => "typecheck"@,
        Operation::Install => "install"@,
        Operation::Add => "add"@,
        Operation::Remove => "remove"@,
        Operation::Deploy => "deploy"@,
        Operation::Custom(name) => "custom:"@ + name@,
    }
}

impl Operation {
    pub fn name(&self) -> (r: String)
        ensures
            r@ == spec_operation_name(*self),
    {
        match self {
            Operation::Build => copy_str("build"),
            Operation::Test => copy_str("test"),
            Operation::Lint => copy_str("lint"),
            Operation::Typecheck => copy_str("typecheck"),
            Operation::Install => copy_str("install"),
            Operation::Add => copy_str("add"),
            Operation::Remove => copy_str("remove"),
            Operation::Deploy => copy_str("deploy"),
            Operation::Custom(name) => concat("custom:", name.as_str()),
        }
    }
}

#[derive(Clone, Copy, Debug, PartialEq, Eq, Structural)]
pub enum DeployProvider {
    Fly,
    Vercel,
    Netlify,
}

pub open spec fn spec_provider_name(p: DeployProvider) -> Seq<char> {
    match p {
        DeployProvider::Fly => "fly"@,
        DeployProvider::Vercel => "vercel"@,
        DeployProvider::Netlify => "netlify"@,
    }
}

pub open spec fn spec_parse_provider(v: Seq<char>) -> Option<DeployProvider> {
    if v == "fly"@ || v == "flyctl"@ {
        Some(DeployProvider::Fly)
    } else if v == "vercel"@ {
        Some(DeployProvider::Vercel)
    } else if v == "netlify"@ {
        Some(DeployProvider::Netlify)
    } else {
        None
    }
}

impl DeployProvider {
    pub fn name(self) -> (r: &'static str)
        ensures
            r@ == spec_provider_name(self),
    {
        match self {
            DeployProvider::Fly => "fly",
            DeployProvider::Vercel => "vercel",
            DeployProvider::Netlify => "netlify",
        }
    }

    pub fn parse(value: &str) -> (r: Option<DeployProvider>)
        ensures
            r == spec_parse_provider(value@),
    {
        if str_eq(value, "fly") || str_eq(value, "flyctl") {
            Some(DeployProvider::Fly)
        } else if str_eq(value, "vercel") {
            Some(DeployProvider::Vercel)
        } else if str_eq(value, "netlify") {
            Some(DeployProvider::Netlify)
        } else {
            None
        }
    }

    /// The program and the subcommand that deploy with this provider.
    pub fn command(self) -> (r: (&'static str, &'static str))
        ensures
            r.0@ == spec_provider_name(self),
            r.1@ == "deploy"@,
    {
        match self {
            DeployProvider::Fly => ("fly", "deploy"),
            DeployProvider::Vercel => ("vercel", "deploy"),
            DeployProvider::Netlify => ("netlify", "deploy"),
        }
    }
}

/// Which deployment configuration files exist at the project root.
#[derive(Debug)]
pub struct DeployEvidence {
    pub fly_toml: bool,
    pub vercel_json: bool,
    pub vercel_project_json: bool,
    pub netlify_toml: bool,
}

#[derive(Debug)]
pub struct DeploySelection {
    pub provider: DeployProvider,
    pub evidence: Vec<String>,
}

/// The providers found, each once, with the first file that shows it.
pub open spec fn detected_providers(e: DeployEvidence) -> Seq<(DeployProvider, Seq<char>)> {
    let fly: Seq<(DeployProvider, Seq<char>)> = if e.fly_toml {
        seq![(DeployProvider::Fly, "fly.toml"@)]
    } else {
        seq![]
    };
    let vercel: Seq<(DeployProvider, Seq<char>)> = if e.vercel_json {
        seq![(DeployProvider::Vercel, "vercel.json"@)]
    } else if e.vercel_project_json {
        seq![(DeployProvider::Vercel, ".vercel/project.json"@)]
    } else {
        seq![]
    };
    let netlify: Seq<(DeployProvider, Seq<char>)> = if e.netlify_toml {
        seq![(DeployProvider::Netlify, "netlify.toml"@)]
    } else {
        seq![]
    };
    fly + vercel + netlify
}

pub open spec fn provider_labels(d: Seq<(DeployProvider, Seq<char>)>) -> Seq<Seq<char>> {
    d.map_values(|x: (DeployProvider, Seq<char>)| spec_provider_name(x.0) + " ("@ + x.1 + ")"@)
}

/// Whether a detected entry is for provider `p`.
pub open spec fn for_provider(p: DeployProvider) -> spec_fn((DeployProvider, Seq<char>)) -> bool {
    |x: (DeployProvider, Seq<char>)| x.0 == p
}

/// The file of a detected entry.
pub open spec fn entry_file() -> spec_fn((DeployProvider, Seq<char>)) -> Seq<char> {
    |x: (DeployProvider, Seq<char>)| x.1
}

pub open spec fn evidence_for(d: Seq<(DeployProvider, Seq<char>)>, p: DeployProvider) -> Seq<Seq<char>> {
    d.filter(for_provider(p)).map_values(entry_file())
}

pub open spec fn spec_select_deploy(e: DeployEvidence, requested: Option<Seq<char>>) -> Result<
    (DeployProvider, Seq<Seq<char>>),
    (Seq<char>, u8),
> {
    let d = detected_providers(e);
    match requested {
        Some(r) => match spec_parse_provider(r) {
            Some(p) => Ok((p, evidence_for(d, p))),
            None => Err(("unsupported deployment provider: "@ + r, 2u8)),
        },
        None => if d.len() == 1 {
            Ok((d[0].0, seq![d[0].1]))
        } else if d.len() == 0 {
            Err(("could not detect a deployment provider (use --tool <provider>)"@, 1u8))
        } else {
            Err(("ambiguous deployment providers: "@ + join(provider_labels(d), ", "@), 2u8))
        },
    }
}

pub open spec fn tool_view(t: Option<&str>) -> Option<Seq<char>> {
    match t {
        Some(s) => Some(s@),
        None => None,
    }
}

/// Choose the deployment provider: the one requested, or the only one the
/// configuration files show.
pub fn select_deploy_provider(evidence: &DeployEvidence, requested: Option<&str>) -> (r: Result<
    DeploySelection,
    CliError,
>)
    ensures
        match r {
            Ok(s) => spec_select_deploy(*evidence, tool_view(requested)) == Ok::<_, (Seq<char>, u8)>(
                (s.provider, views(s.evidence@)),
            ),
            Err(e) => spec_select_deploy(*evidence, tool_view(requested)) == Err::<
                (DeployProvider, Seq<Seq<char>>),
                _,
            >((e.message@, e.exit_code)),
        },
{
    let mut providers: Vec<DeployProvider> = Vec::new();
    let mut files: Vec<String> = Vec::new();
    if evidence.fly_toml {
        providers.push(DeployProvider::Fly);
        files.push(copy_str("fly.toml"));
    }
    if evidence.vercel_json {
        providers.push(DeployProvider::Vercel);
        files.push(copy_str("vercel.json"));
    } else if evidence.vercel_project_json {
        providers.push(DeployProvider::Vercel);
        files.push(copy_str(".vercel/project.json"));
    }
    if evidence.netlify_toml {
        providers.push(DeployProvider::Netlify);
        files.push(copy_str("netlify.toml"));
    }
    let ghost d = detected_providers(*evidence);
    proof {
        assert(providers@.len() == d.len() && files@.len() == d.len());
        assert forall|k: int| 0 <= k < d.len() implies providers@[k] == d[k].0 && files@[k]@ == d[k].1 by {
            if evidence.fly_toml {
                if k == 0 {
                } else {
                }
            }
        }
    }
    match requested {
        Some(req) => {
            match DeployProvider::parse(req) {
                None => Err(cli_error(concat("unsupported deployment provider: ", req), 2)),
                Some(provider) => {
                    let mut ev: Vec<String> = Vec::new();
                    let mut i: usize = 0;
                    while i < providers.len()
                        invariant
                            i <= providers.len(),
                            providers@.len() == d.len(),
                            files@.len() == d.len(),
                            forall|k: int| 0 <= k < d.len() ==> providers@[k] == d[k].0 && files@[k]@ == d[k].1,
                            views(ev@) == evidence_for(d.take(i as int), provider),
                        decreases providers.len() - i,
                    {
                        proof {
                            let t = d.take(i + 1);
                            assert(t.drop_last() =~= d.take(i as int));
                            reveal(Seq::filter);
                            assert(t.filter(for_provider(provider)) == if d[i as int].0 == provider {
                                d.take(i as int).filter(for_provider(provider)).push(t.last())
                            } else {
                                d.take(i as int).filter(for_provider(provider))
                            });
                        }
                        if providers[i] == provider {
                            let ghost pre = views(ev@);
                            ev.push(files[i].clone());
                            assert(views(ev@) =~= pre.push(d[i as int].1));
                            assert(views(ev@) =~= evidence_for(d.take(i + 1), provider));
                        } else {
                            assert(views(ev@) =~= evidence_for(d.take(i + 1), provider));
                        }
                        i += 1;
                    }
                    assert(d.take(d.len() as int) =~= d);
                    Ok(DeploySelection { provider, evidence: ev })
                },
            }
        },
        None => {
            if providers.len() == 1 {
                let ev = vec![files[0].clone()];
                assert(views(ev@) =~= seq![d[0].1]);
                Ok(DeploySelection { provider: providers[0], evidence: ev })
            } else if providers.len() == 0 {
                Err(cli_error(copy_str("could not detect a deployment provider (use --tool <provider>)"), 1))
            } else {
                let mut labels: Vec<String> = Vec::new();
                let mut i: usize = 0;
                while i < providers.len()
                    invariant
                        i <= providers.len(),
                        providers@.len() == d.len(),
                        files@.len() == d.len(),
                        forall|k: int| 0 <= k < d.len() ==> providers@[k] == d[k].0 && files@[k]@ == d[k].1,
                        views(labels@) == provider_labels(d.take(i as int)),
                    decreases providers.len() - i,
                {
                    let ghost pre = views(labels@);
                    let mut label = concat3(providers[i].name(), " (", files[i].as_str());
                    label.append(")");
                    labels.push(label);
                    assert(views(labels@) =~= pre.push(spec_provider_name(d[i as int].0) + " ("@ + d[i as int].1 + ")"@));
                    assert(provider_labels(d.take(i + 1)) =~= provider_labels(d.take(i as int)).push(spec_provider_name(d[i as int].0) + " ("@ + d[i as int].1 + ")"@));
                    i += 1;
                }
                assert(d.take(d.len() as int) =~= d);
                let listed = join_strings(labels.as_slice(), ", ");
                Err(cli_error(concat("ambiguous deployment providers: ", listed.as_str()), 2))
            }
        },
    }
}

// ---------------------------------------------------------------------------
// Finding the root component
// ---------------------------------------------------------------------------
/// A component at the project root (with the given ecosystem, when one is given).
pub open spec fn root_filter(eco: Option<Ecosystem>) -> spec_fn(Component) -> bool {
    |c: Component| c.path@ == "."@ && (eco is None || c.ecosystem == eco.unwrap())
}

pub open spec fn root_component(cs: Seq<Component>, eco: Option<Ecosystem>) -> Option<Component> {
    first_where(cs, root_filter(eco))
}

pub fn find_root(comps: &[Component], eco: Option<Ecosystem>) -> (r: Option<usize>)
    ensures
        match r {
            Some(i) => i < comps.len() && first_index(comps@, root_filter(eco)) == Some(i as int),
            None => first_index(comps@, root_filter(eco)) is None,
        },
{
    let mut i: usize = 0;
    while i < comps.len()
        invariant
            i <= comps.len(),
            forall|k: int| 0 <= k < i ==> !(#[trigger] root_filter(eco)(comps@[k])),
        decreases comps.len() - i,
    {
        let hit = str_eq(comps[i].path.as_str(), ".") && match eco {
            None => true,
            Some(e) => comps[i].ecosystem == e,
        };
        if hit {
            proof {
                lemma_first_index_at(comps@, root_filter(eco), i as int);
            }
            return Some(i);
        }
        i += 1;
    }
    proof {
        lemma_first_index_none(comps@, root_filter(eco));
    }
    None
}

fn strings(items: &[&str]) -> (r: Vec<String>)
    ensures
        views(r@) == items@.map_values(|s: &str| s@),
{
    let mut r: Vec<String> = Vec::new();
    let mut i: usize = 0;
    while i < items.len()
        invariant
            i <= items.len(),
            views(r@) == items@.map_values(|s: &str| s@).take(i as int),
        decreases items.len() - i,
    {
        let ghost pre = views(r@);
        r.push(copy_str(items[i]));
        assert(views(r@) =~= pre.push(items@[i as int]@));
        assert(views(r@) =~= items@.map_values(|s: &str| s@).take(i + 1));
        i += 1;
    }
    assert(items@.map_values(|s: &str| s@).take(items.len() as int) =~= items@.map_values(|s: &str| s@));
    r
}

pub fn extend_strings(v: &mut Vec<String>, extra: &[String])
    ensures
        views(final(v)@) == views(old(v)@) + views(extra@),
{
    let ghost start = views(v@);
    let mut i: usize = 0;
    while i < extra.len()
        invariant
            i <= extra.len(),
            views(v@) == start + views(extra@).take(i as int),
        decreases extra.len() - i,
    {
        let ghost pre = views(v@);
        v.push(extra[i].clone());
        assert(views(v@) =~= pre.push(extra@[i as int]@));
        assert(views(v@) =~= start + views(extra@).take(i + 1));
        i += 1;
    }
    assert(views(extra@).take(extra.len() as int) =~= views(extra@));
}

fn command(program: &str, args: Vec<String>, working_directory: &String) -> (r: RunCommand)
    ensures
        r.program@ == program@,
        views(r.args@) == views(args@),
        r.working_directory@ == working_directory@,
{
    RunCommand { program: copy_str(program), args, working_directory: working_directory.clone() }
}

fn prefixed(first: &[&str], rest: &[String]) -> (r: Vec<String>)
    ensures
        views(r@) == first@.map_values(|s: &str| s@) + views(rest@),
{
    let mut r = strings(first);
    extend_strings(&mut r, rest);
    r
}

pub open spec fn cmd(program: Seq<char>, args: Seq<Seq<char>>, wd: Seq<char>) -> CommandView {
    CommandView { program, args, working_directory: wd }
}

pub open spec fn err<T>(message: Seq<char>, code: u8) -> Result<T, (Seq<char>, u8)> {
    Err((message, code))
}

// ---------------------------------------------------------------------------
// install
// ---------------------------------------------------------------------------
pub open spec fn spec_python_install(tool: Seq<char>, args: Seq<Seq<char>>, wd: Seq<char>) -> Result<
    CommandView,
    (Seq<char>, u8),
> {
    if tool == "uv"@ {
        Ok(cmd("uv"@, seq!["pip"@, "install"@] + args, wd))
    } else if tool == "pip"@ || tool == "poetry"@ || tool == "pdm"@ {
        Ok(cmd(tool, seq!["install"@] + args, wd))
    } else {
        err("unsupported package manager tool: "@ + tool, 2)
    }
}

pub open spec fn spec_build_install(d: RepositoryDetection, args: Seq<Seq<char>>, tool: Option<Seq<char>>) -> Result<
    CommandView,
    (Seq<char>, u8),
> {
    let wd = d.root@;
    match tool {
        Some(t) => if spec_parse_manager(t) is Some {
            Ok(cmd(t, seq!["install"@] + args, wd))
        } else {
            spec_python_install(t, args, wd)
        },
        None => match d.manager {
            Some(m) => Ok(cmd(spec_manager_name(m.name), seq!["install"@] + args, wd)),
            None => match root_component(d.components@, Some(Ecosystem::Python)) {
                None => err("could not detect an authoritative package manager"@, 1),
                Some(c) => match opt_view(c.tool) {
                    Some(t) => if t == "uv"@ {
                        Ok(cmd("uv"@, seq!["pip"@, "install"@] + args, wd))
                    } else if t == "poetry"@ || t == "pdm"@ || t == "pip"@ {
                        Ok(cmd(t, seq!["install"@] + args, wd))
                    } else {
                        err("could not detect an authoritative package manager"@, 1)
                    },
                    None => err("could not detect an authoritative package manager"@, 1),
                },
            },
        },
    }
}

fn build_python_install_command(detection: &RepositoryDetection, install_args: &[String], tool: &str) -> (r: Result<
    RunCommand,
    CliError,
>)
    ensures
        command_result(r) == spec_python_install(tool@, views(install_args@), detection.root@),
{
    if str_eq(tool, "uv") {
        let args = prefixed(&["pip", "install"], install_args);
        assert(views(args@) =~= seq!["pip"@, "install"@] + views(install_args@));
        Ok(command("uv", args, &detection.root))
    } else if str_eq(tool, "pip") || str_eq(tool, "poetry") || str_eq(tool, "pdm") {
        let args = prefixed(&["install"], install_args);
        assert(views(args@) =~= seq!["install"@] + views(install_args@));
        Ok(command(tool, args, &detection.root))
    } else {
        Err(cli_error(concat("unsupported package manager tool: ", tool), 2))
    }
}

/// The command that installs the named packages (or the declared
/// dependencies, when none are named).
pub fn build_install_command(
    detection: &RepositoryDetection,
    install_args: &[String],
    override_tool: Option<&str>,
) -> (r: Result<RunCommand, CliError>)
    ensures
        command_result(r) == spec_build_install(*detection, views(install_args@), tool_view(override_tool)),
{
    if let Some(tool) = override_tool {
        if PackageManager::parse(tool).is_none() {
            return build_python_install_command(detection, install_args, tool);
        }
        let args = prefixed(&["install"], install_args);
        assert(views(args@) =~= seq!["install"@] + views(install_args@));
        return Ok(command(tool, args, &detection.root));
    }
    if let Some(manager) = &detection.manager {
        let args = prefixed(&["install"], install_args);
        assert(views(args@) =~= seq!["install"@] + views(install_args@));
        return Ok(command(manager.name.display_name(), args, &detection.root));
    }
    let idx = find_root(detection.components.as_slice(), Some(Ecosystem::Python));
    let i = match idx {
        Some(i) => i,
        None => {
            return Err(cli_error(copy_str("could not detect an authoritative package manager"), 1));
        },
    };
    let component = &detection.components[i];
    match &component.tool {
        Some(t) => {
            let t = t.as_str();
            if str_eq(t, "uv") {
                let args = prefixed(&["pip", "install"], install_args);
                assert(views(args@) =~= seq!["pip"@, "install"@] + views(install_args@));
                Ok(command("uv", args, &detection.root))
            } else if str_eq(t, "poetry") || str_eq(t, "pdm") || str_eq(t, "pip") {
                let args = prefixed(&["install"], install_args);
                assert(views(args@) =~= seq!["install"@] + views(install_args@));
                Ok(command(t, args, &detection.root))
            } else {
                Err(cli_error(copy_str("could not detect an authoritative package manager"), 1))
            }
        },
        None => Err(cli_error(copy_str("could not detect an authoritative package manager"), 1)),
    }
}


// ---------------------------------------------------------------------------
// run
// ---------------------------------------------------------------------------
pub open spec fn is_service_verb(t: Seq<char>) -> bool {
    t == "up"@ || t == "down"@ || t == "logs"@ || t == "ps"@
}

/// The root component `pax run` uses: Python first, then Rust, then containers.
pub open spec fn run_component(cs: Seq<Component>) -> Option<Component> {
    match root_component(cs, Some(Ecosystem::Python)) {
        Some(c) => Some(c),
        None => match root_component(cs, Some(Ecosystem::Rust)) {
            Some(c) => Some(c),
            None => root_component(cs, Some(Ecosystem::Container)),
        },
    }
}

pub open spec fn spec_run_with_tool(t: Seq<char>, target: Seq<char>, extra: Seq<Seq<char>>, wd: Seq<char>) -> Result<
    CommandView,
    (Seq<char>, u8),
> {
    if spec_parse_manager(t) is Some {
        Ok(cmd(spec_manager_name(spec_parse_manager(t).unwrap()), seq!["run"@, target] + extra, wd))
    } else if t == "uv"@ || t == "poetry"@ || t == "pdm"@ {
        Ok(cmd(t, seq!["run"@, target] + extra, wd))
    } else if t == "cargo"@ {
        Ok(cmd("cargo"@, seq!["run"@, "--bin"@, target, "--"@] + extra, wd))
    } else if t == "docker"@ {
        Ok(cmd("docker"@, seq!["compose"@, "run"@, "--rm"@, target] + extra, wd))
    } else {
        err("unsupported execution tool: "@ + t, 2)
    }
}

pub open spec fn spec_run_component(c: Component, target: Seq<char>, extra: Seq<Seq<char>>, wd: Seq<char>) -> Result<
    CommandView,
    (Seq<char>, u8),
> {
    let t = opt_view(c.tool);
    if c.ecosystem == Ecosystem::Python && t is Some && (t.unwrap() == "uv"@ || t.unwrap() == "poetry"@
        || t.unwrap() == "pdm"@) {
        Ok(cmd(t.unwrap(), seq!["run"@, target] + extra, wd))
    } else if c.ecosystem == Ecosystem::Python && t == Some("pip"@) {
        Ok(cmd("python"@, seq![target] + extra, wd))
    } else if c.ecosystem == Ecosystem::Rust && t == Some("cargo"@) {
        Ok(cmd("cargo"@, seq!["run"@, "--bin"@, target, "--"@] + extra, wd))
    } else if c.ecosystem == Ecosystem::Container && t == Some("docker"@) {
        Ok(
            cmd(
                "docker"@,
                seq!["compose"@] + (if is_service_verb(target) {
                    seq![target]
                } else {
                    seq!["run"@, "--rm"@, target]
                }) + extra,
                wd,
            ),
        )
    } else {
        err("could not detect an authoritative execution tool"@, 1)
    }
}

pub open spec fn spec_build_run(d: RepositoryDetection, run_args: Seq<Seq<char>>, tool: Option<Seq<char>>) -> Result<
    CommandView,
    (Seq<char>, u8),
> {
    let wd = d.root@;
    if run_args.len() == 0 {
        err("pax run requires a target\n\n"@ + USAGE@, 2)
    } else {
        let target = run_args[0];
        let extra = run_args.drop_first();
        match tool {
            Some(t) => spec_run_with_tool(t, target, extra, wd),
            None => match d.manager {
                Some(m) => Ok(cmd(spec_manager_name(m.name), seq!["run"@, target] + extra, wd)),
                None => match run_component(d.components@) {
                    None => err("could not detect an authoritative execution tool"@, 1),
                    Some(c) => spec_run_component(c, target, extra, wd),
                },
            },
        }
    }
}

fn run_with_tool(detection: &RepositoryDetection, tool: &str, target: &String, extra: &[String]) -> (r: Result<
    RunCommand,
    CliError,
>)
    ensures
        command_result(r) == spec_run_with_tool(tool@, target@, views(extra@), detection.root@),
{
    if let Some(name) = PackageManager::parse(tool) {
        let mut args = vec![copy_str("run"), target.clone()];
        let ghost a0 = views(args@);
        assert(a0 =~= seq!["run"@, target@]);
        extend_strings(&mut args, extra);
        return Ok(command(name.display_name(), args, &detection.root));
    }
    if str_eq(tool, "uv") || str_eq(tool, "poetry") || str_eq(tool, "pdm") {
        let mut args = vec![copy_str("run"), target.clone()];
        assert(views(args@) =~= seq!["run"@, target@]);
        extend_strings(&mut args, extra);
        Ok(command(tool, args, &detection.root))
    } else if str_eq(tool, "cargo") {
        let mut args = vec![copy_str("run"), copy_str("--bin"), target.clone(), copy_str("--")];
        assert(views(args@) =~= seq!["run"@, "--bin"@, target@, "--"@]);
        extend_strings(&mut args, extra);
        Ok(command("cargo", args, &detection.root))
    } else if str_eq(tool, "docker") {
        let mut args = vec![copy_str("compose"), copy_str("run"), copy_str("--rm"), target.clone()];
        assert(views(args@) =~= seq!["compose"@, "run"@, "--rm"@, target@]);
        extend_strings(&mut args, extra);
        Ok(command("docker", args, &detection.root))
    } else {
        Err(cli_error(concat("unsupported execution tool: ", tool), 2))
    }
}

fn run_component_command(detection: &RepositoryDetection, c: &Component, target: &String, extra: &[String]) -> (r: Result<
    RunCommand,
    CliError,
>)
    ensures
        command_result(r) == spec_run_component(*c, target@, views(extra@), detection.root@),
{
    let none_err = "could not detect an authoritative execution tool";
    match &c.tool {
        None => Err(cli_error(copy_str(none_err), 1)),
        Some(t) => {
            let t = t.as_str();
            if c.ecosystem == Ecosystem::Python && (str_eq(t, "uv") || str_eq(t, "poetry") || str_eq(t, "pdm")) {
                let mut args = vec![copy_str("run"), target.clone()];
                assert(views(args@) =~= seq!["run"@, target@]);
                extend_strings(&mut args, extra);
                Ok(command(t, args, &detection.root))
            } else if c.ecosystem == Ecosystem::Python && str_eq(t, "pip") {
                let mut args = vec![target.clone()];
                assert(views(args@) =~= seq![target@]);
                extend_strings(&mut args, extra);
                Ok(command("python", args, &detection.root))
            } else if c.ecosystem == Ecosystem::Rust && str_eq(t, "cargo") {
                let mut args = vec![copy_str("run"), copy_str("--bin"), target.clone(), copy_str("--")];
                assert(views(args@) =~= seq!["run"@, "--bin"@, target@, "--"@]);
                extend_strings(&mut args, extra);
                Ok(command("cargo", args, &detection.root))
            } else if c.ecosystem == Ecosystem::Container && str_eq(t, "docker") {
                let tg = target.as_str();
                let mut args = if str_eq(tg, "up") || str_eq(tg, "down") || str_eq(tg, "logs") || str_eq(tg, "ps") {
                    let a = vec![copy_str("compose"), target.clone()];
                    assert(views(a@) =~= seq!["compose"@] + seq![target@]);
                    a
                } else {
                    let a = vec![copy_str("compose"), copy_str("run"), copy_str("--rm"), target.clone()];
                    assert(views(a@) =~= seq!["compose"@] + seq!["run"@, "--rm"@, target@]);
                    a
                };
                extend_strings(&mut args, extra);
                Ok(command("docker", args, &detection.root))
            } else {
                Err(cli_error(copy_str(none_err), 1))
            }
        },
    }
}

/// The command that runs a project task (`run_args[0]`) with its arguments.
pub fn build_run_command(detection: &RepositoryDetection, run_args: &[String], override_tool: Option<&str>) -> (r: Result<
    RunCommand,
    CliError,
>)
    ensures
        command_result(r) == spec_build_run(*detection, views(run_args@), tool_view(override_tool)),
{
    if run_args.len() == 0 {
        return Err(cli_error(concat("pax run requires a target\n\n", USAGE), 2));
    }
    let target = &run_args[0];
    let extra = crate::cli::clone_tail(run_args, 1);
    assert(views(extra@) =~= views(run_args@).drop_first());
    if let Some(tool) = override_tool {
        return run_with_tool(detection, tool, target, extra.as_slice());
    }
    if let Some(manager) = &detection.manager {
        let mut args = vec![copy_str("run"), target.clone()];
        assert(views(args@) =~= seq!["run"@, target@]);
        extend_strings(&mut args, extra.as_slice());
        return Ok(command(manager.name.display_name(), args, &detection.root));
    }
    let comps = detection.components.as_slice();
    let idx = match find_root(comps, Some(Ecosystem::Python)) {
        Some(i) => Some(i),
        None => match find_root(comps, Some(Ecosystem::Rust)) {
            Some(i) => Some(i),
            None => find_root(comps, Some(Ecosystem::Container)),
        },
    };
    match idx {
        None => Err(cli_error(copy_str("could not detect an authoritative execution tool"), 1)),
        Some(i) => run_component_command(detection, &detection.components[i], target, extra.as_slice()),
    }
}

// ---------------------------------------------------------------------------
// x
// ---------------------------------------------------------------------------
pub open spec fn spec_build_x(d: RepositoryDetection, run_args: Seq<Seq<char>>, tool: Option<Seq<char>>) -> Result<
    CommandView,
    (Seq<char>, u8),
> {
    let wd = d.root@;
    if run_args.len() == 0 {
        err("pax x requires a package\n\n"@ + USAGE@, 2)
    } else if run_args[0] == "install"@ {
        spec_build_install(d, run_args.drop_first(), tool)
    } else {
        let dlx = seq!["dlx"@] + run_args;
        match tool {
            Some(t) => if t == "npm"@ {
                Ok(cmd("npx"@, run_args, wd))
            } else if t == "pnpm"@ {
                Ok(cmd("pnpm"@, dlx, wd))
            } else if t == "bun"@ {
                Ok(cmd("bunx"@, run_args, wd))
            } else if t == "yarn"@ {
                Ok(cmd("yarn"@, dlx, wd))
            } else if t == "uv"@ {
                Ok(cmd("uvx"@, run_args, wd))
            } else if t == "pip"@ {
                Ok(cmd("pipx"@, run_args, wd))
            } else {
                err("unsupported package runner tool: "@ + t, 2)
            },
            None => match d.manager {
                Some(m) => match m.name {
                    PackageManager::Npm => Ok(cmd("npx"@, run_args, wd)),
                    PackageManager::Pnpm => Ok(cmd("pnpm"@, dlx, wd)),
                    PackageManager::Bun => Ok(cmd("bunx"@, run_args, wd)),
                    PackageManager::Yarn => Ok(cmd("yarn"@, dlx, wd)),
                },
                None => match root_component(d.components@, Some(Ecosystem::Python)) {
                    Some(c) => if opt_view(c.tool) == Some("uv"@) {
                        Ok(cmd("uvx"@, run_args, wd))
                    } else if opt_view(c.tool) == Some("poetry"@) || opt_view(c.tool) == Some("pdm"@)
                        || opt_view(c.tool) == Some("pip"@) {
                        Ok(cmd("pipx"@, run_args, wd))
                    } else {
                        err("could not detect an authoritative package runner"@, 1)
                    },
                    None => err("could not detect an authoritative package runner"@, 1),
                },
            },
        }
    }
}

fn runner_args(args: &[String], dlx: bool) -> (r: Vec<String>)
    ensures
        views(r@) == if dlx { seq!["dlx"@] + views(args@) } else { views(args@) },
{
    let mut r: Vec<String> = Vec::new();
    if dlx {
        r.push(copy_str("dlx"));
    }
    let ghost pre = views(r@);
    assert(pre =~= if dlx { seq!["dlx"@] } else { Seq::<Seq<char>>::empty() });
    extend_strings(&mut r, args);
    r
}

/// The command that runs a package (`pax x`); `pax x install` installs.
pub fn build_x_command(detection: &RepositoryDetection, run_args: &[String], override_tool: Option<&str>) -> (r: Result<
    RunCommand,
    CliError,
>)
    ensures
        command_result(r) == spec_build_x(*detection, views(run_args@), tool_view(override_tool)),
{
    if run_args.len() == 0 {
        return Err(cli_error(concat("pax x requires a package\n\n", USAGE), 2));
    }
    assert(views(run_args@)[0] == run_args@[0]@);
    if str_eq(run_args[0].as_str(), "install") {
        let rest = crate::cli::clone_tail(run_args, 1);
        assert(views(rest@) =~= views(run_args@).drop_first());
        return build_install_command(detection, rest.as_slice(), override_tool);
    }
    let runner_err = "could not detect an authoritative package runner";
    let (program, dlx): (&str, bool) = if let Some(tool) = override_tool {
        if str_eq(tool, "npm") {
            ("npx", false)
        } else if str_eq(tool, "pnpm") {
            ("pnpm", true)
        } else if str_eq(tool, "bun") {
            ("bunx", false)
        } else if str_eq(tool, "yarn") {
            ("yarn", true)
        } else if str_eq(tool, "uv") {
            ("uvx", false)
        } else if str_eq(tool, "pip") {
            ("pipx", false)
        } else {
            return Err(cli_error(concat("unsupported package runner tool: ", tool), 2));
        }
    } else if let Some(manager) = &detection.manager {
        match manager.name {
            PackageManager::Npm => ("npx", false),
            PackageManager::Pnpm => ("pnpm", true),
            PackageManager::Bun => ("bunx", false),
            PackageManager::Yarn => ("yarn", true),
        }
    } else {
        match find_root(detection.components.as_slice(), Some(Ecosystem::Python)) {
            Some(i) => match &detection.components[i].tool {
                Some(t) => {
                    if str_eq(t.as_str(), "uv") {
                        ("uvx", false)
                    } else if str_eq(t.as_str(), "poetry") || str_eq(t.as_str(), "pdm") || str_eq(t.as_str(), "pip") {
                        ("pipx", false)
                    } else {
                        return Err(cli_error(copy_str(runner_err), 1));
                    }
                },
                None => {
                    return Err(cli_error(copy_str(runner_err), 1));
                },
            },
            None => {
                return Err(cli_error(copy_str(runner_err), 1));
            },
        }
    };
    let args = runner_args(run_args, dlx);
    Ok(command(program, args, &detection.root))
}

// ---------------------------------------------------------------------------
// add / remove
// ---------------------------------------------------------------------------
/// A root Python or Rust component that names its tool.
pub open spec fn mutation_filter() -> spec_fn(Component) -> bool {
    |c: Component| c.path@ == "."@ && (c.ecosystem == Ecosystem::Python || c.ecosystem == Ecosystem::Rust)
        && c.tool is Some
}

pub open spec fn spec_mutation_tool(d: RepositoryDetection, tool: Option<Seq<char>>) -> Option<Seq<char>> {
    match tool {
        Some(t) => Some(t),
        None => match d.manager {
            Some(m) => Some(spec_manager_name(m.name)),
            None => match first_where(d.components@, mutation_filter()) {
                Some(c) => opt_view(c.tool),
                None => None,
            },
        },
    }
}

pub open spec fn spec_mutation(d: RepositoryDetection, args: Seq<Seq<char>>, tool: Option<Seq<char>>, add: bool) -> Result<
    CommandView,
    (Seq<char>, u8),
> {
    let wd = d.root@;
    if args.len() == 0 {
        err("pax "@ + (if add { "add"@ } else { "remove"@ }) + " requires a package\n\n"@ + USAGE@, 2)
    } else {
        match spec_mutation_tool(d, tool) {
            None => err("could not determine an authoritative package tool; use --tool"@, 1),
            Some(t) => if t == "npm"@ {
                Ok(cmd("npm"@, seq![if add { "install"@ } else { "uninstall"@ }] + args, wd))
            } else if t == "pnpm"@ || t == "yarn"@ || t == "bun"@ || t == "uv"@ || t == "cargo"@ {
                Ok(cmd(t, seq![if add { "add"@ } else { "remove"@ }] + args, wd))
            } else {
                err("unsupported canonical package operation for "@ + t, 1)
            },
        }
    }
}

fn find_mutation_tool(comps: &[Component]) -> (r: Option<&String>)
    ensures
        match first_where(comps@, mutation_filter()) {
            Some(c) => r is Some && r.unwrap()@ == c.tool.unwrap()@,
            None => r is None,
        },
{
    let mut i: usize = 0;
    while i < comps.len()
        invariant
            i <= comps.len(),
            forall|k: int| 0 <= k < i ==> !(#[trigger] mutation_filter()(comps@[k])),
        decreases comps.len() - i,
    {
        let c = &comps[i];
        if str_eq(c.path.as_str(), ".") && (c.ecosystem == Ecosystem::Python || c.ecosystem == Ecosystem::Rust) {
            if let Some(t) = &c.tool {
                proof {
                    lemma_first_index_at(comps@, mutation_filter(), i as int);
                }
                return Some(t);
            }
        }
        i += 1;
    }
    proof {
        lemma_first_index_none(comps@, mutation_filter());
    }
    None
}

/// The command that adds (`add`) or removes packages with the project's tool.
pub fn build_package_mutation_command(
    detection: &RepositoryDetection,
    args: &[String],
    override_tool: Option<&str>,
    add: bool,
) -> (r: Result<RunCommand, CliError>)
    ensures
        command_result(r) == spec_mutation(*detection, views(args@), tool_view(override_tool), add),
{
    if args.len() == 0 {
        let mut m = concat3("pax ", if add { "add" } else { "remove" }, " requires a package\n\n");
        m.append(USAGE);
        return Err(cli_error(m, 2));
    }
    let tool: &str = match override_tool {
        Some(t) => t,
        None => match &detection.manager {
            Some(m) => m.name.display_name(),
            None => match find_mutation_tool(detection.components.as_slice()) {
                Some(t) => t.as_str(),
                None => {
                    return Err(cli_error(copy_str("could not determine an authoritative package tool; use --tool"), 1));
                },
            },
        },
    };
    proof {
        crate::seqs::lemma_first_index_bounds(detection.components@, mutation_filter());
        assert(spec_mutation_tool(*detection, tool_view(override_tool)) == Some(tool@));
    }
    let (program, operation): (&str, &str) = if str_eq(tool, "npm") {
        ("npm", if add { "install" } else { "uninstall" })
    } else if str_eq(tool, "pnpm") || str_eq(tool, "yarn") || str_eq(tool, "bun") || str_eq(tool, "uv") || str_eq(tool, "cargo") {
        (tool, if add { "add" } else { "remove" })
    } else {
        return Err(cli_error(concat("unsupported canonical package operation for ", tool), 1));
    };
    let mut command_args = vec![copy_str(operation)];
    assert(views(command_args@) =~= seq![operation@]);
    extend_strings(&mut command_args, args);
    Ok(command(program, command_args, &detection.root))
}


// ---------------------------------------------------------------------------
// build / test / lint / typecheck
// ---------------------------------------------------------------------------
pub open spec fn is_standard_operation(op: Seq<char>) -> bool {
    op == "build"@ || op == "test"@ || op == "lint"@ || op == "typecheck"@
}

/// The cargo subcommand for a standard operation.
pub open spec fn cargo_subcommand(op: Seq<char>) -> Seq<char> {
    if op == "build"@ {
        "build"@
    } else if op == "test"@ {
        "test"@
    } else if op == "lint"@ {
        "clippy"@
    } else {
        "check"@
    }
}

pub open spec fn has_key(m: NameMap, key: Seq<char>) -> bool {
    exists|i: int| 0 <= i < m@.len() && (#[trigger] m@[i]).0@ == key
}

pub open spec fn has_script(d: RepositoryDetection, op: Seq<char>) -> bool {
    match d.package_json_data {
        Some(data) => has_key(data.scripts, op),
        None => false,
    }
}

pub open spec fn spec_resolve_standard(
    d: RepositoryDetection,
    op: Seq<char>,
    extra: Seq<Seq<char>>,
    tool: Option<Seq<char>>,
) -> Result<CommandView, (Seq<char>, u8)> {
    let wd = d.root@;
    let selected = match tool {
        Some(t) => Some(t),
        None => match d.manager {
            Some(m) => Some(spec_manager_name(m.name)),
            None => None,
        },
    };
    if selected is Some && spec_parse_manager(selected.unwrap()) is Some {
        if !has_script(d, op) {
            err(
                "project operation '"@ + op + "' is not supported: package.json has no '"@ + op
                    + "' script\nUse `pax run <operation>` for another project-defined operation."@,
                2,
            )
        } else {
            spec_build_run(d, seq![op] + extra, tool)
        }
    } else {
        let native = match tool {
            Some(t) => Some(t),
            None => match root_component(d.components@, None) {
                Some(c) => opt_view(c.tool),
                None => None,
            },
        };
        match native {
            None => err(
                "project operation '"@ + op
                    + "' is not supported: no authoritative native tool was detected"@,
                1,
            ),
            Some(t) => if t == "cargo"@ {
                Ok(cmd("cargo"@, seq![cargo_subcommand(op)] + extra, wd))
            } else if t == "docker"@ && op == "build"@ {
                Ok(cmd("docker"@, seq!["compose"@, "build"@] + extra, wd))
            } else {
                spec_build_run(d, seq![op] + extra, tool)
            },
        }
    }
}

pub fn has_name(m: &NameMap, key: &str) -> (r: bool)
    ensures
        r == has_key(*m, key@),
{
    let mut i: usize = 0;
    while i < m.len()
        invariant
            i <= m.len(),
            forall|k: int| 0 <= k < i ==> (#[trigger] m@[k]).0@ != key@,
        decreases m.len() - i,
    {
        if str_eq(m[i].0.as_str(), key) {
            return true;
        }
        i += 1;
    }
    false
}

fn with_head(head: &str, rest: &[String]) -> (r: Vec<String>)
    ensures
        views(r@) == seq![head@] + views(rest@),
{
    let mut r = vec![copy_str(head)];
    assert(views(r@) =~= seq![head@]);
    extend_strings(&mut r, rest);
    r
}

/// The command for `build`, `test`, `lint` or `typecheck`.
pub fn resolve_standard_project_command(
    detection: &RepositoryDetection,
    operation: &str,
    extra_args: &[String],
    override_tool: Option<&str>,
) -> (r: Result<RunCommand, CliError>)
    requires
        is_standard_operation(operation@),
    ensures
        command_result(r) == spec_resolve_standard(*detection, operation@, views(extra_args@), tool_view(override_tool)),
{
    let selected: Option<&str> = match override_tool {
        Some(t) => Some(t),
        None => match &detection.manager {
            Some(m) => Some(m.name.display_name()),
            None => None,
        },
    };
    let js = match selected {
        Some(t) => PackageManager::parse(t).is_some(),
        None => false,
    };
    if js {
        let found_script = match &detection.package_json_data {
            Some(data) => has_name(&data.scripts, operation),
            None => false,
        };
        if !found_script {
            let mut m = concat3("project operation '", operation, "' is not supported: package.json has no '");
            m.append(operation);
            m.append("' script\nUse `pax run <operation>` for another project-defined operation.");
            return Err(cli_error(m, 2));
        }
        let run_args = with_head(operation, extra_args);
        return build_run_command(detection, run_args.as_slice(), override_tool);
    }
    let native: Option<&str> = match override_tool {
        Some(t) => Some(t),
        None => match find_root(detection.components.as_slice(), None) {
            Some(i) => match &detection.components[i].tool {
                Some(t) => Some(t.as_str()),
                None => None,
            },
            None => None,
        },
    };
    let tool = match native {
        Some(t) => t,
        None => {
            return Err(cli_error(concat3("project operation '", operation, "' is not supported: no authoritative native tool was detected"), 1));
        },
    };
    if str_eq(tool, "cargo") {
        let sub = if str_eq(operation, "build") {
            "build"
        } else if str_eq(operation, "test") {
            "test"
        } else if str_eq(operation, "lint") {
            "clippy"
        } else {
            "check"
        };
        return Ok(command("cargo", with_head(sub, extra_args), &detection.root));
    }
    if str_eq(tool, "docker") && str_eq(operation, "build") {
        let mut args = vec![copy_str("compose"), copy_str("build")];
        assert(views(args@) =~= seq!["compose"@, "build"@]);
        extend_strings(&mut args, extra_args);
        return Ok(command("docker", args, &detection.root));
    }
    let run_args = with_head(operation, extra_args);
    build_run_command(detection, run_args.as_slice(), override_tool)
}

// ---------------------------------------------------------------------------
// install without packages
// ---------------------------------------------------------------------------
/// The first manifest that names a `.txt` requirements file.
pub open spec fn requirements_manifest(manifests: Seq<Seq<char>>) -> Option<Seq<char>> {
    first_where(manifests, |m: Seq<char>| ends_with(m, ".txt"@))
}

pub open spec fn spec_root_install(d: RepositoryDetection, tool: Option<Seq<char>>) -> Result<
    CommandView,
    (Seq<char>, u8),
> {
    let wd = d.root@;
    if d.package_json || (tool is Some && spec_parse_manager(tool.unwrap()) is Some) {
        spec_build_install(d, seq![], tool)
    } else {
        match root_component(d.components@, None) {
            None => err("no installable root project detected"@, 1),
            Some(c) => {
                let t = match tool {
                    Some(t) => Some(t),
                    None => opt_view(c.tool),
                };
                match t {
                    None => err("could not detect an authoritative package manager"@, 1),
                    Some(t) => if t == "uv"@ {
                        Ok(cmd("uv"@, seq!["sync"@], wd))
                    } else if t == "poetry"@ || t == "pdm"@ {
                        Ok(cmd(t, seq!["install"@], wd))
                    } else if t == "pip"@ {
                        match requirements_manifest(views(c.manifests@)) {
                            Some(p) => Ok(cmd("pip"@, seq!["install"@, "-r"@, p], wd)),
                            None => Ok(cmd("pip"@, seq!["install"@, "."@], wd)),
                        }
                    } else if t == "cargo"@ {
                        Ok(cmd("cargo"@, seq!["fetch"@], wd))
                    } else {
                        err("unsupported install operation for "@ + t, 2)
                    },
                }
            },
        }
    }
}

fn find_requirements(manifests: &[String]) -> (r: Option<usize>)
    ensures
        match r {
            Some(i) => i < manifests.len() && requirements_manifest(views(manifests@)) == Some(manifests@[i as int]@),
            None => requirements_manifest(views(manifests@)) is None,
        },
{
    let ghost v = views(manifests@);
    let ghost p = |m: Seq<char>| ends_with(m, ".txt"@);
    let mut i: usize = 0;
    while i < manifests.len()
        invariant
            i <= manifests.len(),
            v == views(manifests@),
            p == (|m: Seq<char>| ends_with(m, ".txt"@)),
            forall|k: int| 0 <= k < i ==> !p(#[trigger] v[k]),
        decreases manifests.len() - i,
    {
        if ends_with_str(manifests[i].as_str(), ".txt") {
            proof {
                lemma_first_index_at(v, p, i as int);
            }
            return Some(i);
        }
        i += 1;
    }
    proof {
        lemma_first_index_none(v, p);
    }
    None
}

/// The command that installs the root project's declared dependencies.
pub fn resolve_root_install_command(detection: &RepositoryDetection, override_tool: Option<&str>) -> (r: Result<
    RunCommand,
    CliError,
>)
    ensures
        command_result(r) == spec_root_install(*detection, tool_view(override_tool)),
{
    let js_tool = match override_tool {
        Some(t) => PackageManager::parse(t).is_some(),
        None => false,
    };
    if detection.package_json || js_tool {
        let none: Vec<String> = Vec::new();
        assert(views(none@) =~= Seq::<Seq<char>>::empty());
        return build_install_command(detection, none.as_slice(), override_tool);
    }
    let i = match find_root(detection.components.as_slice(), None) {
        Some(i) => i,
        None => {
            return Err(cli_error(copy_str("no installable root project detected"), 1));
        },
    };
    let component = &detection.components[i];
    let tool: &str = match override_tool {
        Some(t) => t,
        None => match &component.tool {
            Some(t) => t.as_str(),
            None => {
                return Err(cli_error(copy_str("could not detect an authoritative package manager"), 1));
            },
        },
    };
    if str_eq(tool, "uv") {
        let args = vec![copy_str("sync")];
        assert(views(args@) =~= seq!["sync"@]);
        Ok(command("uv", args, &detection.root))
    } else if str_eq(tool, "poetry") || str_eq(tool, "pdm") {
        let args = vec![copy_str("install")];
        assert(views(args@) =~= seq!["install"@]);
        Ok(command(tool, args, &detection.root))
    } else if str_eq(tool, "pip") {
        match find_requirements(component.manifests.as_slice()) {
            Some(k) => {
                let args = vec![copy_str("install"), copy_str("-r"), component.manifests[k].clone()];
                assert(views(args@) =~= seq!["install"@, "-r"@, component.manifests@[k as int]@]);
                Ok(command("pip", args, &detection.root))
            },
            None => {
                let args = vec![copy_str("install"), copy_str(".")];
                assert(views(args@) =~= seq!["install"@, "."@]);
                Ok(command("pip", args, &detection.root))
            },
        }
    } else if str_eq(tool, "cargo") {
        let args = vec![copy_str("fetch")];
        assert(views(args@) =~= seq!["fetch"@]);
        Ok(command("cargo", args, &detection.root))
    } else {
        Err(cli_error(concat("unsupported install operation for ", tool), 2))
    }
}

// ---------------------------------------------------------------------------
// Laws of resolution
// ---------------------------------------------------------------------------
/// The configuration files that show a provider, the first present one:
/// `fly.toml`; `vercel.json`, else `.vercel/project.json`; `netlify.toml`.
pub open spec fn provider_candidates(e: DeployEvidence, p: DeployProvider) -> Seq<Seq<char>> {
    match p {
        DeployProvider::Fly => if e.fly_toml {
            seq!["fly.toml"@]
        } else {
            seq![]
        },
        DeployProvider::Vercel => if e.vercel_json {
            seq!["vercel.json"@]
        } else if e.vercel_project_json {
            seq![".vercel/project.json"@]
        } else {
            seq![]
        },
        DeployProvider::Netlify => if e.netlify_toml {
            seq!["netlify.toml"@]
        } else {
            seq![]
        },
    }
}

proof fn lemma_filter_short(s: Seq<(DeployProvider, Seq<char>)>, f: spec_fn((DeployProvider, Seq<char>)) -> bool)
    requires
        s.len() <= 1,
    ensures
        s.filter(f) == if s.len() == 1 && f(s[0]) {
            s
        } else {
            Seq::<(DeployProvider, Seq<char>)>::empty()
        },
{
    reveal_with_fuel(Seq::filter, 2);
    if s.len() == 1 {
        assert(s.drop_last() =~= Seq::<(DeployProvider, Seq<char>)>::empty());
        assert(s.drop_last().filter(f) =~= Seq::<(DeployProvider, Seq<char>)>::empty());
        assert(Seq::<(DeployProvider, Seq<char>)>::empty().push(s.last()) =~= s);
    } else {
        assert(s =~= Seq::<(DeployProvider, Seq<char>)>::empty());
    }
}

proof fn lemma_evidence_for(e: DeployEvidence, p: DeployProvider)
    ensures
        evidence_for(detected_providers(e), p) == provider_candidates(e, p),
{
    let f = for_provider(p);
    let g = entry_file();
    let fly: Seq<(DeployProvider, Seq<char>)> = if e.fly_toml {
        seq![(DeployProvider::Fly, "fly.toml"@)]
    } else {
        seq![]
    };
    let vercel: Seq<(DeployProvider, Seq<char>)> = if e.vercel_json {
        seq![(DeployProvider::Vercel, "vercel.json"@)]
    } else if e.vercel_project_json {
        seq![(DeployProvider::Vercel, ".vercel/project.json"@)]
    } else {
        seq![]
    };
    let netlify: Seq<(DeployProvider, Seq<char>)> = if e.netlify_toml {
        seq![(DeployProvider::Netlify, "netlify.toml"@)]
    } else {
        seq![]
    };
    assert(detected_providers(e) == fly + vercel + netlify);
    Seq::filter_distributes_over_add(fly + vercel, netlify, f);
    Seq::filter_distributes_over_add(fly, vercel, f);
    lemma_filter_short(fly, f);
    lemma_filter_short(vercel, f);
    lemma_filter_short(netlify, f);
    let ff = fly.filter(f);
    let vf = vercel.filter(f);
    let nf = netlify.filter(f);
    assert((ff + vf + nf).map_values(g) =~= ff.map_values(g) + vf.map_values(g) + nf.map_values(g));
    match p {
        DeployProvider::Fly => {
            assert(vf =~= Seq::<(DeployProvider, Seq<char>)>::empty());
            assert(nf =~= Seq::<(DeployProvider, Seq<char>)>::empty());
        },
        DeployProvider::Vercel => {
            assert(ff =~= Seq::<(DeployProvider, Seq<char>)>::empty());
            assert(nf =~= Seq::<(DeployProvider, Seq<char>)>::empty());
        },
        DeployProvider::Netlify => {
            assert(ff =~= Seq::<(DeployProvider, Seq<char>)>::empty());
            assert(vf =~= Seq::<(DeployProvider, Seq<char>)>::empty());
        },
    }
    assert((ff + vf + nf).map_values(g) =~= provider_candidates(e, p));
    assert(detected_providers(e).filter(f) == ff + vf + nf);
    assert(evidence_for(detected_providers(e), p) == detected_providers(e).filter(f).map_values(g));
}

/// A requested provider is used whether or not its files are present: a
/// name that is no provider is refused with exit code 2; a provider is
/// selected with the first of its configuration files that exists, if any,
/// as evidence.
pub proof fn law_requested_provider(e: DeployEvidence, r: Seq<char>)
    ensures
        spec_select_deploy(e, Some(r)) == match spec_parse_provider(r) {
            None => Err::<(DeployProvider, Seq<Seq<char>>), (Seq<char>, u8)>(("unsupported deployment provider: "@ + r, 2u8)),
            Some(p) => Ok((p, provider_candidates(e, p))),
        },
{
    match spec_parse_provider(r) {
        Some(p) => lemma_evidence_for(e, p),
        None => {},
    }
}

/// Without a request, the configuration files decide: the providers they
/// show are listed once each (fly, vercel, netlify) with the first file that
/// shows them; exactly one is selected with that file; none fails with exit
/// code 1; several fail with exit code 2, naming each with its file.
pub proof fn law_detected_provider(e: DeployEvidence)
    ensures
        forall|p: DeployProvider| #[trigger] evidence_for(detected_providers(e), p) == provider_candidates(e, p),
        detected_providers(e).len() == 1 ==> spec_select_deploy(e, None) == Ok::<_, (Seq<char>, u8)>(
            (detected_providers(e)[0].0, seq![detected_providers(e)[0].1]),
        ),
        detected_providers(e).len() == 0 ==> spec_select_deploy(e, None) == Err::<(DeployProvider, Seq<Seq<char>>), _>(
            ("could not detect a deployment provider (use --tool <provider>)"@, 1u8),
        ),
        detected_providers(e).len() > 1 ==> spec_select_deploy(e, None) == Err::<(DeployProvider, Seq<Seq<char>>), _>(
            ("ambiguous deployment providers: "@ + join(provider_labels(detected_providers(e)), ", "@), 2u8),
        ),
{
    assert forall|p: DeployProvider| #[trigger] evidence_for(detected_providers(e), p) == provider_candidates(e, p) by {
        lemma_evidence_for(e, p);
    }
}

/// The tool a standard operation goes by first: the override, else the
/// detected JavaScript package manager.
pub open spec fn standard_selected_tool(d: RepositoryDetection, tool: Option<Seq<char>>) -> Option<Seq<char>> {
    match tool {
        Some(t) => Some(t),
        None => match d.manager {
            Some(m) => Some(spec_manager_name(m.name)),
            None => None,
        },
    }
}

/// Where a JavaScript package manager decides a standard operation, the
/// operation is the `package.json` script of that name, run as `pax run`
/// would run it; without such a script it is refused with exit code 2.
pub proof fn law_standard_operation_is_a_script(d: RepositoryDetection, op: Seq<char>, extra: Seq<Seq<char>>, tool: Option<Seq<char>>)
    requires
        is_standard_operation(op),
        standard_selected_tool(d, tool) matches Some(t) && spec_parse_manager(t) is Some,
    ensures
        has_script(d, op) ==> spec_resolve_standard(d, op, extra, tool) == spec_build_run(d, seq![op] + extra, tool),
        !has_script(d, op) ==> match spec_resolve_standard(d, op, extra, tool) {
            Err((m, c)) => c == 2 && crate::text::starts_with(
                m,
                "project operation '"@ + op + "' is not supported: package.json has no '"@ + op + "' script"@,
            ),
            Ok(_) => false,
        },
{
    let head = "project operation '"@ + op + "' is not supported: package.json has no '"@ + op + "' script"@;
    let m = head + "\nUse `pax run <operation>` for another project-defined operation."@;
    assert(m.take(head.len() as int) =~= head);
    assert("project operation '"@ + op + "' is not supported: package.json has no '"@ + op
        + "' script\nUse `pax run <operation>` for another project-defined operation."@ =~= m) by {
        reveal_strlit("' script\nUse `pax run <operation>` for another project-defined operation.");
        reveal_strlit("' script");
        reveal_strlit("\nUse `pax run <operation>` for another project-defined operation.");
    }
}

/// Installing a project that is not JavaScript's, with no JavaScript
/// manager requested, goes by the root component's tool (or the override):
/// `uv sync`; `poetry install` or `pdm install`; `pip install -r` the first
/// requirements file, else `pip install .`; `cargo fetch`. Any other tool is
/// refused with exit code 2, and no root component or no tool with exit
/// code 1.
pub proof fn law_root_install_by_tool(d: RepositoryDetection, tool: Option<Seq<char>>)
    requires
        !d.package_json,
        !(tool matches Some(t) && spec_parse_manager(t) is Some),
    ensures
        spec_root_install(d, tool) == match root_component(d.components@, None) {
            None => err::<CommandView>("no installable root project detected"@, 1),
            Some(c) => match (if tool is Some {
                tool
            } else {
                opt_view(c.tool)
            }) {
                None => err("could not detect an authoritative package manager"@, 1),
                Some(t) => if t == "uv"@ {
                    Ok(cmd("uv"@, seq!["sync"@], d.root@))
                } else if t == "poetry"@ || t == "pdm"@ {
                    Ok(cmd(t, seq!["install"@], d.root@))
                } else if t == "pip"@ {
                    match requirements_manifest(views(c.manifests@)) {
                        Some(f) => Ok(cmd("pip"@, seq!["install"@, "-r"@, f], d.root@)),
                        None => Ok(cmd("pip"@, seq!["install"@, "."@], d.root@)),
                    }
                } else if t == "cargo"@ {
                    Ok(cmd("cargo"@, seq!["fetch"@], d.root@))
                } else {
                    err("unsupported install operation for "@ + t, 2)
                },
            },
        },
{
}

/// `pax x` with the detected JavaScript manager runs the package the way
/// that manager's own runner does, the same as naming the manager with
/// `--tool`: `npx`, `pnpm dlx`, `bunx` or `yarn dlx`, followed by the
/// arguments.
pub proof fn law_x_follows_the_manager(d: RepositoryDetection, run_args: Seq<Seq<char>>)
    requires
        run_args.len() > 0,
        run_args[0] != "install"@,
        d.manager is Some,
    ensures
        spec_build_x(d, run_args, None) == spec_build_x(d, run_args, Some(spec_manager_name(d.manager.unwrap().name))),
        spec_build_x(d, run_args, None) == Ok::<CommandView, (Seq<char>, u8)>(
            match d.manager.unwrap().name {
                PackageManager::Npm => cmd("npx"@, run_args, d.root@),
                PackageManager::Pnpm => cmd("pnpm"@, seq!["dlx"@] + run_args, d.root@),
                PackageManager::Bun => cmd("bunx"@, run_args, d.root@),
                PackageManager::Yarn => cmd("yarn"@, seq!["dlx"@] + run_args, d.root@),
            },
        ),
{
    reveal_strlit("npm");
    reveal_strlit("pnpm");
    reveal_strlit("bun");
    reveal_strlit("yarn");
    assert("npm"@[0] == 'n' && "pnpm"@[0] == 'p' && "bun"@[0] == 'b' && "yarn"@[0] == 'y');
}

/// Where cargo is the native tool (named with `--tool`, or the root
/// project's tool with no JavaScript manager detected), a standard
/// operation is the cargo subcommand of the same purpose followed by the
/// extra arguments: `build`, `test`, `clippy` for lint, `check` for
/// typecheck.
pub proof fn law_standard_operations_with_cargo(d: RepositoryDetection, op: Seq<char>, extra: Seq<Seq<char>>, tool: Option<Seq<char>>)
    requires
        is_standard_operation(op),
        tool == Some("cargo"@) || (tool is None && d.manager is None && (root_component(d.components@, None) matches Some(
            c,
        ) && opt_view(c.tool) == Some("cargo"@))),
    ensures
        op == "build"@ ==> spec_resolve_standard(d, op, extra, tool) == Ok::<CommandView, (Seq<char>, u8)>(
            cmd("cargo"@, seq!["build"@] + extra, d.root@),
        ),
        op == "test"@ ==> spec_resolve_standard(d, op, extra, tool) == Ok::<CommandView, (Seq<char>, u8)>(
            cmd("cargo"@, seq!["test"@] + extra, d.root@),
        ),
        op == "lint"@ ==> spec_resolve_standard(d, op, extra, tool) == Ok::<CommandView, (Seq<char>, u8)>(
            cmd("cargo"@, seq!["clippy"@] + extra, d.root@),
        ),
        op == "typecheck"@ ==> spec_resolve_standard(d, op, extra, tool) == Ok::<CommandView, (Seq<char>, u8)>(
            cmd("cargo"@, seq!["check"@] + extra, d.root@),
        ),
{
    reveal_strlit("cargo");
    reveal_strlit("npm");
    reveal_strlit("pnpm");
    reveal_strlit("bun");
    reveal_strlit("yarn");
    assert("cargo"@[0] == 'c' && "npm"@[0] == 'n' && "pnpm"@[0] == 'p' && "bun"@[0] == 'b' && "yarn"@[0] == 'y');
    reveal_strlit("build");
    reveal_strlit("test");
    reveal_strlit("lint");
    reveal_strlit("typecheck");
    assert("build"@[0] == 'b' && "test"@[0] == 't' && "lint"@[0] == 'l' && "typecheck"@[0] == 't');
    assert("test"@.len() == 4 && "typecheck"@.len() == 9);
}

/// `pax run TARGET ARGS...` with the detected JavaScript manager runs the
/// script through that manager, the same as naming it with `--tool`.
pub proof fn law_run_follows_the_manager(d: RepositoryDetection, run_args: Seq<Seq<char>>)
    requires
        run_args.len() > 0,
        d.manager is Some,
    ensures
        spec_build_run(d, run_args, None) == spec_build_run(d, run_args, Some(spec_manager_name(d.manager.unwrap().name))),
        spec_build_run(d, run_args, None) == Ok::<CommandView, (Seq<char>, u8)>(
            cmd(spec_manager_name(d.manager.unwrap().name), seq!["run"@, run_args[0]] + run_args.drop_first(), d.root@),
        ),
{
    crate::manager::law_manager_name_roundtrip(d.manager.unwrap().name);
}

/// `pax run TARGET ARGS...` with no manager and no `--tool`, in a project
/// whose root component runs with uv, poetry, pdm or cargo, gives the same
/// command as naming that tool with `--tool`; with cargo it is
/// `cargo run --bin TARGET -- ARGS...`, so the arguments reach the program.
pub proof fn law_run_follows_the_root_tool(d: RepositoryDetection, run_args: Seq<Seq<char>>, t: Seq<char>)
    requires
        run_args.len() > 0,
        d.manager is None,
        run_component(d.components@) matches Some(c) && opt_view(c.tool) == Some(t) && ((c.ecosystem
            == Ecosystem::Python && (t == "uv"@ || t == "poetry"@ || t == "pdm"@)) || (c.ecosystem == Ecosystem::Rust
            && t == "cargo"@)),
    ensures
        spec_build_run(d, run_args, None) == spec_build_run(d, run_args, Some(t)),
        t == "cargo"@ ==> spec_build_run(d, run_args, None) == Ok::<CommandView, (Seq<char>, u8)>(
            cmd("cargo"@, seq!["run"@, "--bin"@, run_args[0], "--"@] + run_args.drop_first(), d.root@),
        ),
{
    reveal_strlit("cargo");
    reveal_strlit("uv");
    reveal_strlit("poetry");
    reveal_strlit("pdm");
    reveal_strlit("npm");
    reveal_strlit("pnpm");
    reveal_strlit("bun");
    reveal_strlit("yarn");
    assert("cargo"@[0] == 'c' && "uv"@[0] == 'u' && "poetry"@.len() == 6 && "pdm"@.len() == 3);
    assert("npm"@.len() == 3 && "npm"@[0] == 'n' && "pnpm"@[0] == 'p' && "bun"@[0] == 'b' && "yarn"@[0] == 'y');
    assert("poetry"@[0] == 'p' && "pdm"@[0] == 'p' && "pnpm"@.len() == 4 && "pdm"@[1] == 'd' && "poetry"@[1] == 'o');
    assert("pnpm"@[1] == 'n');
}

proof fn lemma_tool_names()
    ensures
        "npm"@ != "pnpm"@ && "npm"@ != "bun"@ && "npm"@ != "yarn"@ && "pnpm"@ != "bun"@ && "pnpm"@ != "yarn"@ && "bun"@
            != "yarn"@,
        "uv"@ != "npm"@ && "uv"@ != "pnpm"@ && "uv"@ != "bun"@ && "uv"@ != "yarn"@ && "uv"@ != "pip"@ && "uv"@
            != "poetry"@ && "uv"@ != "pdm"@ && "uv"@ != "cargo"@ && "uv"@ != "docker"@,
        "pip"@ != "npm"@ && "pip"@ != "pnpm"@ && "pip"@ != "bun"@ && "pip"@ != "yarn"@ && "pip"@ != "poetry"@ && "pip"@
            != "pdm"@ && "pip"@ != "cargo"@ && "pip"@ != "docker"@,
        "poetry"@ != "npm"@ && "poetry"@ != "pnpm"@ && "poetry"@ != "bun"@ && "poetry"@ != "yarn"@ && "poetry"@ != "pdm"@
            && "poetry"@ != "cargo"@ && "poetry"@ != "docker"@,
        "pdm"@ != "npm"@ && "pdm"@ != "pnpm"@ && "pdm"@ != "bun"@ && "pdm"@ != "yarn"@ && "pdm"@ != "cargo"@ && "pdm"@
            != "docker"@,
        "cargo"@ != "npm"@ && "cargo"@ != "pnpm"@ && "cargo"@ != "bun"@ && "cargo"@ != "yarn"@ && "cargo"@ != "docker"@,
        "docker"@ != "npm"@ && "docker"@ != "pnpm"@ && "docker"@ != "bun"@ && "docker"@ != "yarn"@,
{
    reveal_strlit("npm");
    reveal_strlit("pnpm");
    reveal_strlit("bun");
    reveal_strlit("yarn");
    reveal_strlit("uv");
    reveal_strlit("pip");
    reveal_strlit("poetry");
    reveal_strlit("pdm");
    reveal_strlit("cargo");
    reveal_strlit("docker");
    assert("npm"@[0] == 'n' && "pnpm"@[0] == 'p' && "bun"@[0] == 'b' && "yarn"@[0] == 'y' && "uv"@[0] == 'u');
    assert("pip"@[0] == 'p' && "poetry"@[0] == 'p' && "pdm"@[0] == 'p' && "cargo"@[0] == 'c' && "docker"@[0] == 'd');
    assert("pip"@[1] == 'i' && "poetry"@[1] == 'o' && "pdm"@[1] == 'd' && "pnpm"@[1] == 'n');
}

/// Installing packages goes to the detected JavaScript manager's
/// `install`, the same as naming it with `--tool`; without one, to the root
/// Python project's tool: `uv pip install`, or `poetry`, `pdm` or `pip`
/// `install`, the same as naming that tool.
pub proof fn law_install_follows_the_project(d: RepositoryDetection, args: Seq<Seq<char>>)
    ensures
        d.manager matches Some(m) ==> spec_build_install(d, args, None) == Ok::<CommandView, (Seq<char>, u8)>(
            cmd(spec_manager_name(m.name), seq!["install"@] + args, d.root@),
        ) && spec_build_install(d, args, None) == spec_build_install(d, args, Some(spec_manager_name(m.name))),
        d.manager is None ==> match root_component(d.components@, Some(Ecosystem::Python)) {
            Some(c) => match opt_view(c.tool) {
                Some(t) => (t == "uv"@ ==> spec_build_install(d, args, None) == Ok::<CommandView, (Seq<char>, u8)>(
                    cmd("uv"@, seq!["pip"@, "install"@] + args, d.root@),
                )) && ((t == "uv"@ || t == "poetry"@ || t == "pdm"@ || t == "pip"@) ==> spec_build_install(d, args, None)
                    == spec_build_install(d, args, Some(t))) && ((t == "poetry"@ || t == "pdm"@ || t == "pip"@)
                    ==> spec_build_install(d, args, None) == Ok::<CommandView, (Seq<char>, u8)>(
                    cmd(t, seq!["install"@] + args, d.root@),
                )),
                None => true,
            },
            None => true,
        },
{
    lemma_tool_names();
    crate::manager::law_manager_names(seq![]);
    match d.manager {
        Some(m) => crate::manager::law_manager_name_roundtrip(m.name),
        None => {},
    }
}

/// Adding and removing packages: npm `install` / `uninstall`; pnpm, yarn,
/// bun, uv and cargo `add` / `remove`; followed by the packages, with the
/// tool named by `--tool`, else the detected JavaScript manager (the same
/// as naming it).
pub proof fn law_package_mutation(d: RepositoryDetection, args: Seq<Seq<char>>, tool: Option<Seq<char>>, add: bool)
    requires
        args.len() > 0,
    ensures
        tool == Some("npm"@) ==> spec_mutation(d, args, tool, add) == Ok::<CommandView, (Seq<char>, u8)>(
            cmd("npm"@, seq![if add { "install"@ } else { "uninstall"@ }] + args, d.root@),
        ),
        (tool matches Some(t) && (t == "pnpm"@ || t == "yarn"@ || t == "bun"@ || t == "uv"@ || t == "cargo"@))
            ==> spec_mutation(d, args, tool, add) == Ok::<CommandView, (Seq<char>, u8)>(
            cmd(tool.unwrap(), seq![if add { "add"@ } else { "remove"@ }] + args, d.root@),
        ),
        (tool is None && d.manager is Some) ==> spec_mutation(d, args, None, add) == spec_mutation(
            d,
            args,
            Some(spec_manager_name(d.manager.unwrap().name)),
            add,
        ),
{
    lemma_tool_names();
}

/// `pax x` by a named tool: npm `npx`, pnpm `pnpm dlx`, bun `bunx`, yarn
/// `yarn dlx`, uv `uvx`, pip `pipx`; without a tool or manager, a root
/// Python project with uv runs `uvx`, and with poetry, pdm or pip `pipx`.
pub proof fn law_x_runners(d: RepositoryDetection, run_args: Seq<Seq<char>>, tool: Option<Seq<char>>)
    requires
        run_args.len() > 0,
        run_args[0] != "install"@,
    ensures
        tool == Some("npm"@) ==> spec_build_x(d, run_args, tool) == Ok::<CommandView, (Seq<char>, u8)>(
            cmd("npx"@, run_args, d.root@),
        ),
        tool == Some("pnpm"@) ==> spec_build_x(d, run_args, tool) == Ok::<CommandView, (Seq<char>, u8)>(
            cmd("pnpm"@, seq!["dlx"@] + run_args, d.root@),
        ),
        tool == Some("bun"@) ==> spec_build_x(d, run_args, tool) == Ok::<CommandView, (Seq<char>, u8)>(
            cmd("bunx"@, run_args, d.root@),
        ),
        tool == Some("yarn"@) ==> spec_build_x(d, run_args, tool) == Ok::<CommandView, (Seq<char>, u8)>(
            cmd("yarn"@, seq!["dlx"@] + run_args, d.root@),
        ),
        tool == Some("uv"@) ==> spec_build_x(d, run_args, tool) == Ok::<CommandView, (Seq<char>, u8)>(
            cmd("uvx"@, run_args, d.root@),
        ),
        tool == Some("pip"@) ==> spec_build_x(d, run_args, tool) == Ok::<CommandView, (Seq<char>, u8)>(
            cmd("pipx"@, run_args, d.root@),
        ),
        (tool is None && d.manager is None) ==> match root_component(d.components@, Some(Ecosystem::Python)) {
            Some(c) => (opt_view(c.tool) == Some("uv"@) ==> spec_build_x(d, run_args, None) == Ok::<
                CommandView,
                (Seq<char>, u8),
            >(cmd("uvx"@, run_args, d.root@))) && ((opt_view(c.tool) == Some("poetry"@) || opt_view(c.tool) == Some(
                "pdm"@,
            ) || opt_view(c.tool) == Some("pip"@)) ==> spec_build_x(d, run_args, None) == Ok::<
                CommandView,
                (Seq<char>, u8),
            >(cmd("pipx"@, run_args, d.root@))),
            None => true,
        },
{
    lemma_tool_names();
}

/// `pax run` in a project without a manager or `--tool`, by its root
/// component: a pip project runs `python TARGET ARGS...`; a container
/// project runs `docker compose VERB ARGS...` for the service verbs `up`,
/// `down`, `logs` and `ps`, else `docker compose run --rm TARGET ARGS...`.
pub proof fn law_run_by_root_component(d: RepositoryDetection, run_args: Seq<Seq<char>>)
    requires
        run_args.len() > 0,
        d.manager is None,
    ensures
        match run_component(d.components@) {
            Some(c) => {
                &&& (c.ecosystem == Ecosystem::Python && opt_view(c.tool) == Some("pip"@)) ==> spec_build_run(
                    d,
                    run_args,
                    None,
                ) == Ok::<CommandView, (Seq<char>, u8)>(cmd("python"@, run_args, d.root@))
                &&& (c.ecosystem == Ecosystem::Container && opt_view(c.tool) == Some("docker"@) && (run_args[0] == "up"@
                    || run_args[0] == "down"@ || run_args[0] == "logs"@ || run_args[0] == "ps"@)) ==> spec_build_run(
                    d,
                    run_args,
                    None,
                ) == Ok::<CommandView, (Seq<char>, u8)>(cmd("docker"@, seq!["compose"@] + run_args, d.root@))
                &&& (c.ecosystem == Ecosystem::Container && opt_view(c.tool) == Some("docker"@) && !(run_args[0] == "up"@
                    || run_args[0] == "down"@ || run_args[0] == "logs"@ || run_args[0] == "ps"@)) ==> spec_build_run(
                    d,
                    run_args,
                    None,
                ) == Ok::<CommandView, (Seq<char>, u8)>(
                    cmd("docker"@, seq!["compose"@, "run"@, "--rm"@] + run_args, d.root@),
                )
            },
            None => spec_build_run(d, run_args, None) is Err,
        },
{
    lemma_tool_names();
    let target = run_args[0];
    let extra = run_args.drop_first();
    assert(seq![target] + extra =~= run_args);
    assert(seq!["compose"@] + seq![target] + extra =~= seq!["compose"@] + run_args);
    assert(seq!["compose"@] + seq!["run"@, "--rm"@, target] + extra =~= seq!["compose"@, "run"@, "--rm"@] + run_args);
}

/// Where the native tool is docker (named with `--tool`, or the root
/// project's with no JavaScript manager), `build` is
/// `docker compose build` followed by the extra arguments.
pub proof fn law_build_with_docker(d: RepositoryDetection, extra: Seq<Seq<char>>, tool: Option<Seq<char>>)
    requires
        tool == Some("docker"@) || (tool is None && d.manager is None && (root_component(d.components@, None) matches Some(
            c,
        ) && opt_view(c.tool) == Some("docker"@))),
    ensures
        spec_resolve_standard(d, "build"@, extra, tool) == Ok::<CommandView, (Seq<char>, u8)>(
            cmd("docker"@, seq!["compose"@, "build"@] + extra, d.root@),
        ),
{
    lemma_tool_names();
}

/// Each deployment provider deploys with its own program: `fly`, `vercel`,
/// `netlify`; `fly` and `flyctl` both name fly.
pub proof fn law_provider_programs()
    ensures
        spec_provider_name(DeployProvider::Fly) == "fly"@,
        spec_provider_name(DeployProvider::Vercel) == "vercel"@,
        spec_provider_name(DeployProvider::Netlify) == "netlify"@,
        spec_parse_provider("fly"@) == Some(DeployProvider::Fly),
        spec_parse_provider("flyctl"@) == Some(DeployProvider::Fly),
        spec_parse_provider("vercel"@) == Some(DeployProvider::Vercel),
        spec_parse_provider("netlify"@) == Some(DeployProvider::Netlify),
{
    reveal_strlit("fly");
    reveal_strlit("flyctl");
    reveal_strlit("vercel");
    reveal_strlit("netlify");
    assert("fly"@.len() == 3 && "flyctl"@.len() == 6 && "vercel"@[0] == 'v' && "netlify"@[0] == 'n');
    assert("fly"@[0] == 'f' && "flyctl"@[0] == 'f');
}

} // verus!
