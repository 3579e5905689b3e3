use pax::cli::{command_usage, parse_args, usage, CommandName};
use pax::components::{DirFacts, RequirementsDir};
use pax::detect::{detect_repository, ProjectFacts};
use pax::manager::{manager_from_lockfile, parse_package_manager_field};
use pax::model::{PackageManager, RepositoryDetection, RunCommand};
use pax::operations::{
    build_install_command, build_package_mutation_command, build_run_command, build_x_command,
    resolve_root_install_command, resolve_standard_project_command, select_deploy_provider, DeployEvidence,
    DeployProvider, Operation,
};
use pax::plan::{execution_outcome, execution_plan, render_execution_plan, resolve_operation, WorkdirFacts};

fn args(list: &[&str]) -> Vec<String> {
    list.iter().map(|s| s.to_string()).collect()
}

fn detect(files: &[(&str, &str)]) -> RepositoryDetection {
    let names: Vec<String> = files.iter().map(|(n, _)| n.to_string()).collect();
    let texts: Vec<(String, String)> = files.iter().map(|(n, t)| (n.to_string(), t.to_string())).collect();
    let package_json = files.iter().find(|(n, _)| *n == "package.json").map(|(_, t)| Ok(t.to_string()));
    let facts = ProjectFacts {
        root: DirFacts {
            path: "/p".to_string(),
            listed: true,
            entries: names.clone(),
            files: names,
            requirements: RequirementsDir::Absent,
            texts,
        },
        subdirs: Vec::new(),
        package_json,
        cargo_metadata: None,
        cargo_metadata_lock: false,
    };
    match detect_repository(&facts) {
        Ok(d) => d,
        Err(e) => panic!("detection failed: {}", e.message),
    }
}

fn no_deploy() -> DeployEvidence {
    DeployEvidence { fly_toml: false, vercel_json: false, vercel_project_json: false, netlify_toml: false }
}

fn command_words(c: &RunCommand) -> Vec<String> {
    let mut v = vec![c.program.clone()];
    v.extend(c.args.iter().cloned());
    v
}

#[test]
fn parse_args_reads_options_and_command() {
    let cli = parse_args(args(&["pax", "--json", "--tool", "pnpm", "--dry-run", "run", "build", "--watch"])).unwrap();
    assert_eq!(cli.command, CommandName::Run);
    assert!(cli.json);
    assert!(cli.dry_run);
    assert!(!cli.live);
    assert_eq!(cli.tool.as_deref(), Some("pnpm"));
    assert_eq!(cli.run_args, args(&["build", "--watch"]));
}

#[test]
fn parse_args_stops_options_after_double_dash() {
    let cli = parse_args(args(&["pax", "exec", "--", "ls", "--json"])).unwrap();
    assert_eq!(cli.command, CommandName::Exec);
    assert!(!cli.json);
    assert_eq!(cli.run_args, args(&["ls", "--json"]));
}

#[test]
fn parse_args_help_and_version_exit_zero() {
    let help = parse_args(args(&["pax", "--help"])).unwrap_err();
    assert_eq!(help.exit_code, 0);
    assert_eq!(help.message, usage());
    let version = parse_args(args(&["pax", "-V"])).unwrap_err();
    assert_eq!(version.exit_code, 0);
    assert_eq!(version.message, "pax 0.2.0");
    let sub = parse_args(args(&["pax", "drift", "--help"])).unwrap_err();
    assert_eq!(sub.exit_code, 0);
    assert_eq!(sub.message, "Usage: pax drift [--live] [--json]\nReport contradictions without repairing them.");
}

#[test]
fn parse_args_errors() {
    let none = parse_args(args(&["pax"])).unwrap_err();
    assert_eq!(none.exit_code, 2);
    assert_eq!(none.message, usage());
    let tool = parse_args(args(&["pax", "info", "--tool"])).unwrap_err();
    assert_eq!((tool.message.as_str(), tool.exit_code), ("pax --tool requires a tool", 2));
    let dir = parse_args(args(&["pax", "info", "--dir"])).unwrap_err();
    assert_eq!((dir.message.as_str(), dir.exit_code), ("pax --dir requires a directory", 2));
    let run = parse_args(args(&["pax", "run"])).unwrap_err();
    assert_eq!(run.message, format!("pax run requires a target\n\n{}", usage()));
    let x = parse_args(args(&["pax", "x"])).unwrap_err();
    assert_eq!(x.message, format!("pax x requires a package\n\n{}", usage()));
    let deploy = parse_args(args(&["pax", "deploy"])).unwrap();
    assert_eq!(deploy.command, CommandName::Deploy);
    assert!(deploy.run_args.is_empty());
    let empty_target = parse_args(args(&["pax", "run", ""])).unwrap_err();
    assert_eq!(empty_target.message, format!("pax run requires a target\n\n{}", usage()));
    let unknown = parse_args(args(&["pax", "frobnicate", "now"])).unwrap_err();
    assert_eq!(unknown.exit_code, 2);
    assert_eq!(
        unknown.message,
        format!("unknown arguments: frobnicate now\nTo run a project-defined operation, use: pax run frobnicate\n\n{}", usage())
    );
}

#[test]
fn command_usage_texts() {
    assert_eq!(command_usage("build"), "Usage: pax build [args...]\nBuild the project with its selected native tool.");
    assert_eq!(command_usage("x"), "Usage: pax x <package> [args...]\nRun an ephemeral package or tool with the native runner.");
}

#[test]
fn package_manager_names_and_lockfiles() {
    assert_eq!(PackageManager::parse("yarn"), Some(PackageManager::Yarn));
    assert_eq!(PackageManager::parse("Yarn"), None);
    assert_eq!(PackageManager::Bun.display_name(), "bun");
    assert_eq!(PackageManager::Bun.expected_lockfiles(), vec!["bun.lock", "bun.lockb"]);
    assert_eq!(manager_from_lockfile("bun.lockb"), Some(PackageManager::Bun));
    assert_eq!(manager_from_lockfile("Cargo.lock"), None);
    let (m, v) = parse_package_manager_field("pnpm@10.15.0").unwrap();
    assert_eq!((m, v.as_deref()), (PackageManager::Pnpm, Some("10.15.0")));
    let (m, v) = parse_package_manager_field("npm").unwrap();
    assert_eq!((m, v), (PackageManager::Npm, None));
    assert!(parse_package_manager_field("deno@2").is_none());
}

#[test]
fn deploy_provider_selection() {
    assert_eq!(DeployProvider::parse("flyctl"), Some(DeployProvider::Fly));
    assert_eq!(DeployProvider::Netlify.command(), ("netlify", "deploy"));
    let one = DeployEvidence { fly_toml: false, vercel_json: true, vercel_project_json: true, netlify_toml: false };
    let s = select_deploy_provider(&one, None).unwrap();
    assert_eq!(s.provider, DeployProvider::Vercel);
    assert_eq!(s.evidence, args(&["vercel.json"]));
    let none = select_deploy_provider(&no_deploy(), None).unwrap_err();
    assert_eq!((none.message.as_str(), none.exit_code), ("could not detect a deployment provider (use --tool <provider>)", 1));
    let two = DeployEvidence { fly_toml: true, vercel_json: false, vercel_project_json: false, netlify_toml: true };
    let amb = select_deploy_provider(&two, None).unwrap_err();
    assert_eq!(amb.message, "ambiguous deployment providers: fly (fly.toml), netlify (netlify.toml)");
    assert_eq!(amb.exit_code, 2);
    let bad = select_deploy_provider(&two, Some("heroku")).unwrap_err();
    assert_eq!((bad.message.as_str(), bad.exit_code), ("unsupported deployment provider: heroku", 2));
    let chosen = select_deploy_provider(&two, Some("netlify")).unwrap();
    assert_eq!(chosen.evidence, args(&["netlify.toml"]));
}

#[test]
fn run_command_follows_the_manager() {
    let d = detect(&[("package.json", r#"{"name":"a","scripts":{"build":"tsc"}}"#), ("pnpm-lock.yaml", "")]);
    let c = build_run_command(&d, &args(&["build", "--prod"]), None).unwrap();
    assert_eq!(command_words(&c), args(&["pnpm", "run", "build", "--prod"]));
    assert_eq!(c.working_directory, "/p");
    let c = build_run_command(&d, &args(&["serve"]), Some("cargo")).unwrap();
    assert_eq!(command_words(&c), args(&["cargo", "run", "--bin", "serve", "--"]));
    let e = build_run_command(&d, &args(&["serve"]), Some("make")).unwrap_err();
    assert_eq!((e.message.as_str(), e.exit_code), ("unsupported execution tool: make", 2));
}

#[test]
fn x_command_uses_the_package_runner() {
    let d = detect(&[("package.json", r#"{"name":"a"}"#), ("yarn.lock", "")]);
    let c = build_x_command(&d, &args(&["cowsay", "hi"]), None).unwrap();
    assert_eq!(command_words(&c), args(&["yarn", "dlx", "cowsay", "hi"]));
    let c = build_x_command(&d, &args(&["cowsay"]), Some("bun")).unwrap();
    assert_eq!(command_words(&c), args(&["bunx", "cowsay"]));
    let e = build_x_command(&d, &args(&["cowsay"]), Some("gem")).unwrap_err();
    assert_eq!((e.message.as_str(), e.exit_code), ("unsupported package runner tool: gem", 2));
    let bare = detect(&[]);
    let e = build_x_command(&bare, &args(&["cowsay"]), None).unwrap_err();
    assert_eq!((e.message.as_str(), e.exit_code), ("could not detect an authoritative package runner", 1));
}

#[test]
fn install_commands() {
    let d = detect(&[("package.json", r#"{"name":"a"}"#), ("package-lock.json", "{}")]);
    let c = build_install_command(&d, &args(&["left-pad"]), None).unwrap();
    assert_eq!(command_words(&c), args(&["npm", "install", "left-pad"]));
    let c = build_install_command(&d, &args(&["requests"]), Some("uv")).unwrap();
    assert_eq!(command_words(&c), args(&["uv", "pip", "install", "requests"]));
    let e = build_install_command(&d, &args(&["x"]), Some("gem")).unwrap_err();
    assert_eq!((e.message.as_str(), e.exit_code), ("unsupported package manager tool: gem", 2));
    let py = detect(&[("requirements.txt", "flask\n")]);
    let c = resolve_root_install_command(&py, None).unwrap();
    assert_eq!(command_words(&c), args(&["pip", "install", "-r", "requirements.txt"]));
    let rust = detect(&[("Cargo.toml", "[package]\nname = \"t\"\n")]);
    let c = resolve_root_install_command(&rust, None).unwrap();
    assert_eq!(command_words(&c), args(&["cargo", "fetch"]));
    let bare = detect(&[]);
    let e = resolve_root_install_command(&bare, None).unwrap_err();
    assert_eq!((e.message.as_str(), e.exit_code), ("no installable root project detected", 1));
}

#[test]
fn package_mutation_commands() {
    let d = detect(&[("package.json", r#"{"name":"a"}"#), ("package-lock.json", "{}")]);
    let c = build_package_mutation_command(&d, &args(&["react"]), None, false).unwrap();
    assert_eq!(command_words(&c), args(&["npm", "uninstall", "react"]));
    let rust = detect(&[("Cargo.toml", "[package]\nname = \"t\"\n")]);
    let c = build_package_mutation_command(&rust, &args(&["serde"]), None, true).unwrap();
    assert_eq!(command_words(&c), args(&["cargo", "add", "serde"]));
    let e = build_package_mutation_command(&d, &args(&[]), None, true).unwrap_err();
    assert_eq!(e.message, format!("pax add requires a package\n\n{}", usage()));
    let bare = detect(&[]);
    let e = build_package_mutation_command(&bare, &args(&["x"]), None, true).unwrap_err();
    assert_eq!((e.message.as_str(), e.exit_code), ("could not determine an authoritative package tool; use --tool", 1));
    let e = build_package_mutation_command(&d, &args(&["x"]), Some("pip"), true).unwrap_err();
    assert_eq!((e.message.as_str(), e.exit_code), ("unsupported canonical package operation for pip", 1));
}

#[test]
fn standard_operations() {
    let d = detect(&[("package.json", r#"{"name":"a","scripts":{"test":"vitest"}}"#), ("bun.lock", "")]);
    let c = resolve_standard_project_command(&d, "test", &args(&["-w"]), None).unwrap();
    assert_eq!(command_words(&c), args(&["bun", "run", "test", "-w"]));
    let e = resolve_standard_project_command(&d, "lint", &args(&[]), None).unwrap_err();
    assert_eq!(
        e.message,
        "project operation 'lint' is not supported: package.json has no 'lint' script\nUse `pax run <operation>` for another project-defined operation."
    );
    assert_eq!(e.exit_code, 2);
    let rust = detect(&[("Cargo.toml", "[package]\nname = \"t\"\n")]);
    let c = resolve_standard_project_command(&rust, "lint", &args(&[]), None).unwrap();
    assert_eq!(command_words(&c), args(&["cargo", "clippy"]));
    let docker = detect(&[("Dockerfile", "FROM alpine\n")]);
    let c = resolve_standard_project_command(&docker, "build", &args(&[]), None).unwrap();
    assert_eq!(command_words(&c), args(&["docker", "compose", "build"]));
    let bare = detect(&[]);
    let e = resolve_standard_project_command(&bare, "build", &args(&[]), None).unwrap_err();
    assert_eq!(e.message, "project operation 'build' is not supported: no authoritative native tool was detected");
}

#[test]
fn resolved_operations_carry_their_reason() {
    let d = detect(&[("package.json", r#"{"name":"a","scripts":{"build":"tsc"}}"#), ("pnpm-lock.yaml", "")]);
    let r = resolve_operation(&d, Operation::Build, &args(&[]), None, &no_deploy()).unwrap();
    assert_eq!(command_words(&r.command), args(&["pnpm", "run", "build"]));
    assert_eq!(r.selection_reason, "selected pnpm by lockfile precedence");
    assert_eq!(Operation::Custom("dev".to_string()).name(), "custom:dev");
    let fly = DeployEvidence { fly_toml: true, vercel_json: false, vercel_project_json: false, netlify_toml: false };
    let r = resolve_operation(&d, Operation::Deploy, &args(&["--now"]), None, &fly).unwrap();
    assert_eq!(command_words(&r.command), args(&["fly", "deploy", "--now"]));
    assert_eq!(r.selection_reason, "selected fly from deployment evidence");
    assert_eq!(r.ecosystem.as_deref(), Some("deployment"));
    assert_eq!(r.evidence, args(&["fly.toml"]));
}

#[test]
fn execution_plans_and_outcomes() {
    let command = RunCommand { program: "npx".to_string(), args: args(&["cowsay"]), working_directory: "/w".to_string() };
    let facts = WorkdirFacts {
        files: args(&["package.json", "package-lock.json", "uv.lock"]),
        package_json_text: Some(r#"{"packageManager":"npm@10"}"#.to_string()),
    };
    let plan = execution_plan(&command, &facts);
    assert_eq!(plan.operation, "package-run");
    assert_eq!(plan.ecosystem, "javascript");
    assert_eq!(plan.tool, "npm");
    assert_eq!(plan.evidence, args(&["package.json#packageManager", "package-lock.json", "uv.lock"]));
    assert_eq!(plan.selection_reason, "selected npm from project evidence");
    assert_eq!(
        render_execution_plan(&plan),
        "Ecosystem:   javascript\nTool:        npm\nOperation:   package-run\nEvidence:    package.json#packageManager, package-lock.json, uv.lock\nCommand:     npx cowsay\nWorking dir: /w"
    );
    assert_eq!(execution_outcome(Some(0)).unwrap(), "");
    let e = execution_outcome(Some(3)).unwrap_err();
    assert_eq!((e.message.as_str(), e.exit_code), ("", 3));
    assert_eq!(execution_outcome(Some(300)).unwrap_err().exit_code, 255);
    assert_eq!(execution_outcome(None).unwrap_err().exit_code, 1);
}

#[test]
fn requested_providers_are_used_without_evidence() {
    let s = select_deploy_provider(&no_deploy(), Some("fly")).unwrap();
    assert_eq!(s.provider, DeployProvider::Fly);
    assert!(s.evidence.is_empty());
    let project = DeployEvidence { fly_toml: false, vercel_json: false, vercel_project_json: true, netlify_toml: false };
    let s = select_deploy_provider(&project, Some("vercel")).unwrap();
    assert_eq!(s.evidence, args(&[".vercel/project.json"]));
    let s = select_deploy_provider(&project, None).unwrap();
    assert_eq!((s.provider, s.evidence), (DeployProvider::Vercel, args(&[".vercel/project.json"])));
}

#[test]
fn operations_other_than_deploy_give_the_default_reason() {
    let d = detect(&[("package.json", r#"{"name":"a","scripts":{"build":"tsc"}}"#), ("pnpm-lock.yaml", "")]);
    let r = resolve_operation(&d, Operation::Build, &args(&[]), Some("npm"), &no_deploy()).unwrap();
    assert_eq!(r.selection_reason, "selected npm by explicit --tool override");
    assert!(r.ecosystem.is_none());
    assert!(r.evidence.is_empty());
    let rust = detect(&[("Cargo.toml", "[package]\nname = \"t\"\n")]);
    let r = resolve_operation(&rust, Operation::Test, &args(&[]), None, &no_deploy()).unwrap();
    assert_eq!(r.selection_reason, "selected cargo from root project evidence");
    let fly = DeployEvidence { fly_toml: true, vercel_json: false, vercel_project_json: false, netlify_toml: false };
    let r = resolve_operation(&d, Operation::Deploy, &args(&[]), Some("fly"), &fly).unwrap();
    assert_eq!(r.selection_reason, "selected fly by explicit --tool override");
    let e = resolve_operation(&d, Operation::Deploy, &args(&[]), None, &no_deploy()).unwrap_err();
    assert_eq!(e.exit_code, 1);
}

#[test]
fn root_install_follows_the_root_tool() {
    let pip = detect(&[("requirements.txt", "flask\n")]);
    let c = resolve_root_install_command(&pip, None).unwrap();
    assert_eq!(command_words(&c), args(&["pip", "install", "-r", "requirements.txt"]));
    let uv = detect(&[("pyproject.toml", "[project]\n"), ("uv.lock", "")]);
    assert_eq!(command_words(&resolve_root_install_command(&uv, None).unwrap()), args(&["uv", "sync"]));
    let rust = detect(&[("Cargo.toml", "[package]\nname = \"t\"\n")]);
    assert_eq!(command_words(&resolve_root_install_command(&rust, None).unwrap()), args(&["cargo", "fetch"]));
    let docker = detect(&[("Dockerfile", "FROM alpine\n")]);
    let e = resolve_root_install_command(&docker, None).unwrap_err();
    assert_eq!((e.message.as_str(), e.exit_code), ("unsupported install operation for docker", 2));
    let bare = detect(&[]);
    let e = resolve_root_install_command(&bare, None).unwrap_err();
    assert_eq!((e.message.as_str(), e.exit_code), ("no installable root project detected", 1));
}
