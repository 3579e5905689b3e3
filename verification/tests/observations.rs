use pax::cli::{parse_args, CommandName};
use pax::components::{DirFacts, RequirementsDir};
use pax::detect::{detect_repository, ProjectFacts};
use pax::dispatch::{choose_action, exec_action, Action};
use pax::model::{Ecosystem, RepositoryDetection};
use pax::observe::{
    build_drift, build_graph, build_reality, probed_dirs, render_drift, render_graph, render_reality, InstalledDirs,
};
use pax::operations::DeployEvidence;

fn dir(path: &str, files: &[(&str, &str)]) -> DirFacts {
    let names: Vec<String> = files.iter().map(|(n, _)| n.to_string()).collect();
    DirFacts {
        path: path.to_string(),
        listed: true,
        entries: names.clone(),
        files: names,
        requirements: RequirementsDir::Absent,
        texts: files.iter().map(|(n, t)| (n.to_string(), t.to_string())).collect(),
    }
}

fn detect_with(root: DirFacts, subdirs: Vec<DirFacts>) -> RepositoryDetection {
    let package_json = root
        .texts
        .iter()
        .find(|(n, _)| n == "package.json")
        .map(|(_, t)| Ok(t.clone()));
    let facts = ProjectFacts { root, subdirs, package_json, cargo_metadata: None, cargo_metadata_lock: false };
    match detect_repository(&facts) {
        Ok(d) => d,
        Err(e) => panic!("detection failed: {}", e.message),
    }
}

fn detect(files: &[(&str, &str)]) -> RepositoryDetection {
    detect_with(dir("/r", files), Vec::new())
}

fn no_dirs() -> InstalledDirs {
    InstalledDirs { found: Vec::new() }
}

fn no_deploy() -> DeployEvidence {
    DeployEvidence { fly_toml: false, vercel_json: false, vercel_project_json: false, netlify_toml: false }
}

fn cli(words: &[&str]) -> pax::cli::ParsedCli {
    let mut v = vec!["pax".to_string()];
    v.extend(words.iter().map(|s| s.to_string()));
    match parse_args(v) {
        Ok(c) => c,
        Err(e) => panic!("parse failed: {}", e.message),
    }
}

#[test]
fn graph_lists_dependencies_sorted_without_repeats() {
    let d = detect_with(
        dir("/r", &[("package.json", r#"{"dependencies":{"react":"19"},"devDependencies":{"react":"19","vite":"5"}}"#)]),
        vec![dir("/r/api", &[("Cargo.toml", "[dependencies]\nserde = \"1\"\n")])],
    );
    let g = build_graph(&d);
    assert_eq!(g.schema_version, "1");
    assert_eq!(g.command, "graph");
    let nodes: Vec<(&str, &str)> = g.nodes.iter().map(|n| (n.id.as_str(), n.kind.as_str())).collect();
    assert_eq!(nodes, vec![(".", "component"), ("api", "component"), ("react", "dependency"), ("serde", "dependency"), ("vite", "dependency")]);
    let edges: Vec<(&str, &str, &str)> =
        g.edges.iter().map(|e| (e.from.as_str(), e.to.as_str(), e.kind.as_str())).collect();
    assert_eq!(
        edges,
        vec![
            (".", "react", "runtime-dependency"),
            (".", "react", "development-dependency"),
            (".", "vite", "development-dependency"),
            ("api", "serde", "runtime-dependency"),
        ]
    );
    assert_eq!(g.evidence[3].edge, "api -> serde");
    assert_eq!(g.evidence[3].evidence, vec!["api/Cargo.toml".to_string()]);
    assert_eq!(render_graph(&g), "PROJECT GRAPH\n. (\"javascript\")\napi (\"rust\")");
}

#[test]
fn reality_reports_each_layer() {
    let d = detect(&[("package.json", "{}"), ("package-lock.json", "{}"), ("compose.yaml", "services:\n")]);
    let installed = InstalledDirs { found: vec![(".".to_string(), "node_modules".to_string())] };
    let r = build_reality(&d, true, &installed);
    assert_eq!(r.command, "reality");
    assert_eq!(r.declared.observations.len(), 2);
    assert_eq!(r.resolved.observations.len(), 1);
    assert_eq!(r.resolved.observations[0].evidence, vec!["package-lock.json".to_string()]);
    let statuses: Vec<&str> = r.installed.observations.iter().map(|o| o.status.as_str()).collect();
    assert_eq!(statuses, vec!["unknown", "present"]);
    assert_eq!(r.runtime.observations.len(), 1);
    assert_eq!(r.runtime.observations[0].source, "docker");
    assert_eq!(
        render_reality(&r),
        "PROJECT\n  2 components\nDECLARED\n  2\nRESOLVED\n  1\nINSTALLED\n  2\nRUNTIME\n  inspected"
    );
    let quiet = build_reality(&d, false, &installed);
    assert!(quiet.runtime.observations.is_empty());
    assert!(render_reality(&quiet).ends_with("RUNTIME\n  not inspected"));
}

#[test]
fn drift_reports_disagreements() {
    let d = detect(&[
        ("package.json", r#"{"packageManager":"pnpm@9","dependencies":{"react":"19","zod":"3"}}"#),
        ("pnpm-lock.yaml", "react: 19\n"),
        ("package-lock.json", "{}"),
    ]);
    let o = build_drift(&d, false, "react: 19\n", &no_dirs());
    assert_eq!(o.status, "drift");
    let issues: Vec<(&str, &str, &str)> =
        o.issues.iter().map(|i| (i.subject.as_str(), i.status.as_str(), i.actual.as_str())).collect();
    assert_eq!(
        issues,
        vec![
            (".", "drift", "pnpm-lock.yaml, package-lock.json"),
            (".", "drift", "node_modules/ absent"),
            ("./zod", "drift", "zod missing from pnpm-lock.yaml"),
        ]
    );
    assert_eq!(o.issues[0].expected, "pnpm");
    assert_eq!(
        render_drift(&o),
        "3 issues\n  .\n    pnpm-lock.yaml, package-lock.json\n  .\n    node_modules/ absent\n  ./zod\n    zod missing from pnpm-lock.yaml"
    );
}

#[test]
fn drift_matches_when_nothing_disagrees() {
    let d = detect(&[("package.json", r#"{"dependencies":{"react":"19"}}"#), ("yarn.lock", "react@19\n")]);
    let installed = InstalledDirs { found: vec![(".".to_string(), "node_modules".to_string())] };
    let o = build_drift(&d, true, "react@19\n", &installed);
    assert_eq!(o.status, "match");
    assert!(o.issues.is_empty());
    assert_eq!(render_drift(&o), "NO DRIFT");
}

#[test]
fn drift_is_ambiguous_for_several_lockfiles() {
    let d = detect(&[("package.json", "{}"), ("bun.lock", ""), ("yarn.lock", "")]);
    let installed = InstalledDirs { found: vec![(".".to_string(), "node_modules".to_string())] };
    let o = build_drift(&d, false, "", &installed);
    assert_eq!(o.status, "ambiguous");
    assert_eq!(o.issues[0].expected, "one JavaScript package-manager authority");
}

#[test]
fn inspection_commands_only_report() {
    let d = detect(&[("package.json", "{}"), ("bun.lock", ""), ("yarn.lock", "")]);
    match choose_action(&cli(&["doctor"]), &d, &no_deploy()).unwrap() {
        Action::Report { command, include_runtime } => {
            assert_eq!(command, "doctor");
            assert!(include_runtime);
        }
        _ => panic!("doctor must report"),
    }
    match choose_action(&cli(&["drift"]), &d, &no_deploy()).unwrap() {
        Action::Observe(c) => assert_eq!(c, CommandName::Drift),
        _ => panic!("drift must observe"),
    }
}

#[test]
fn ambiguous_managers_refuse_delegation() {
    let d = detect(&[("package.json", "{}"), ("bun.lock", ""), ("yarn.lock", "")]);
    let err = choose_action(&cli(&["install"]), &d, &no_deploy()).err().unwrap();
    assert_eq!(err.exit_code, 2);
    assert_eq!(
        err.message,
        "multiple JavaScript package managers detected: bun.lock, yarn.lock\nuse --tool npm, --tool pnpm, --tool yarn, or --tool bun"
    );
    match choose_action(&cli(&["--tool", "yarn", "install"]), &d, &no_deploy()).unwrap() {
        Action::Execute(c) => assert_eq!(c.program, "yarn"),
        _ => panic!("an explicit tool runs"),
    }
    let py = detect(&[("uv.lock", ""), ("poetry.lock", "")]);
    let err = choose_action(&cli(&["test"]), &py, &no_deploy()).err().unwrap();
    assert_eq!(
        err.message,
        "ambiguous Python toolchain: multiple lockfiles detected; use --tool uv, --tool poetry, --tool pdm, or --tool pip"
    );
}

#[test]
fn dry_runs_show_plans() {
    let d = detect(&[("package.json", r#"{"scripts":{"build":"tsc"}}"#), ("package-lock.json", "{}")]);
    match choose_action(&cli(&["--dry-run", "build"]), &d, &no_deploy()).unwrap() {
        Action::ShowOperationPlan(r) => assert_eq!(r.command.program, "npm"),
        _ => panic!("a dry run plans"),
    }
    match choose_action(&cli(&["--dry-run", "x", "cowsay"]), &d, &no_deploy()).unwrap() {
        Action::ShowPlan(c) => assert_eq!(c.program, "npx"),
        _ => panic!("a dry run plans"),
    }
    match exec_action(&cli(&["--dry-run", "exec", "ls", "-l"]), "/w").unwrap() {
        Action::ShowPlan(c) => {
            assert_eq!(c.program, "ls");
            assert_eq!(c.args, vec!["-l".to_string()]);
            assert_eq!(c.working_directory, "/w");
        }
        _ => panic!("a dry run plans"),
    }
    let err = exec_action(&cli(&["exec"]), "/w").err().unwrap();
    assert_eq!(err.exit_code, 2);
    assert!(err.message.starts_with("pax exec requires a command\n\n"));
}

#[test]
fn drift_reports_runtime_unknown_only_when_live_with_containers() {
    let d = detect(&[("compose.yaml", "services:\n  web:\n")]);
    let live = build_drift(&d, true, "", &no_dirs());
    let unknown: Vec<&str> =
        live.issues.iter().filter(|i| i.status == "unknown").map(|i| i.subject.as_str()).collect();
    assert_eq!(unknown, vec!["."]);
    assert_eq!(live.status, "ambiguous");
    assert!(live.live);
    let quiet = build_drift(&d, false, "", &no_dirs());
    assert!(quiet.issues.iter().all(|i| i.status != "unknown"));
    assert_eq!(quiet.status, "match");
    let js = detect(&[("package.json", "{}"), ("package-lock.json", "{}")]);
    let o = build_drift(&js, true, "", &no_dirs());
    assert!(o.issues.iter().all(|i| i.status != "unknown"));
}

#[test]
fn drift_issues_are_ordered_by_subject_then_status() {
    let d = detect_with(
        dir("/r", &[("package.json", r#"{"dependencies":{"a":"1"}}"#), ("package-lock.json", "{}"), ("compose.yaml", "services:\n")]),
        vec![dir("/r/py", &[("uv.lock", ""), ("pdm.lock", "")])],
    );
    let o = build_drift(&d, true, "", &no_dirs());
    let keys: Vec<(String, String)> = o.issues.iter().map(|i| (i.subject.clone(), i.status.clone())).collect();
    let mut sorted = keys.clone();
    sorted.sort();
    assert_eq!(keys, sorted);
    assert_eq!(
        keys.iter().map(|(s, t)| (s.as_str(), t.as_str())).collect::<Vec<_>>(),
        vec![(".", "drift"), (".", "unknown"), ("./a", "drift"), ("py", "ambiguous")]
    );
    let text = render_drift(&o);
    assert!(text.starts_with("4 issues\n  .\n    node_modules/ absent\n  .\n    runtime not established\n"));
}

#[test]
fn graph_shows_every_declaration() {
    let d = detect(&[(
        "package.json",
        r#"{"dependencies":{"b":"1"},"optionalDependencies":{"o":"1"},"peerDependencies":{"p":"1"},"devDependencies":{"a":"1"}}"#,
    )]);
    let g = build_graph(&d);
    for (name, kind) in [("a", "development-dependency"), ("b", "runtime-dependency"), ("o", "optional-dependency"), ("p", "peer-dependency")] {
        assert!(g.nodes.iter().any(|n| n.id == name && n.kind == "dependency"));
        assert!(g.edges.iter().any(|e| e.from == "." && e.to == name && e.kind == kind));
    }
    assert!(g.nodes.iter().any(|n| n.id == "." && n.kind == "component"));
}

#[test]
fn dry_run_plans_keep_the_operation() {
    let d = detect(&[("package.json", r#"{"scripts":{"build":"tsc","dev":"vite"}}"#), ("package-lock.json", "{}")]);
    match choose_action(&cli(&["--dry-run", "build"]), &d, &no_deploy()).unwrap() {
        Action::ShowOperationPlan(r) => assert!(matches!(r.operation, pax::operations::Operation::Build)),
        _ => panic!("a dry run plans"),
    }
    match choose_action(&cli(&["--dry-run", "run", "dev"]), &d, &no_deploy()).unwrap() {
        Action::ShowOperationPlan(r) => match r.operation {
            pax::operations::Operation::Custom(name) => assert_eq!(name, "dev"),
            other => panic!("unexpected operation {other:?}"),
        },
        _ => panic!("a dry run plans"),
    }
}

#[test]
fn installed_layer_probes_each_ecosystems_directories() {
    assert_eq!(probed_dirs(Ecosystem::JavaScript), vec!["node_modules"]);
    assert_eq!(probed_dirs(Ecosystem::Rust), vec!["target"]);
    assert_eq!(probed_dirs(Ecosystem::Python), vec![".venv", "venv", ".env"]);
    assert!(probed_dirs(Ecosystem::Container).is_empty());
    let d = detect(&[("pyproject.toml", "[project]\n")]);
    let installed = InstalledDirs { found: vec![(".".to_string(), "venv".to_string())] };
    let r = build_reality(&d, false, &installed);
    assert_eq!(r.installed.observations[0].status, "present");
    assert_eq!(r.installed.observations[0].evidence, vec!["venv/".to_string()]);
}
