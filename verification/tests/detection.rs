use pax::components::{DirFacts, RequirementsDir};
use pax::detect::{detect_repository, ProjectFacts};
use pax::model::{PackageManager, RepositoryDetection};
use pax::output::{build_output, render_human};

/// A project whose root holds exactly these files with these texts.
fn project(files: &[(&str, &str)]) -> ProjectFacts {
    let names: Vec<String> = files.iter().map(|(n, _)| n.to_string()).collect();
    let texts: Vec<(String, String)> = files.iter().map(|(n, t)| (n.to_string(), t.to_string())).collect();
    let package_json = files
        .iter()
        .find(|(n, _)| *n == "package.json")
        .map(|(_, t)| Ok(t.to_string()));
    ProjectFacts {
        root: DirFacts {
            path: "/work/demo".to_string(),
            listed: true,
            entries: names.clone(),
            files: names,
            requirements: RequirementsDir::Absent,
            texts,
        },
        subdirs: Vec::new(),
        package_json,
        cargo_metadata: None,
        cargo_metadata_lock: false,
    }
}

fn detect(files: &[(&str, &str)]) -> RepositoryDetection {
    match detect_repository(&project(files)) {
        Ok(d) => d,
        Err(e) => panic!("detection failed: {}", e.message),
    }
}

#[test]
fn package_manager_field_wins_over_conflicting_lockfile() {
    let detection = detect(&[
        ("package.json", r#"{"name":"demo","packageManager":"pnpm@10.15.0"}"#),
        ("package-lock.json", "{}"),
    ]);
    let manager = detection.manager.unwrap();

    assert_eq!(manager.name, PackageManager::Pnpm);
    assert_eq!(manager.version.as_deref(), Some("10.15.0"));
    assert_eq!(manager.selected_by, "package.json packageManager");
}

#[test]
fn workspace_detection_uses_pnpm_workspace_file() {
    let detection = detect(&[
        ("package.json", r#"{"name":"demo"}"#),
        ("pnpm-workspace.yaml", "packages:\n  - packages/*\n"),
    ]);

    assert!(detection.workspace);
    assert_eq!(detection.workspace_source.as_deref(), Some("pnpm-workspace.yaml"));
}

#[test]
fn lockfile_precedence_is_deterministic_without_package_manager_field() {
    let detection = detect(&[
        ("package.json", r#"{"name":"demo"}"#),
        ("yarn.lock", ""),
        ("package-lock.json", "{}"),
    ]);
    let manager = detection.manager.unwrap();

    assert_eq!(manager.name, PackageManager::Yarn);
    assert_eq!(manager.lockfile.as_deref(), Some("yarn.lock"));
    assert_eq!(manager.selected_by, "lockfile precedence");
}

#[test]
fn info_json_includes_schema_and_manager() {
    let detection = detect(&[
        ("package.json", r#"{"name":"demo","packageManager":"bun@1.2.0","workspaces":["packages/*"]}"#),
        ("bun.lock", ""),
    ]);
    let output = build_output("info", detection, false);

    assert_eq!(output.schema_version, "1");
    assert_eq!(output.manager.name.as_deref(), Some("bun"));
    assert!(output.project.workspace);
    assert_eq!(output.manager.lockfile.as_deref(), Some("bun.lock"));
}

#[test]
fn info_json_reports_detected_manager() {
    let detection = detect(&[
        ("package.json", r#"{"name":"sample","packageManager":"pnpm@10.15.0"}"#),
        ("pnpm-lock.yaml", "lockfileVersion: '9.0'\n"),
    ]);
    let output = build_output("info", detection, false);

    assert_eq!(output.command, "info");
    assert_eq!(output.manager.name.as_deref(), Some("pnpm"));
    assert_eq!(output.manager.version.as_deref(), Some("10.15.0"));
}

#[test]
fn doctor_text_reports_expected_checks() {
    let detection = detect(&[
        ("package.json", r#"{"name":"sample","packageManager":"npm@10.9.0"}"#),
        ("package-lock.json", "{}"),
    ]);
    let text = render_human(&build_output("doctor", detection, true));

    assert!(text.contains("PAX Doctor"));
    assert!(text.contains("✓ package.json"));
    assert!(text.contains("✓ package/lock consistency"));
}

#[test]
fn inspection_commands_report_package_json_data_as_json() {
    let files: &[(&str, &str)] = &[
        (
            "package.json",
            r#"{
          "name": "sample",
          "dependencies": {"react": "^19.0.0"},
          "devDependencies": {"typescript": "^5.0.0"},
          "scripts": {"build": "tsc"},
          "workspaces": ["packages/*"]
        }"#,
        ),
        ("package-lock.json", "{}"),
    ];
    for command in ["deps", "scripts", "workspaces", "lock"] {
        let output = build_output(command, detect(files), false);
        assert_eq!(output.command, command);
        assert_eq!(output.project.name, "sample");
        match command {
            "deps" => {
                let deps = output.dependencies.unwrap();
                assert_eq!(deps.dependencies, vec![("react".to_string(), "^19.0.0".to_string())]);
            }
            "scripts" => {
                assert_eq!(output.scripts.unwrap(), vec![("build".to_string(), "tsc".to_string())]);
            }
            "workspaces" => assert_eq!(output.workspaces.unwrap().packages[0], "packages/*"),
            "lock" => assert_eq!(output.lock.unwrap().selected.as_deref(), Some("package-lock.json")),
            _ => unreachable!(),
        }
    }
}

#[test]
fn unreadable_package_json_is_refused() {
    let mut facts = project(&[("package.json", "")]);
    facts.package_json = Some(Err("permission denied".to_string()));
    let err = detect_repository(&facts).unwrap_err();
    assert_eq!(err.exit_code, 1);
    assert_eq!(err.message, "failed to read /work/demo/package.json: permission denied");
}

#[test]
fn invalid_package_json_is_refused() {
    let err = detect_repository(&project(&[("package.json", "{not json")])).unwrap_err();
    assert_eq!(err.exit_code, 1);
    assert!(err.message.starts_with("failed to parse /work/demo/package.json: "));
}

#[test]
fn project_name_falls_back_to_directory_name() {
    let detection = detect(&[("yarn.lock", "")]);
    assert_eq!(detection.project_name, "demo");
    assert!(!detection.package_json);
    assert!(detection.manager.is_some());
}

#[test]
fn package_json_workspaces_take_precedence_over_pnpm_file() {
    let detection = detect(&[
        ("package.json", r#"{"name":"demo","workspaces":{"packages":["apps/*"]}}"#),
        ("pnpm-workspace.yaml", "packages:\n  - packages/*\n"),
    ]);
    assert_eq!(detection.workspace_source.as_deref(), Some("package.json#workspaces"));
    assert_eq!(detection.workspace_packages, vec!["apps/*".to_string()]);
}

#[test]
fn pnpm_workspace_globs_are_read_when_package_json_lists_none() {
    let detection = detect(&[
        ("package.json", r#"{"name":"demo"}"#),
        ("pnpm-workspace.yaml", "packages:\n  - packages/*\n  -   apps/* \n  -\n"),
    ]);
    assert_eq!(detection.workspace_packages, vec!["packages/*".to_string(), "apps/*".to_string()]);
}

#[test]
fn cargo_manifest_alone_selects_cargo() {
    let detection = detect(&[
        ("Cargo.toml", "[package]\nname = \"tool\"\n\n[dependencies]\nserde = \"1\"\n"),
        ("Cargo.lock", ""),
    ]);
    assert_eq!(detection.selection_notes, vec!["Cargo.toml selects Cargo".to_string()]);
    assert_eq!(detection.project_name, "tool");
    let cargo = detection.cargo.unwrap();
    assert_eq!(cargo.source, "Cargo.toml fallback");
    assert_eq!(cargo.lockfile.as_deref(), Some("Cargo.lock"));
    assert_eq!(cargo.workspace_members, vec!["tool".to_string()]);
    assert_eq!(detection.components.len(), 1);
    assert_eq!(detection.components[0].workspace_packages, vec!["tool".to_string()]);
    assert_eq!(detection.native_dependencies.len(), 1);
    assert_eq!(detection.native_dependencies[0].name, "serde");
    assert_eq!(detection.native_dependencies[0].specifier, "\"1\"");
    assert_eq!(detection.native_dependencies[0].kind, "dependency");
}

#[test]
fn cargo_metadata_sets_the_root_crate_members() {
    let mut facts = project(&[
        ("Cargo.toml", "[workspace]\nmembers = [\"ignored\"]\n[dependencies]\nlocal = \"1\"\n"),
        ("package.json", r#"{"name":"web"}"#),
    ]);
    facts.cargo_metadata = Some(
        br#"{"workspace_root":"/work/demo","workspace_members":["core 0.1.0"],
             "packages":[{"name":"core","id":"core 0.1.0","manifest_path":"/work/demo/core/Cargo.toml",
                          "dependencies":[{"name":"anyhow","req":"^1","kind":null}]}]}"#
            .to_vec(),
    );
    facts.cargo_metadata_lock = true;
    let detection = detect_repository(&facts).unwrap();
    let cargo = detection.cargo.as_ref().unwrap();
    assert_eq!(cargo.workspace_members, vec!["core".to_string()]);
    assert!(cargo.workspace);
    let rust = detection
        .components
        .iter()
        .find(|c| c.path == "." && c.ecosystem == pax::model::Ecosystem::Rust)
        .unwrap();
    assert_eq!(rust.workspace_packages, vec!["core".to_string()]);
    assert_eq!(rust.lockfiles, vec!["Cargo.lock".to_string()]);
    let natives: Vec<&str> = detection.native_dependencies.iter().map(|d| d.name.as_str()).collect();
    assert_eq!(natives, vec!["anyhow"]);
    assert_eq!(detection.project_name, "web");
    assert_ne!(detection.selection_notes, vec!["Cargo.toml selects Cargo".to_string()]);
}

#[test]
fn selection_notes_explain_the_choice() {
    let field = detect(&[
        ("package.json", r#"{"packageManager":"yarn@4.1.0"}"#),
        ("bun.lock", ""),
        ("yarn.lock", ""),
    ]);
    assert_eq!(
        field.selection_notes,
        vec![
            "Selected yarn from package.json packageManager field.".to_string(),
            "Observed multiple lockfiles (bun.lock, yarn.lock); packageManager field takes precedence.".to_string(),
        ]
    );
    assert_eq!(field.manager.unwrap().lockfile.as_deref(), Some("yarn.lock"));

    let unknown = detect(&[("package.json", r#"{"packageManager":"deno@2"}"#), ("pnpm-lock.yaml", "")]);
    assert_eq!(
        unknown.selection_notes,
        vec![
            "Ignored unrecognized packageManager field and fell back to lockfile detection.".to_string(),
            "Selected pnpm from pnpm-lock.yaml.".to_string(),
        ]
    );

    let precedence = detect(&[("package.json", "{}"), ("bun.lockb", ""), ("package-lock.json", "{}")]);
    assert_eq!(
        precedence.selection_notes,
        vec!["Selected bun using deterministic lockfile precedence over bun.lockb, package-lock.json.".to_string()]
    );

    let nothing = detect(&[("package.json", "{}")]);
    assert!(nothing.manager.is_none());
    assert_eq!(nothing.selection_notes, vec!["No supported package manager signals detected.".to_string()]);
}

#[test]
fn components_below_the_root_are_found() {
    let mut facts = project(&[("package.json", r#"{"name":"mono"}"#)]);
    let names = vec!["pyproject.toml".to_string(), "uv.lock".to_string()];
    facts.subdirs.push(DirFacts {
        path: "/work/demo/services/api".to_string(),
        listed: true,
        entries: names.clone(),
        files: names,
        requirements: RequirementsDir::Absent,
        texts: vec![("pyproject.toml".to_string(), "[project]\nfastapi = \"0.110\"\n".to_string())],
    });
    let detection = detect_repository(&facts).unwrap();
    let paths: Vec<&str> = detection.components.iter().map(|c| c.path.as_str()).collect();
    assert_eq!(paths, vec![".", "services/api"]);
    assert_eq!(detection.components[1].tool.as_deref(), Some("uv"));
    assert_eq!(detection.native_dependencies.len(), 1);
    assert_eq!(detection.native_dependencies[0].name, "fastapi");
    assert_eq!(detection.native_dependencies[0].native_kind, "dependency-group");
}

#[test]
fn human_report_opens_with_heading_and_lists_diagnostics_in_order() {
    let detection = detect(&[
        ("package.json", r#"{"name":"sample","packageManager":"npm@10.9.0"}"#),
        ("package-lock.json", "{}"),
    ]);
    let output = build_output("doctor", detection, false);
    let text = render_human(&output);
    assert!(text.starts_with("PAX Doctor\n"));
    let expected: Vec<String> = output
        .diagnostics
        .iter()
        .map(|d| format!("{} {} {}", d.level.symbol(), d.check, d.message))
        .collect();
    assert!(!expected.is_empty());
    let lines: Vec<&str> = text.lines().collect();
    let start = lines.iter().position(|l| *l == expected[0]).unwrap();
    for (i, line) in expected.iter().enumerate() {
        assert_eq!(lines[start + i], line);
    }
    let info = render_human(&build_output("info", detect(&[("package.json", "{}")]), false));
    assert!(info.starts_with("PAX Info\n"));
}
