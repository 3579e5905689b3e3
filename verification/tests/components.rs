use pax::cargo::{cargo_from_manifest, cargo_lock_probe, detect_cargo};
use pax::components::{detect_container_component, detect_components, detect_python_component, detect_rust_component, DirFacts, RequirementsDir};
use pax::manifests::{parse_toml_list, pnpm_workspace_packages, read_package_json};
use pax::model::Ecosystem;
use pax::paths::{descend_into, dirs_to_enter, display_path, relative_dir};

fn dir(path: &str, files: &[(&str, &str)]) -> DirFacts {
    let names: Vec<String> = files.iter().map(|(n, _)| n.to_string()).collect();
    DirFacts {
        path: path.to_string(),
        listed: true,
        entries: names.clone(),
        files: names,
        requirements: RequirementsDir::Absent,
        texts: files.iter().map(|(n, t)| (n.to_string(), t.to_string())).collect(),
    }
}

fn strings(list: &[&str]) -> Vec<String> {
    list.iter().map(|s| s.to_string()).collect()
}

#[test]
fn toml_lists_are_read_from_their_section() {
    let text = "[package]\nmembers = [\"no\"]\n[workspace]\nmembers = [\"crates/a\", 'crates/b', \"\"]\n";
    assert_eq!(parse_toml_list(text, "[workspace]", "members"), strings(&["crates/a", "crates/b"]));
    assert_eq!(parse_toml_list(text, "workspace", "members"), strings(&["crates/a", "crates/b"]));
    assert_eq!(parse_toml_list(text, "[workspace]", "exclude"), Vec::<String>::new());
}

#[test]
fn pnpm_globs() {
    assert_eq!(pnpm_workspace_packages("packages:\n  - a/*\n  - 'b'\n# - c\n"), strings(&["a/*", "'b'"]));
}

#[test]
fn package_json_maps_are_sorted_and_keep_strings_only() {
    let d = read_package_json(
        "/x/package.json",
        r#"{"name":"n","dependencies":{"zod":"3","react":"19","bad":1},"workspaces":["a",2,"b"]}"#,
    )
    .unwrap();
    assert_eq!(d.name.as_deref(), Some("n"));
    assert!(d.has_workspaces);
    assert_eq!(d.workspace_packages, strings(&["a", "b"]));
    assert_eq!(
        d.dependencies,
        vec![("react".to_string(), "19".to_string()), ("zod".to_string(), "3".to_string())]
    );
    assert!(d.scripts.is_empty());
    let e = read_package_json("/x/package.json", "[1,").unwrap_err();
    assert_eq!(e.exit_code, 1);
    assert!(e.message.starts_with("failed to parse /x/package.json: "));
}

#[test]
fn paths_are_shown_relative_to_the_root() {
    assert_eq!(display_path("/r/crates/a/Cargo.toml", "/r"), "crates/a/Cargo.toml");
    assert_eq!(display_path("/elsewhere/Cargo.toml", "/r"), "/elsewhere/Cargo.toml");
    assert_eq!(display_path("/r", "/r"), "/r");
    assert_eq!(relative_dir("/r", "/r"), ".");
    assert_eq!(relative_dir("/r/web", "/r"), "web");
    assert!(descend_into("src"));
    assert!(!descend_into(".git"));
    assert!(!descend_into("node_modules"));
    assert!(!descend_into("target"));
}

#[test]
fn python_component_reads_pyproject_and_requirements() {
    let mut d = dir(
        "/r",
        &[
            ("pyproject.toml", "[project]\nrequests = \">=2\"\n[dev]\npytest = '8'\n"),
            ("requirements.txt", "flask==3.0 ; python_version > '3'\n# note\n"),
            ("uv.lock", ""),
        ],
    );
    d.requirements = RequirementsDir::Absent;
    let (c, deps) = detect_python_component(&d, ".");
    let c = c.unwrap();
    assert_eq!(c.tool.as_deref(), Some("uv"));
    assert_eq!(c.manifests, strings(&["pyproject.toml", "requirements.txt"]));
    assert_eq!(c.lockfiles, strings(&["uv.lock"]));
    assert_eq!(c.dependency_sources[1].kind, "requirements");
    let names: Vec<(&str, &str, &str)> =
        deps.iter().map(|x| (x.name.as_str(), x.specifier.as_str(), x.kind.as_str())).collect();
    // each pyproject line is followed by the requirements' dependencies again
    assert_eq!(
        names,
        vec![
            ("flask", "==3.0 ; python_version > '3'", "dependency"),
            ("requests", ">=2", "dependency"),
            ("flask", "==3.0 ; python_version > '3'", "dependency"),
            ("flask", "==3.0 ; python_version > '3'", "dependency"),
            ("pytest", "8", "development"),
            ("flask", "==3.0 ; python_version > '3'", "dependency"),
        ]
    );
    let (none, no_deps) = detect_python_component(&dir("/r", &[("README.md", "")]), ".");
    assert!(none.is_none());
    assert!(no_deps.is_empty());
}

#[test]
fn rust_component_reads_dependency_tables() {
    let d = dir(
        "/r",
        &[(
            "Cargo.toml",
            "[package]\nname = \"t\"\n[dependencies]\nserde = { version = \"1\" }\n[dev-dependencies]\ninsta = \"1\"\n[build-dependencies]\ncc = \"1\"\n[workspace]\nmembers = [\"a\"]\n",
        )],
    );
    let (c, deps) = detect_rust_component(&d, "tools");
    let c = c.unwrap();
    assert_eq!(c.path, "tools");
    assert_eq!(c.tool.as_deref(), Some("cargo"));
    assert_eq!(c.workspace_packages, strings(&["a"]));
    let kinds: Vec<(&str, &str)> = deps.iter().map(|x| (x.name.as_str(), x.kind.as_str())).collect();
    assert_eq!(kinds, vec![("serde", "dependency"), ("insta", "development"), ("cc", "build")]);
    assert_eq!(deps[0].specifier, "{ version = \"1\" }");
}

#[test]
fn container_component_collects_directives_and_services() {
    let d = dir(
        "/r",
        &[
            ("Dockerfile", "FROM rust:1\nworkdir /app\nRUN make\nEXPOSE 80\nexpose 443\nCMD\n"),
            ("compose.yaml", "version: '3'\nservices:\n  web:\n    image: nginx:1\n  db:\n"),
        ],
    );
    let (c, info) = detect_container_component(&d, ".").unwrap();
    assert_eq!(c.ecosystem, Ecosystem::Container);
    assert_eq!(c.manifests, strings(&["Dockerfile", "compose.yaml"]));
    assert_eq!(info.services, strings(&["web", "db"]));
    assert_eq!(info.images, strings(&["nginx:1"]));
    assert_eq!(
        info.directives,
        vec![
            ("EXPOSE".to_string(), strings(&["80", "443"])),
            ("FROM".to_string(), strings(&["rust:1"])),
            ("WORKDIR".to_string(), strings(&["/app"])),
        ]
    );
    let mut unlisted = d;
    unlisted.listed = false;
    assert!(detect_container_component(&unlisted, ".").is_none());
}

#[test]
fn components_are_ordered_by_path_then_ecosystem() {
    let root = dir("/r", &[("package.json", r#"{"packageManager":"yarn@4"}"#), ("Dockerfile", "FROM x\n")]);
    let web = dir("/r/web", &[("Cargo.toml", "[package]\nname = \"w\"\n"), ("pyproject.toml", "")]);
    let (cs, _, container) = detect_components(&root, &vec![web]);
    let order: Vec<(&str, Ecosystem)> = cs.iter().map(|c| (c.path.as_str(), c.ecosystem)).collect();
    assert_eq!(
        order,
        vec![
            (".", Ecosystem::Container),
            (".", Ecosystem::JavaScript),
            ("web", Ecosystem::Python),
            ("web", Ecosystem::Rust),
        ]
    );
    assert_eq!(cs[1].tool.as_deref(), Some("yarn"));
    assert!(container.is_some());
}

#[test]
fn cargo_metadata_is_the_authority() {
    let stdout = br#"{
        "workspace_root": "/r",
        "workspace_members": ["b 0.1.0", "a 0.1.0"],
        "packages": [
            {"name": "b", "id": "b 0.1.0", "manifest_path": "/r/b/Cargo.toml",
             "dependencies": [{"name": "serde", "req": "^1", "kind": null},
                              {"name": "serde", "req": "^1", "kind": null},
                              {"name": "cc", "req": "^1", "kind": "build", "optional": true}]},
            {"name": "a", "id": "a 0.1.0", "manifest_path": "/r/a/Cargo.toml",
             "dependencies": [{"name": "insta", "kind": "dev"}]},
            {"name": "ext", "id": "ext 1.0.0", "manifest_path": "/x/Cargo.toml"}
        ]
    }"#;
    let root = dir("/r", &[("Cargo.toml", "[workspace]\n")]);
    let c = detect_cargo(&root, Some(stdout.as_slice()), true).unwrap();
    assert!(c.workspace);
    assert_eq!(c.source, "cargo metadata --no-deps --offline");
    assert_eq!(c.workspace_members, strings(&["a", "b"]));
    let pkgs: Vec<(&str, &str, bool)> =
        c.packages.iter().map(|p| (p.name.as_str(), p.manifest_path.as_str(), p.workspace_member)).collect();
    assert_eq!(pkgs, vec![("a", "a/Cargo.toml", true), ("b", "b/Cargo.toml", true), ("ext", "/x/Cargo.toml", false)]);
    let deps: Vec<(&str, &str, &str, &str)> = c
        .dependencies
        .iter()
        .map(|d| (d.name.as_str(), d.specifier.as_str(), d.kind.as_str(), d.native_kind.as_str()))
        .collect();
    assert_eq!(
        deps,
        vec![
            ("cc", "^1", "build", "optional"),
            ("insta", "*", "development", "development"),
            ("serde", "^1", "dependency", "dependency"),
        ]
    );
    assert_eq!(c.lockfile.as_deref(), Some("Cargo.lock"));
    assert_eq!(c.workspace_root, "/r");
    assert_eq!(cargo_lock_probe(stdout, "/r").as_deref(), Some("/r/Cargo.lock"));
    assert!(cargo_lock_probe(b"not json", "/r").is_none());
}

#[test]
fn cargo_falls_back_to_the_manifest() {
    let text = "[package]\nname = 'solo'\n[workspace]\nmembers = [\"x\"]\n";
    let c = cargo_from_manifest(text, false);
    assert_eq!(c.source, "Cargo.toml fallback");
    assert!(c.workspace);
    assert_eq!(c.workspace_members, strings(&["solo", "x"]));
    assert!(c.lockfile.is_none());
    let root = dir("/r", &[("Cargo.toml", text), ("Cargo.lock", "")]);
    let d = detect_cargo(&root, Some(b"garbage".as_slice()), true).unwrap();
    assert_eq!(d.source, "Cargo.toml fallback");
    assert_eq!(d.lockfile.as_deref(), Some("Cargo.lock"));
    assert!(detect_cargo(&dir("/r", &[]), None, false).is_none());
}

#[test]
fn package_json_parse_error_carries_the_parser_message() {
    let text = "{\"name\": }";
    let parser = serde_json::from_str::<serde_json::Value>(text).unwrap_err().to_string();
    let e = read_package_json("/x/package.json", text).unwrap_err();
    assert_eq!(e.exit_code, 1);
    assert_eq!(e.message, format!("failed to parse /x/package.json: {parser}"));
}

#[test]
fn requirements_directory_alone_makes_a_python_component() {
    let mut d = dir("/r", &[]);
    d.requirements = RequirementsDir::Unlisted;
    let (c, deps) = detect_python_component(&d, ".");
    let c = c.unwrap();
    assert!(c.manifests.is_empty());
    assert_eq!(c.tool.as_deref(), Some("pip"));
    assert!(deps.is_empty());
    d.requirements = RequirementsDir::Absent;
    assert!(detect_python_component(&d, ".").0.is_none());
}

#[test]
fn listed_requirements_files_are_manifests() {
    let mut d = dir("/r", &[("pyproject.toml", "[project]\n"), ("requirements/base.txt", "flask==3\n")]);
    d.files = strings(&["pyproject.toml"]);
    d.requirements = RequirementsDir::Listed(strings(&["notes.md", "base.txt"]));
    let (c, deps) = detect_python_component(&d, ".");
    let c = c.unwrap();
    assert_eq!(c.manifests, strings(&["pyproject.toml", "requirements/base.txt"]));
    assert_eq!(deps.len(), 1);
    assert_eq!(deps[0].name, "flask");
    assert_eq!(deps[0].specifier, "==3");
}

#[test]
fn walk_enters_listed_subdirectories_in_order() {
    let entries: Vec<(String, bool)> = [
        ("src", true),
        (".git", true),
        ("README.md", false),
        ("node_modules", true),
        ("apps", true),
        ("target", true),
        ("docs", false),
    ]
    .iter()
    .map(|(n, d)| (n.to_string(), *d))
    .collect();
    assert_eq!(dirs_to_enter(&entries), strings(&["src", "apps"]));
}
