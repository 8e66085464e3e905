//! Framework and project-name detection.

use localdock::detector::{detect_framework, detect_project_name, ProjectDir};

fn dir_with_manifest(json: &str) -> ProjectDir {
    ProjectDir {
        path: "/tmp/project".to_string(),
        manifest_text: Some(json.to_string()),
        has_requirements_txt: false,
        has_pyproject_toml: false,
        has_manage_py: false,
        has_go_mod: false,
        has_cargo_toml: false,
    }
}

fn bare_dir(path: &str) -> ProjectDir {
    ProjectDir {
        path: path.to_string(),
        manifest_text: None,
        has_requirements_txt: false,
        has_pyproject_toml: false,
        has_manage_py: false,
        has_go_mod: false,
        has_cargo_toml: false,
    }
}

#[test]
fn test_detect_nextjs_in_dependencies() {
    let dir = dir_with_manifest(
        r#"{
            "name": "my-app",
            "dependencies": { "next": "14.0.0", "react": "18.0.0" }
        }"#,
    );
    assert_eq!(detect_framework(&dir), "Next.js");
}

#[test]
fn test_detect_nextjs_in_devdependencies() {
    let dir = dir_with_manifest(
        r#"{
            "name": "my-app",
            "devDependencies": { "next": "14.0.0" }
        }"#,
    );
    assert_eq!(detect_framework(&dir), "Next.js");
}

#[test]
fn test_no_false_positive_on_description() {
    let dir = dir_with_manifest(
        r#"{
            "name": "my-tool",
            "description": "next generation tool for astro navigation",
            "dependencies": { "express": "4.18.0" }
        }"#,
    );
    assert_eq!(detect_framework(&dir), "Express");
}

#[test]
fn test_no_false_positive_description_only() {
    let dir = dir_with_manifest(
        r#"{
            "name": "my-tool",
            "description": "the next best thing with vite speed"
        }"#,
    );
    assert_eq!(detect_framework(&dir), "Node.js");
}

#[test]
fn test_detect_vite_main_package() {
    let dir = dir_with_manifest(
        r#"{
            "name": "vite-app",
            "devDependencies": { "vite": "5.0.0" }
        }"#,
    );
    assert_eq!(detect_framework(&dir), "Vite");
}

#[test]
fn test_detect_vite_plugin() {
    let dir = dir_with_manifest(
        r#"{
            "name": "react-app",
            "devDependencies": { "@vitejs/plugin-react": "4.0.0" }
        }"#,
    );
    assert_eq!(detect_framework(&dir), "Vite");
}

#[test]
fn test_detect_svelte() {
    let dir = dir_with_manifest(
        r#"{
            "name": "svelte-app",
            "dependencies": { "svelte": "4.0.0" }
        }"#,
    );
    assert_eq!(detect_framework(&dir), "Svelte");
}

#[test]
fn test_detect_express() {
    let dir = dir_with_manifest(
        r#"{
            "name": "api",
            "dependencies": { "express": "4.18.0" }
        }"#,
    );
    assert_eq!(detect_framework(&dir), "Express");
}

#[test]
fn test_fallback_nodejs() {
    let dir = dir_with_manifest(
        r#"{
            "name": "plain-node",
            "dependencies": { "lodash": "4.17.0" }
        }"#,
    );
    assert_eq!(detect_framework(&dir), "Node.js");
}

#[test]
fn test_detect_project_name() {
    let dir = dir_with_manifest(r#"{ "name": "cool-project" }"#);
    assert_eq!(detect_project_name(&dir), "cool-project");
}

#[test]
fn test_project_name_fallback_to_folder() {
    let dir = bare_dir("/tmp/scratch-f81a2c");
    let name = detect_project_name(&dir);
    // the folder's own name, not the "unknown" placeholder
    assert_ne!(name, "unknown");
}

#[test]
fn test_python_django() {
    // requirements.txt holding "django==4.0" plus a manage.py entry point
    let mut dir = bare_dir("/tmp/webapp");
    dir.has_requirements_txt = true;
    dir.has_manage_py = true;
    assert_eq!(detect_framework(&dir), "Django");
}

#[test]
fn test_rust_project() {
    // a Cargo.toml starting with [package]
    let mut dir = bare_dir("/tmp/crate-dir");
    dir.has_cargo_toml = true;
    assert_eq!(detect_framework(&dir), "Rust");
}

#[test]
fn test_go_project() {
    // a go.mod declaring "module example"
    let mut dir = bare_dir("/tmp/gosrv");
    dir.has_go_mod = true;
    assert_eq!(detect_framework(&dir), "Go");
}

#[test]
fn test_unknown_project() {
    let dir = bare_dir("/tmp/none-of-the-above");
    assert_eq!(detect_framework(&dir), "Unknown");
}

#[test]
fn test_project_name_from_folder_path() {
    let dir = bare_dir("C:\\Users\\dev\\projects\\shop-frontend");
    assert_eq!(detect_project_name(&dir), "shop-frontend");
}

#[test]
fn test_project_name_ignores_trailing_separator() {
    let dir = bare_dir("C:\\Users\\dev\\projects\\shop-frontend\\");
    assert_eq!(detect_project_name(&dir), "shop-frontend");
}

#[test]
fn test_pyproject_without_manage_py_is_python() {
    let mut dir = bare_dir("/tmp/pytool");
    dir.has_pyproject_toml = true;
    assert_eq!(detect_framework(&dir), "Python");
}

#[test]
fn test_unparsable_manifest_falls_back_to_markers() {
    let mut dir = dir_with_manifest("{ not json at all");
    dir.has_go_mod = true;
    assert_eq!(detect_framework(&dir), "Go");
}

#[test]
fn test_framework_priority_next_over_express() {
    let dir = dir_with_manifest(
        r#"{
            "dependencies": { "express": "4.18.0", "next": "14.0.0" }
        }"#,
    );
    assert_eq!(detect_framework(&dir), "Next.js");
}
