use std::fmt;
use std::path::{Path, PathBuf};

use imhottep::storage::{env_dir_with_base, BaseDir, PathPlan};
use imhottep::uv_client::{
    add_dependency, list_dependencies, reinit_environment, remove_dependency, run_code, run_uv,
    start_failed, UvError, UvOutcome,
};

/// An error as a program around the library reports it.
#[derive(Debug)]
struct Reported(UvError);

impl fmt::Display for Reported {
    fn fmt(&self, f: &mut fmt::Formatter<'_>) -> fmt::Result {
        f.write_str(&self.0.to_string())
    }
}

impl std::error::Error for Reported {}

/// Follows a path from where it starts.
fn follow(plan: &PathPlan, start: &Path) -> PathBuf {
    let mut path = start.to_path_buf();
    for part in &plan.parts {
        path.push(part);
    }
    path
}

#[test]
fn uv_not_found_display_mentions_installation() {
    let msg = UvError::UvNotFound.to_string();
    assert!(msg.contains("uv is not installed"), "got: {msg}");
    assert!(msg.contains("https://"), "got: {msg}");
}

#[test]
fn command_failed_display_includes_message() {
    let msg = UvError::CommandFailed("exit code 1".to_string()).to_string();
    assert!(msg.contains("exit code 1"), "got: {msg}");
}

#[test]
fn uv_error_implements_std_error() {
    fn accepts_error(_: &dyn std::error::Error) {}
    accepts_error(&Reported(UvError::UvNotFound));
    accepts_error(&Reported(UvError::CommandFailed("x".into())));
}

#[test]
fn env_dir_uses_xdg_config_home_when_set() {
    let tmp = tempfile::tempdir().unwrap();
    let plan = env_dir_with_base(true, false, false);
    assert_eq!(plan.base, BaseDir::Given);
    assert_eq!(follow(&plan, tmp.path()), tmp.path().join("imhottep"));
}

#[test]
fn env_dir_falls_back_to_home_dot_config() {
    let tmp = tempfile::tempdir().unwrap();
    let plan = env_dir_with_base(false, false, true);
    assert_eq!(plan.base, BaseDir::Home);
    assert_eq!(
        follow(&plan, tmp.path()),
        tmp.path().join(".config").join("imhottep")
    );
}

#[test]
fn add_dependency_returns_uv_not_found() {
    assert_eq!(
        add_dependency("requests", "/base/imhottep"),
        vec!["pip", "install", "requests", "--project", "/base/imhottep"]
    );
    let err = run_uv(&UvOutcome::NotFound);
    assert!(
        matches!(err, Err(UvError::UvNotFound)),
        "expected UvNotFound, got: {err:?}"
    );
}

#[test]
fn remove_dependency_returns_uv_not_found() {
    assert_eq!(
        remove_dependency("requests", "/base/imhottep"),
        vec!["pip", "uninstall", "requests", "--project", "/base/imhottep"]
    );
    let err = run_uv(&UvOutcome::NotFound);
    assert!(
        matches!(err, Err(UvError::UvNotFound)),
        "expected UvNotFound, got: {err:?}"
    );
}

#[test]
fn list_dependencies_returns_uv_not_found() {
    assert_eq!(
        list_dependencies("/base/imhottep"),
        vec!["pip", "list", "--project", "/base/imhottep"]
    );
    let err = run_uv(&UvOutcome::NotFound);
    assert!(
        matches!(err, Err(UvError::UvNotFound)),
        "expected UvNotFound, got: {err:?}"
    );
}

#[test]
fn reinit_environment_returns_uv_not_found() {
    assert_eq!(
        reinit_environment("/base/imhottep", Ok(())).unwrap(),
        vec!["venv", "--project", "/base/imhottep"]
    );
    let err = run_uv(&UvOutcome::NotFound);
    assert!(
        matches!(err, Err(UvError::UvNotFound)),
        "expected UvNotFound, got: {err:?}"
    );
}

#[test]
fn run_code_returns_uv_not_found() {
    assert_eq!(
        run_code("print(1)", "/base/imhottep"),
        vec!["run", "python", "-c", "print(1)", "--project", "/base/imhottep"]
    );
    let err = run_uv(&UvOutcome::NotFound);
    assert!(
        matches!(err, Err(UvError::UvNotFound)),
        "expected UvNotFound, got: {err:?}"
    );
}

#[test]
fn failed_removal_of_the_environment_is_reported() {
    let err = reinit_environment("/base/imhottep", Err("denied".to_string()));
    assert_eq!(
        err,
        Err(UvError::CommandFailed("Failed to remove .venv: denied".to_string()))
    );
}

#[test]
fn output_of_a_run_is_trimmed() {
    let run = |success, stdout: &str, stderr: &str| {
        run_uv(&UvOutcome::Finished {
            success,
            stdout: stdout.as_bytes().to_vec(),
            stderr: stderr.as_bytes().to_vec(),
        })
    };
    assert_eq!(run(true, "  requests 2.0\n", "noise"), Ok("requests 2.0".to_string()));
    assert_eq!(
        run(false, "out", " no such package \n"),
        Err(UvError::CommandFailed("no such package".to_string()))
    );
    assert_eq!(
        run(false, " said here\n", "  "),
        Err(UvError::CommandFailed("said here".to_string()))
    );
    assert_eq!(
        run_uv(&UvOutcome::NotRun("broken pipe".to_string())),
        Err(UvError::CommandFailed("broken pipe".to_string()))
    );
}

#[test]
fn only_an_absent_binary_is_told_as_such() {
    let told = |not_found, dir_exists| {
        run_uv(&start_failed(not_found, dir_exists, "No such file".to_string()))
    };
    assert_eq!(told(true, true), Err(UvError::UvNotFound));
    for (not_found, dir_exists) in [(true, false), (false, true), (false, false)] {
        assert_eq!(
            told(not_found, dir_exists),
            Err(UvError::CommandFailed("No such file".to_string()))
        );
    }
}
