//! Running `uv`, which keeps the Python environment of the application: what
//! it is called with, and what is made of its answer.

use vstd::prelude::*;

use crate::http_client::joined;
use crate::storage::{env_dir_with_base, env_path, PathPlan};
use crate::text::{chars_of, from_utf8_lossy, trim, trimmed, utf8_lossy, views};

verus! {

// ── Errors ────────────────────────────────────────────────────────────────────

/// Errors that can occur when interacting with `uv`.
#[derive(Debug, PartialEq, Eq)]
pub enum UvError {
    /// The `uv` binary was not found on the system PATH.
    UvNotFound,
    /// A `uv` command exited with a non-zero status or could not be spawned for
    /// any reason other than the binary being absent.
    CommandFailed(String),
}

/// What an error says.
#[verifier::ext_equal]
pub ghost enum UvErrorModel {
    UvNotFound,
    CommandFailed(Seq<char>),
}

impl View for UvError {
    type V = UvErrorModel;

    open spec fn view(&self) -> UvErrorModel {
        match self {
            UvError::UvNotFound => UvErrorModel::UvNotFound,
            UvError::CommandFailed(msg) => UvErrorModel::CommandFailed(msg@),
        }
    }
}

/// How an error is shown to the user.
pub open spec fn uv_error_text(e: UvErrorModel) -> Seq<char> {
    match e {
        UvErrorModel::UvNotFound => "uv is not installed or not on PATH. Please install uv (https://docs.astral.sh/uv/getting-started/installation/) to use this feature."@,
        UvErrorModel::CommandFailed(msg) => "uv command failed: "@ + msg,
    }
}

impl UvError {
    /// How the error is shown to the user.
    pub fn to_string(&self) -> (r: String)
        ensures
            r@ == uv_error_text(self@),
    {
        match self {
            UvError::UvNotFound => "uv is not installed or not on PATH. Please install uv (https://docs.astral.sh/uv/getting-started/installation/) to use this feature.".to_owned(),
            UvError::CommandFailed(msg) => joined("uv command failed: ", msg.as_str()),
        }
    }
}

// ── Environment directory ─────────────────────────────────────────────────────

/// The directory of the application, given which of the variables that can
/// name it are set.
pub fn env_dir(xdg: bool, home: bool) -> (r: PathPlan)
    ensures
        r@ == env_path(false, xdg, home),
{
    env_dir_with_base(false, xdg, home)
}

// ── Runs ──────────────────────────────────────────────────────────────────────

/// What came of one run of `uv`.
pub enum UvOutcome {
    /// There is no such binary.
    NotFound,
    /// The process could not be started, or not be waited for.
    NotRun(String),
    /// The process ended.
    Finished { success: bool, stdout: Vec<u8>, stderr: Vec<u8> },
}

/// What came of a process that could not be started: there is no such binary
/// where nothing of its name was found although the directory to run it in is
/// there, and any other reason is told in its own words.
pub fn start_failed(not_found: bool, dir_exists: bool, text: String) -> (r: UvOutcome)
    ensures
        r is NotFound == (not_found && dir_exists),
        !(not_found && dir_exists) ==> r == UvOutcome::NotRun(text),
{
    if not_found && dir_exists {
        UvOutcome::NotFound
    } else {
        UvOutcome::NotRun(text)
    }
}

/// The text of some output.
pub open spec fn output_text(bytes: Seq<u8>) -> Seq<char> {
    trimmed(utf8_lossy(bytes))
}

/// What a run gives: the trimmed output, or an error with what was said on
/// stderr, or else on stdout.
pub open spec fn run_result(outcome: UvOutcome) -> Result<Seq<char>, UvErrorModel> {
    match outcome {
        UvOutcome::NotFound => Err(UvErrorModel::UvNotFound),
        UvOutcome::NotRun(e) => Err(UvErrorModel::CommandFailed(e@)),
        UvOutcome::Finished { success, stdout, stderr } => if success {
            Ok(output_text(stdout@))
        } else if output_text(stderr@).len() == 0 {
            Err(UvErrorModel::CommandFailed(output_text(stdout@)))
        } else {
            Err(UvErrorModel::CommandFailed(output_text(stderr@)))
        },
    }
}

/// What a result says.
pub open spec fn result_text(r: Result<String, UvError>) -> Result<Seq<char>, UvErrorModel> {
    match r {
        Ok(text) => Ok(text@),
        Err(e) => Err(e@),
    }
}

/// Makes a result of what came of a run.
pub fn run_uv(outcome: &UvOutcome) -> (r: Result<String, UvError>)
    ensures
        result_text(r) == run_result(*outcome),
{
    match outcome {
        UvOutcome::NotFound => Err(UvError::UvNotFound),
        UvOutcome::NotRun(e) => Err(UvError::CommandFailed(e.clone())),
        UvOutcome::Finished { success, stdout, stderr } => {
            let out = trim(from_utf8_lossy(stdout.as_slice()).as_str());
            if *success {
                return Ok(out);
            }
            let err = trim(from_utf8_lossy(stderr.as_slice()).as_str());
            if chars_of(err.as_str()).len() == 0 {
                Err(UvError::CommandFailed(out))
            } else {
                Err(UvError::CommandFailed(err))
            }
        },
    }
}

// ── Command lines ─────────────────────────────────────────────────────────────

/// The words `--project` and the directory, behind others.
pub open spec fn in_project(words: Seq<Seq<char>>, dir: Seq<char>) -> Seq<Seq<char>> {
    words.push("--project"@).push(dir)
}

/// Adds a word to a command line.
fn add_word(args: &mut Vec<String>, word: &str)
    ensures
        views(final(args)@) == views(old(args)@).push(word@),
{
    let text = word.to_owned();
    proof {
        assert(views(args@.push(text)) =~= views(args@).push(word@));
    }
    args.push(text);
}

/// An empty command line.
fn no_words() -> (r: Vec<String>)
    ensures
        views(r@) == Seq::<Seq<char>>::empty(),
{
    let r: Vec<String> = Vec::new();
    proof {
        assert(views(r@) =~= Seq::<Seq<char>>::empty());
    }
    r
}

/// Adds a Python package to the environment of the application: the command
/// line of `uv pip install <package> --project <dir>`.
pub fn add_dependency(package: &str, dir: &str) -> (r: Vec<String>)
    ensures
        views(r@) == in_project(seq!["pip"@, "install"@, package@], dir@),
{
    let mut r = no_words();
    add_word(&mut r, "pip");
    add_word(&mut r, "install");
    add_word(&mut r, package);
    proof {
        assert(views(r@) =~= seq!["pip"@, "install"@, package@]);
    }
    add_word(&mut r, "--project");
    add_word(&mut r, dir);
    r
}

/// Removes a Python package from the environment of the application: the
/// command line of `uv pip uninstall <package> --project <dir>`.
pub fn remove_dependency(package: &str, dir: &str) -> (r: Vec<String>)
    ensures
        views(r@) == in_project(seq!["pip"@, "uninstall"@, package@], dir@),
{
    let mut r = no_words();
    add_word(&mut r, "pip");
    add_word(&mut r, "uninstall");
    add_word(&mut r, package);
    proof {
        assert(views(r@) =~= seq!["pip"@, "uninstall"@, package@]);
    }
    add_word(&mut r, "--project");
    add_word(&mut r, dir);
    r
}

/// Lists the packages in the environment of the application: the command line
/// of `uv pip list --project <dir>`.
pub fn list_dependencies(dir: &str) -> (r: Vec<String>)
    ensures
        views(r@) == in_project(seq!["pip"@, "list"@], dir@),
{
    let mut r = no_words();
    add_word(&mut r, "pip");
    add_word(&mut r, "list");
    proof {
        assert(views(r@) =~= seq!["pip"@, "list"@]);
    }
    add_word(&mut r, "--project");
    add_word(&mut r, dir);
    r
}

/// What some words say, or an error.
pub open spec fn words_text(r: Result<Vec<String>, UvError>) -> Result<
    Seq<Seq<char>>,
    UvErrorModel,
> {
    match r {
        Ok(words) => Ok(views(words@)),
        Err(e) => Err(e@),
    }
}

/// Makes the environment of the application anew, given what came of removing
/// the old one, if there was one: the command line of
/// `uv venv --project <dir>`.
pub fn reinit_environment(dir: &str, removal: Result<(), String>) -> (r: Result<
    Vec<String>,
    UvError,
>)
    ensures
        words_text(r) == (match removal {
            Ok(_) => Ok(in_project(seq!["venv"@], dir@)),
            Err(e) => Err(UvErrorModel::CommandFailed("Failed to remove .venv: "@ + e@)),
        }),
{
    match removal {
        Ok(_) => {
            let mut r = no_words();
            add_word(&mut r, "venv");
            proof {
                assert(views(r@) =~= seq!["venv"@]);
            }
            add_word(&mut r, "--project");
            add_word(&mut r, dir);
            Ok(r)
        },
        Err(e) => Err(UvError::CommandFailed(joined("Failed to remove .venv: ", e.as_str()))),
    }
}

/// Runs Python code in the environment of the application: the command line of
/// `uv run python -c <code> --project <dir>`.
pub fn run_code(code: &str, dir: &str) -> (r: Vec<String>)
    ensures
        views(r@) == in_project(seq!["run"@, "python"@, "-c"@, code@], dir@),
{
    let mut r = no_words();
    add_word(&mut r, "run");
    add_word(&mut r, "python");
    add_word(&mut r, "-c");
    add_word(&mut r, code);
    proof {
        assert(views(r@) =~= seq!["run"@, "python"@, "-c"@, code@]);
    }
    add_word(&mut r, "--project");
    add_word(&mut r, dir);
    r
}

// ── Laws ──────────────────────────────────────────────────────────────────────

/// A run fails for want of `uv` exactly where there is no such binary.
pub proof fn lemma_not_found_is_told(outcome: UvOutcome)
    ensures
        run_result(outcome) matches Err(UvErrorModel::UvNotFound) <==> outcome is NotFound,
{
}

/// A run that succeeded gives what it wrote, whatever it complained of; one that
/// failed gives its complaint, or what it wrote where it complained of nothing;
/// one that could not be run gives why.
pub proof fn lemma_run_gives_what_it_wrote(outcome: UvOutcome)
    ensures
        outcome matches UvOutcome::Finished { success, stdout, stderr } ==> {
            let out = trimmed(utf8_lossy(stdout@));
            let err = trimmed(utf8_lossy(stderr@));
            &&& success ==> run_result(outcome) == Ok::<_, UvErrorModel>(out)
            &&& !success && err.len() > 0 ==> run_result(outcome) == Err::<Seq<char>, _>(
                UvErrorModel::CommandFailed(err),
            )
            &&& !success && err.len() == 0 ==> run_result(outcome) == Err::<Seq<char>, _>(
                UvErrorModel::CommandFailed(out),
            )
        },
        outcome matches UvOutcome::NotRun(e) ==> run_result(outcome) == Err::<Seq<char>, _>(
            UvErrorModel::CommandFailed(e@),
        ),
        run_result(outcome) is Ok <==> (outcome matches UvOutcome::Finished {
            success,
            stdout,
            stderr,
        } && success),
{
}

/// Every command line ends in the project that it is for, behind the words of
/// the command.
pub proof fn lemma_command_ends_in_its_project(words: Seq<Seq<char>>, dir: Seq<char>)
    ensures
        words.is_prefix_of(in_project(words, dir)),
        in_project(words, dir).len() == words.len() + 2,
        in_project(words, dir)[words.len() as int] == "--project"@,
        in_project(words, dir).last() == dir,
{
}

/// A failed command is told with its message.
pub proof fn lemma_failed_command_is_told(msg: Seq<char>)
    ensures
        uv_error_text(UvErrorModel::CommandFailed(msg)) == "uv command failed: "@ + msg,
        msg.is_suffix_of(uv_error_text(UvErrorModel::CommandFailed(msg))),
{
}

} // verus!
