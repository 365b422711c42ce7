//! The programs that come with a Lemonade installation: where they are, how they
//! are called, and what their runs come to.

use vstd::prelude::*;

use crate::client::{loaded_via_http, not_found, LemonadeClient, LEMONADE_CONNECTION_ERROR};
use crate::error::{other_error, outcome, ClientError, ErrorKind, ErrorView};
use crate::http::{is_success_code, Exchange};
use crate::text::{decimal, decimal_of, texts};

verus! {

/// The command line tool.
pub const CLI_NAME: &'static str = "lemonade";

/// The command line tool where it is installed for one user.
pub const CLI_EXE: &'static str = "lemonade.exe";

/// The server.
pub const SERVER_EXE: &'static str = "LemonadeServer.exe";

/// The variable that names the directory of a user's applications.
pub const APP_DATA_VARIABLE: &'static str = "LOCALAPPDATA";

/// Where a program was found: on the search path, or else whether it is at its
/// usual place.
pub enum ToolProbe<P> {
    OnPath(P),
    Usual { path: P, exists: bool },
}

/// The place of a program that was found.
pub open spec fn found_at<P>(probe: ToolProbe<P>) -> Option<P> {
    match probe {
        ToolProbe::OnPath(path) => Some(path),
        ToolProbe::Usual { path, exists } => if exists {
            Some(path)
        } else {
            None
        },
    }
}

/// What came of running a program: its exit code, which a run ended by a signal
/// does not have, or why it did not run.
pub type RunOutcome = Result<Option<i32>, String>;

/// A run of the command line tool.
pub struct CliRun {
    pub cli: String,
    pub outcome: RunOutcome,
}

/// A run of the command line tool, or why it was not found.
pub type CliAttempt = Result<CliRun, ClientError>;

/// Whether a run ended well.
pub open spec fn run_succeeded(code: Option<i32>) -> bool {
    code == Some(0i32)
}

/// The failure of a call that could not be made.
pub open spec fn not_executed(
    cli: Seq<char>,
    verb: Seq<char>,
    model: Seq<char>,
    reason: Seq<char>,
) -> ErrorView {
    other_error("Failed to execute '"@ + cli + " "@ + verb + " "@ + model + "': "@ + reason)
}

/// How to go on after the command line tool was tried.
pub enum LoadStep {
    /// The attempt is over.
    Finished(Result<(), ClientError>),
    /// The server itself is to be asked.
    AskServer,
}

/// How to go on, as contracts speak of it.
pub enum LoadStepView {
    Finished(Result<(), ErrorView>),
    AskServer,
}

impl View for LoadStep {
    type V = LoadStepView;

    open spec fn view(&self) -> LoadStepView {
        match self {
            LoadStep::Finished(r) => LoadStepView::Finished(outcome(*r)),
            LoadStep::AskServer => LoadStepView::AskServer,
        }
    }
}

/// How to go on after the command line tool was tried on `model`: the server is
/// asked where there is no tool or the tool failed; a tool that could not be
/// run is an error.
pub open spec fn load_step(model: Seq<char>, attempt: CliAttempt) -> LoadStepView {
    match attempt {
        Err(_) => LoadStepView::AskServer,
        Ok(run) => match run.outcome {
            Err(reason) => LoadStepView::Finished(
                Err(not_executed(run.cli@, "load"@, model, reason@)),
            ),
            Ok(code) => if run_succeeded(code) {
                LoadStepView::Finished(Ok(()))
            } else {
                LoadStepView::AskServer
            },
        },
    }
}

/// What downloading `model` with the command line tool came to.
pub open spec fn downloaded(model: Seq<char>, attempt: CliAttempt) -> Result<(), ErrorView> {
    match attempt {
        Err(e) => Err(e@),
        Ok(run) => match run.outcome {
            Err(reason) => Err(not_executed(run.cli@, "pull"@, model, reason@)),
            Ok(code) => if run_succeeded(code) {
                Ok(())
            } else {
                Err(
                    other_error(
                        "Model download failed with exit code: "@ + decimal(
                            match code {
                                Some(c) => c as int,
                                None => -1,
                            },
                        ),
                    ),
                )
            },
        },
    }
}

fn not_executed_error(cli: &str, verb: &str, model: &str, reason: &str) -> (r: ClientError)
    ensures
        r@ == not_executed(cli@, verb@, model@, reason@),
{
    ClientError::other(
        "Failed to execute '".to_owned().concat(cli).concat(" ").concat(verb).concat(" ").concat(
            model,
        ).concat("': ").concat(reason),
    )
}

impl LemonadeClient {
    /// The parts of the usual path of `exe`, below the directory of the user's
    /// applications where that is known.
    pub fn usual_path(app_data: Option<String>, exe: &str) -> (r: Vec<String>)
        ensures
            texts(r@) == seq![
                match app_data {
                    Some(dir) => dir@,
                    None => Seq::empty(),
                },
                "lemonade_server"@,
                "bin"@,
                exe@,
            ],
    {
        let root = match app_data {
            Some(dir) => dir,
            None => String::new(),
        };
        let mut parts: Vec<String> = Vec::new();
        parts.push(root);
        parts.push("lemonade_server".to_owned());
        parts.push("bin".to_owned());
        parts.push(exe.to_owned());
        parts
    }

    /// The place of the command line tool.
    pub fn find_cli(probe: ToolProbe<String>) -> (r: Result<String, ClientError>)
        ensures
            match found_at(probe) {
                Some(path) => r == Ok::<String, ClientError>(path),
                None => r matches Err(e) && e@ == not_found(
                    "Lemonade CLI not found. Install it with `winget install --id AMD.LemonadeServer`."@,
                ),
            },
    {
        match probe {
            ToolProbe::OnPath(path) => Ok(path),
            ToolProbe::Usual { path, exists } => if exists {
                Ok(path)
            } else {
                Err(
                    ClientError {
                        kind: ErrorKind::NotFound,
                        message:
                            "Lemonade CLI not found. Install it with `winget install --id AMD.LemonadeServer`.".to_owned(),
                    },
                )
            },
        }
    }

    /// The place of the server.
    pub fn find_server_exe<P>(probe: ToolProbe<P>) -> (r: Result<P, ClientError>)
        ensures
            match found_at(probe) {
                Some(path) => r == Ok::<P, ClientError>(path),
                None => r matches Err(e) && e@ == not_found(
                    "Lemonade Server executable not found. "@ + LEMONADE_CONNECTION_ERROR@,
                ),
            },
    {
        match probe {
            ToolProbe::OnPath(path) => Ok(path),
            ToolProbe::Usual { path, exists } => if exists {
                Ok(path)
            } else {
                Err(
                    ClientError {
                        kind: ErrorKind::NotFound,
                        message: "Lemonade Server executable not found. ".to_owned().concat(
                            LEMONADE_CONNECTION_ERROR,
                        ),
                    },
                )
            },
        }
    }

    /// Whether the server was started: it was unless there is a reason why not.
    pub fn start_server(server_exe: &str, failure: &Option<String>) -> (r: Result<(), ClientError>)
        ensures
            outcome(r) == match *failure {
                None => Ok::<(), ErrorView>(()),
                Some(reason) => Err(
                    other_error(
                        "Failed to start Lemonade Server from '"@ + server_exe@ + "': "@ + reason@,
                    ),
                ),
            },
    {
        match failure {
            None => Ok(()),
            Some(reason) => Err(
                ClientError::other(
                    "Failed to start Lemonade Server from '".to_owned().concat(server_exe).concat(
                        "': ",
                    ).concat(reason.as_str()),
                ),
            ),
        }
    }

    /// The arguments that have the command line tool load `model`.
    pub fn load_args(model: &str) -> (r: Vec<String>)
        ensures
            texts(r@) == seq!["load"@, model@],
    {
        let mut args: Vec<String> = Vec::new();
        args.push("load".to_owned());
        args.push(model.to_owned());
        args
    }

    /// The arguments that have the command line tool download `model`.
    pub fn pull_args(model: &str) -> (r: Vec<String>)
        ensures
            texts(r@) == seq!["pull"@, model@],
    {
        let mut args: Vec<String> = Vec::new();
        args.push("pull".to_owned());
        args.push(model.to_owned());
        args
    }

    /// How to go on with loading `model` after the command line tool was tried.
    pub fn load_model(&self, model: &str, attempt: &CliAttempt) -> (r: LoadStep)
        ensures
            r@ == load_step(model@, *attempt),
    {
        match attempt {
            Err(_) => LoadStep::AskServer,
            Ok(run) => match &run.outcome {
                Err(reason) => LoadStep::Finished(
                    Err(
                        not_executed_error(run.cli.as_str(), "load", model, reason.as_str()),
                    ),
                ),
                Ok(code) => match code {
                    Some(0) => LoadStep::Finished(Ok(())),
                    _ => LoadStep::AskServer,
                },
            },
        }
    }

    /// Whether `model` was downloaded, from what came of the command line tool.
    pub fn download_model(&self, model: &str, attempt: &CliAttempt) -> (r: Result<(), ClientError>)
        ensures
            outcome(r) == downloaded(model@, *attempt),
    {
        match attempt {
            Err(e) => Err(e.copy()),
            Ok(run) => match &run.outcome {
                Err(reason) => Err(
                    not_executed_error(run.cli.as_str(), "pull", model, reason.as_str()),
                ),
                Ok(code) => {
                    let exit: i32 = match code {
                        Some(c) => *c,
                        None => -1,
                    };
                    if exit == 0 {
                        Ok(())
                    } else {
                        let text = decimal_of(exit);
                        Err(
                            ClientError::other(
                                "Model download failed with exit code: ".to_owned().concat(
                                    text.as_str(),
                                ),
                            ),
                        )
                    }
                },
            },
        }
    }
}

/// What loading `model` comes to, from what came of the command line tool and of
/// the request to the server.
pub open spec fn loaded(model: Seq<char>, attempt: CliAttempt, exchange: Exchange) -> Result<
    (),
    ErrorView,
> {
    match load_step(model, attempt) {
        LoadStepView::Finished(r) => r,
        LoadStepView::AskServer => loaded_via_http(exchange),
    }
}

/// The server is asked to load a model if and only if the command line tool is
/// missing, or ran and did not end well.
pub proof fn law_server_is_asked_where_the_tool_fails(model: Seq<char>, attempt: CliAttempt)
    ensures
        load_step(model, attempt) == LoadStepView::AskServer <==> match attempt {
            Err(_) => true,
            Ok(run) => run.outcome matches Ok(code) && !run_succeeded(code),
        },
{
}

/// Loading works if and only if the tool ended well, or the server was asked and
/// reported success.
pub proof fn law_loading_works(model: Seq<char>, attempt: CliAttempt, exchange: Exchange)
    ensures
        loaded(model, attempt, exchange) is Ok <==> {
            ||| attempt matches Ok(run) && (run.outcome matches Ok(code) && run_succeeded(code))
            ||| load_step(model, attempt) == LoadStepView::AskServer && (exchange matches Ok(
                status,
            ) && is_success_code(status.code()))
        },
{
}

/// A download works if and only if the tool was found, ran and ended well.
pub proof fn law_download_works(model: Seq<char>, attempt: CliAttempt)
    ensures
        downloaded(model, attempt) is Ok <==> (attempt matches Ok(run) && (run.outcome matches Ok(
            code,
        ) && run_succeeded(code))),
{
}

/// A program is at the place where the search path has it, or else at its usual
/// place if it is there; in no other case is it found.
pub proof fn law_where_a_program_is<P>(path: P, exists: bool)
    ensures
        found_at(ToolProbe::OnPath(path)) == Some(path),
        exists ==> found_at(ToolProbe::Usual { path, exists }) == Some(path),
        !exists ==> found_at(ToolProbe::Usual { path, exists }) is None,
{
}

/// Loading a model is over where the tool ended with code 0, and where it could not
/// be run, with a failure that tells the call and the reason; a tool that is
/// missing, or ended in any other way, leaves it to the server.
pub proof fn law_loading_goes_by_the_exit_code(
    model: Seq<char>,
    attempt: CliAttempt,
    step: LoadStep,
)
    requires
        step@ == load_step(model, attempt),
    ensures
        attempt is Err ==> step is AskServer,
        attempt matches Ok(run) ==> (run.outcome matches Ok(code) ==> code == Some(0i32) ==> (step
            matches LoadStep::Finished(r) && r is Ok)),
        attempt matches Ok(run) ==> (run.outcome matches Ok(code) ==> code != Some(0i32) ==> step
            is AskServer),
        attempt matches Ok(run) ==> (run.outcome matches Err(reason) ==> (step matches
            LoadStep::Finished(Err(e)) && e.kind == ErrorKind::Other && e.message@
            == "Failed to execute '"@ + run.cli@ + " "@ + "load"@ + " "@ + model + "': "@
            + reason@)),
{
}

/// A model is downloaded if and only if the tool ended with code 0; else the
/// failure is the one of the search for the tool, tells the call and the reason why
/// it could not be made, or tells the exit code, which is -1 where there is none.
pub proof fn law_downloading_goes_by_the_exit_code(
    model: Seq<char>,
    attempt: CliAttempt,
    result: Result<(), ClientError>,
)
    requires
        outcome(result) == downloaded(model, attempt),
    ensures
        result is Ok <==> (attempt matches Ok(run) && (run.outcome matches Ok(code) && code == Some(
            0i32,
        ))),
        attempt matches Err(missing) ==> (result matches Err(e) && e.kind == missing.kind
            && e.message@ == missing.message@),
        attempt matches Ok(run) ==> (run.outcome matches Err(reason) ==> (result matches Err(e)
            && e.kind == ErrorKind::Other && e.message@ == "Failed to execute '"@ + run.cli@ + " "@
            + "pull"@ + " "@ + model + "': "@ + reason@)),
        attempt matches Ok(run) ==> (run.outcome matches Ok(Some(code)) ==> code != 0 ==> (result
            matches Err(e) && e.kind == ErrorKind::Other && e.message@
            == "Model download failed with exit code: "@ + decimal(code as int))),
        attempt matches Ok(run) ==> (run.outcome matches Ok(None) ==> (result matches Err(e)
            && e.kind == ErrorKind::Other && e.message@ == "Model download failed with exit code: "@
            + decimal(-1))),
{
}

/// The names that the programs of an installation go by.
pub proof fn law_program_names()
    ensures
        CLI_NAME@ == "lemonade"@,
        CLI_EXE@ == "lemonade.exe"@,
        SERVER_EXE@ == "LemonadeServer.exe"@,
        APP_DATA_VARIABLE@ == "LOCALAPPDATA"@,
{
}

} // verus!
