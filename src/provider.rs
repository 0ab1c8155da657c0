use vstd::prelude::*;

use crate::error::AppError;
use crate::policy::{
    allowed_commands, command_reason, env_rejection, fetch_script_rejection, is_allowed_command,
    reason_with, validate_env, validate_fetch_script,
};
use crate::shell::{command_words, parse_command};
use crate::transform::{is_json, parse_json, TransformError};
use vstd::utf8::{decode_utf8, valid_utf8};

verus! {

/// A user-registered source of usage data: a fetch command, an optional
/// transform script and the environment the command runs under.
#[derive(Debug, Clone)]
pub struct ApiProvider {
    pub id: String,
    pub name: String,
    pub enabled: bool,
    pub fetch_script: String,
    pub transform_script: String,
    pub env: Vec<(String, String)>,
    pub last_fetched: Option<String>,
    pub last_error: Option<String>,
}

/// The outcome of one run of a provider: data on success, a reason otherwise.
pub struct TestResult {
    pub success: bool,
    pub data: Option<serde_json::Value>,
    pub error: Option<String>,
}

impl TestResult {
    /// A successful outcome carrying `data`.
    pub fn success(data: serde_json::Value) -> (r: TestResult)
        ensures
            r.success,
            r.data == Some(data),
            r.error is None,
    {
        TestResult { success: true, data: Some(data), error: None }
    }

    /// A failed outcome carrying the reason `error`.
    pub fn failure(error: String) -> (r: TestResult)
        ensures
            !r.success,
            r.data is None,
            r.error == Some(error),
    {
        TestResult { success: false, data: None, error: Some(error) }
    }

    /// Whether this is a failure whose reason reads `reason`.
    pub open spec fn fails_with(&self, reason: Seq<char>) -> bool {
        !self.success && self.data is None && self.error is Some && self.error->0@ == reason
    }

    /// Whether this is a success with data.
    pub open spec fn succeeded(&self) -> bool {
        self.success && self.data is Some && self.error is None
    }
}

/// The reason given when a fetch script cannot be split into words.
pub open spec fn unparsable_reason() -> Seq<char> {
    "Invalid fetch script: unmatched quotes or escape sequences"@
}

/// The reason given when a fetch script holds no word at all.
pub open spec fn empty_script_reason() -> Seq<char> {
    "Empty fetch script"@
}

/// Splits a fetch script into the program and its arguments after
/// substituting `env`, refusing malformed quoting.
pub fn parse_fetch_script(script: &str, env: &Vec<(String, String)>) -> (r: Result<
    Vec<String>,
    AppError,
>)
    ensures
        match r {
            Ok(words) => command_words(script@, env.deep_view()) == Some(words.deep_view()),
            Err(e) => command_words(script@, env.deep_view()) is None && e.is_rejection(
                unparsable_reason(),
            ),
        },
{
    match parse_command(script, env) {
        Some(words) => Ok(words),
        None => Err(
            AppError::Validation(
                String::from_str("Invalid fetch script: unmatched quotes or escape sequences"),
            ),
        ),
    }
}

/// Why `provider` may not be run, by the first gate that it fails: the fetch
/// script policy, the environment policy, word splitting, an empty command,
/// or a program to spawn that is not an allowed command.
pub open spec fn launch_rejection(
    script: Seq<char>,
    env: Seq<(Seq<char>, Seq<char>)>,
) -> Option<Seq<char>> {
    if fetch_script_rejection(script) is Some {
        fetch_script_rejection(script)
    } else if env_rejection(env) is Some {
        env_rejection(env)
    } else if command_words(script, env) is None {
        Some(unparsable_reason())
    } else if command_words(script, env)->0.len() == 0 {
        Some(empty_script_reason())
    } else if !allowed_commands().contains(command_words(script, env)->0[0]) {
        Some(command_reason(command_words(script, env)->0[0]))
    } else {
        None
    }
}

/// The first steps of a run: validates the provider and yields the command
/// line to spawn, program first; that program is always an allowed command.
/// Nothing is spawned when this fails.
pub fn prepare_fetch(provider: &ApiProvider) -> (r: Result<Vec<String>, AppError>)
    ensures
        match r {
            Ok(argv) => launch_rejection(provider.fetch_script@, provider.env.deep_view()) is None
                && command_words(provider.fetch_script@, provider.env.deep_view()) == Some(
                argv.deep_view(),
            ) && argv@.len() > 0 && allowed_commands().contains(argv@[0]@),
            Err(e) => launch_rejection(provider.fetch_script@, provider.env.deep_view()) is Some
                && e.is_rejection(
                launch_rejection(provider.fetch_script@, provider.env.deep_view())->0,
            ),
        },
{
    validate_fetch_script(provider.fetch_script.as_str())?;
    validate_env(&provider.env)?;
    let argv = parse_fetch_script(provider.fetch_script.as_str(), &provider.env)?;
    if argv.len() == 0 {
        return Err(AppError::Validation(String::from_str("Empty fetch script")));
    }
    assert(argv.deep_view()[0] == argv@[0]@);
    if !is_allowed_command(argv[0].as_str()) {
        return Err(
            AppError::Validation(
                reason_with(
                    "Fetch script must start with one of: curl, wget, http, httpie. Got: '",
                    argv[0].as_str(),
                    "'",
                ),
            ),
        );
    }
    Ok(argv)
}

/// The text that `String::from_utf8_lossy` decodes from `b`.
pub uninterp spec fn utf8_lossy(b: Seq<u8>) -> Seq<char>;

/// Relies on `String::from_utf8`: the decoded text when the bytes are valid
/// UTF-8, an error otherwise.
#[verifier::external_body]
fn decode_utf8_text(b: Vec<u8>) -> (r: Result<String, String>)
    ensures
        match r {
            Ok(s) => valid_utf8(b@) && s@ == decode_utf8(b@),
            Err(_) => !valid_utf8(b@),
        },
{
    String::from_utf8(b).map_err(|e| e.to_string())
}

/// Relies on `String::from_utf8_lossy`: the text, with invalid sequences replaced.
#[verifier::external_body]
fn decode_utf8_lossy(b: &Vec<u8>) -> (r: String)
    ensures
        r@ == utf8_lossy(b@),
{
    String::from_utf8_lossy(b).into_owned()
}

/// What to do once the fetch command has exited.
pub enum FetchStep {
    /// The run is over with this outcome.
    Finished(TestResult),
    /// The run goes on by applying the provider's transform to this text.
    Transform(String),
}

/// The reason given when the fetch command fails with error output `stderr`.
pub open spec fn fetch_failed_reason(stderr: Seq<u8>) -> Seq<char> {
    "Fetch failed: "@ + utf8_lossy(stderr)
}

/// Decides the next step from the fetch command's exit status and output.
/// A failed command ends the run with its error output; output that is not
/// UTF-8 is an error; without a transform the output must be JSON and is the
/// result; with one, the output goes on to the transform.
pub fn finish_fetch(exit_ok: bool, stdout: Vec<u8>, stderr: &Vec<u8>, transform_script: &str) -> (r:
    Result<FetchStep, AppError>)
    ensures
        !exit_ok ==> match r {
            Ok(FetchStep::Finished(t)) => t.fails_with(fetch_failed_reason(stderr@)),
            _ => false,
        },
        exit_ok && !valid_utf8(stdout@) ==> (r matches Err(AppError::Fetch(_))),
        exit_ok && valid_utf8(stdout@) && transform_script@.len() == 0 ==> match r {
            Ok(FetchStep::Finished(t)) => is_json(decode_utf8(stdout@)) && t.succeeded(),
            Err(AppError::Json(_)) => !is_json(decode_utf8(stdout@)),
            _ => false,
        },
        exit_ok && valid_utf8(stdout@) && transform_script@.len() > 0 ==> match r {
            Ok(FetchStep::Transform(text)) => text@ == decode_utf8(stdout@),
            _ => false,
        },
{
    if !exit_ok {
        let mut m = String::from_str("Fetch failed: ");
        let detail = decode_utf8_lossy(stderr);
        m.append(detail.as_str());
        return Ok(FetchStep::Finished(TestResult::failure(m)));
    }
    let text = match decode_utf8_text(stdout) {
        Ok(text) => text,
        Err(detail) => {
            return Err(AppError::Fetch(detail));
        },
    };
    if transform_script.is_empty() {
        match parse_json(text.as_str()) {
            Ok(data) => Ok(FetchStep::Finished(TestResult::success(data))),
            Err(detail) => Err(AppError::Json(detail)),
        }
    } else {
        Ok(FetchStep::Transform(text))
    }
}

/// The reason given when the transform fails with `e`.
pub open spec fn transform_failed_reason(e: TransformError) -> Seq<char> {
    "Transform failed: "@ + e.text()
}

/// Ends a run from the transform's outcome: its text must be JSON and becomes
/// the result; a transform failure becomes a failed outcome naming it.
pub fn finish_transform(outcome: Result<String, TransformError>) -> (r: Result<TestResult, AppError>)
    ensures
        match outcome {
            Ok(text) => match r {
                Ok(t) => is_json(text@) && t.succeeded(),
                Err(AppError::Json(_)) => !is_json(text@),
                _ => false,
            },
            Err(e) => match r {
                Ok(t) => t.fails_with(transform_failed_reason(e)),
                _ => false,
            },
        },
{
    match outcome {
        Ok(text) => match parse_json(text.as_str()) {
            Ok(data) => Ok(TestResult::success(data)),
            Err(detail) => Err(AppError::Json(detail)),
        },
        Err(e) => {
            let mut m = String::from_str("Transform failed: ");
            let detail = e.message();
            m.append(detail.as_str());
            Ok(TestResult::failure(m))
        },
    }
}

} // verus!
