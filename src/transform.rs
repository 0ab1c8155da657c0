use vstd::prelude::*;

verus! {

#[verifier::external_type_specification]
#[verifier::external_body]
pub struct ExJsonValue(serde_json::Value);

/// Whether `serde_json` accepts `s` as one JSON document.
pub uninterp spec fn is_json(s: Seq<char>) -> bool;

/// Relies on `serde_json::from_str::<serde_json::Value>`: parses one JSON
/// document, or reports why it cannot.
#[verifier::external_body]
pub(crate) fn parse_json(s: &str) -> (r: Result<serde_json::Value, String>)
    ensures
        r is Ok <==> is_json(s@),
{
    serde_json::from_str::<serde_json::Value>(s).map_err(|e| e.to_string())
}

/// The longest transform script, in bytes, that is admitted for execution.
pub const MAX_SCRIPT_LENGTH: usize = 10000;

/// Why a transform did not produce a result.
#[derive(Debug, Clone)]
pub enum TransformError {
    OversizedScript,
    InvalidPayloadJson(String),
    CompileOrRuntimeError(String),
    ResultNotSerializable(String),
    Timeout,
}

impl TransformError {
    /// The text shown to a user for this failure.
    pub open spec fn text(&self) -> Seq<char> {
        match self {
            TransformError::OversizedScript => "Script exceeds maximum length of 10000 characters"@,
            TransformError::InvalidPayloadJson(d) => "Invalid JSON data: "@ + d@,
            TransformError::CompileOrRuntimeError(d) => "Script execution error: "@ + d@,
            TransformError::ResultNotSerializable(d) => "Failed to convert result: "@ + d@,
            TransformError::Timeout => "Script execution exceeded timeout of 5s"@,
        }
    }

    /// The text shown to a user for this failure.
    pub fn message(&self) -> (r: String)
        ensures
            r@ == self.text(),
    {
        let (head, detail) = match self {
            TransformError::OversizedScript => (
                "Script exceeds maximum length of 10000 characters",
                "",
            ),
            TransformError::InvalidPayloadJson(d) => ("Invalid JSON data: ", d.as_str()),
            TransformError::CompileOrRuntimeError(d) => ("Script execution error: ", d.as_str()),
            TransformError::ResultNotSerializable(d) => ("Failed to convert result: ", d.as_str()),
            TransformError::Timeout => ("Script execution exceeded timeout of 5s", ""),
        };
        let mut r = String::from_str(head);
        r.append(detail);
        proof {
            reveal_strlit("");
            assert(r@ =~= self.text());
        }
        r
    }
}

/// The program handed to the interpreter: it binds the payload, defines the
/// user's transform and yields the transform's result as JSON text.
pub open spec fn program_text(script: Seq<char>, json_data: Seq<char>) -> Seq<char> {
    "\n        var response = "@ + json_data + ";\n        var transform = "@ + script
        + ";\n        JSON.stringify(transform(response));\n        "@
}

/// Builds the program that applies `script` to `json_data`.
pub fn transform_program(script: &str, json_data: &str) -> (r: String)
    ensures
        r@ == program_text(script@, json_data@),
{
    let mut r = String::from_str("\n        var response = ");
    r.append(json_data);
    r.append(";\n        var transform = ");
    r.append(script);
    r.append(";\n        JSON.stringify(transform(response));\n        ");
    r
}

/// Admits a transform for execution and builds the program that applies it.
/// An oversized script is refused first, then a payload that is not JSON;
/// otherwise the result is the program text that the interpreter is handed.
/// Nothing here runs the script: that happens on a worker with a deadline.
pub fn prepare_transform(script: &str, json_data: &str) -> (r: Result<String, TransformError>)
    ensures
        match r {
            Ok(program) => script.len() <= MAX_SCRIPT_LENGTH && is_json(json_data@) && program@
                == program_text(script@, json_data@),
            Err(TransformError::OversizedScript) => script.len() > MAX_SCRIPT_LENGTH,
            Err(TransformError::InvalidPayloadJson(_)) => script.len() <= MAX_SCRIPT_LENGTH
                && !is_json(json_data@),
            Err(_) => false,
        },
{
    if script.len() > MAX_SCRIPT_LENGTH {
        return Err(TransformError::OversizedScript);
    }
    match parse_json(json_data) {
        Ok(_) => {},
        Err(detail) => {
            return Err(TransformError::InvalidPayloadJson(detail));
        },
    }
    Ok(transform_program(script, json_data))
}

/// The outcome of a transform once the wait for its worker is over:
/// `received` is what the worker handed back before the deadline, or `None`
/// when the deadline passed first, which is a timeout whatever the worker
/// does afterwards.
pub fn settle_transform(received: Option<Result<String, TransformError>>) -> (r: Result<
    String,
    TransformError,
>)
    ensures
        match received {
            Some(outcome) => r == outcome,
            None => r matches Err(TransformError::Timeout),
        },
{
    match received {
        Some(outcome) => outcome,
        None => Err(TransformError::Timeout),
    }
}

} // verus!
