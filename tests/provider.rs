use provider_guard::error::AppError;
use provider_guard::provider::{
    finish_fetch, finish_transform, parse_fetch_script, prepare_fetch, ApiProvider, FetchStep,
    TestResult,
};
use boa_engine::{Context, Source};
use provider_guard::transform::{prepare_transform, TransformError};

/// Admits the transform and evaluates its program in a fresh interpreter,
/// as the application's worker does, without the deadline.
fn run_transform_script(script: &str, json_data: &str) -> Result<String, TransformError> {
    let program = prepare_transform(script, json_data)?;
    let mut context = Context::default();
    let value = context
        .eval(Source::from_bytes(&program))
        .map_err(|e| TransformError::CompileOrRuntimeError(format!("{e:?}")))?;
    value
        .to_string(&mut context)
        .map(|s| s.to_std_string_escaped())
        .map_err(|e| TransformError::ResultNotSerializable(format!("{e:?}")))
}

fn provider(fetch: &str, transform: &str, env: &[(&str, &str)]) -> ApiProvider {
    ApiProvider {
        id: "test".to_string(),
        name: "Test Provider".to_string(),
        enabled: true,
        fetch_script: fetch.to_string(),
        transform_script: transform.to_string(),
        env: env.iter().map(|(k, v)| (k.to_string(), v.to_string())).collect(),
        last_fetched: None,
        last_error: None,
    }
}

fn json(s: &str) -> serde_json::Value {
    serde_json::from_str(s).unwrap()
}

fn finished(step: Result<FetchStep, AppError>) -> TestResult {
    match step {
        Ok(FetchStep::Finished(t)) => t,
        Ok(FetchStep::Transform(_)) => panic!("expected a finished run"),
        Err(e) => panic!("expected a finished run, got {:?}", e),
    }
}

#[test]
fn end_to_end_without_transform() {
    let p = provider("curl https://api.example.com", "", &[]);
    let argv = prepare_fetch(&p).unwrap();
    assert_eq!(argv, vec!["curl".to_string(), "https://api.example.com".to_string()]);
    let t = finished(finish_fetch(true, br#"{"total": 100}"#.to_vec(), &Vec::new(), ""));
    assert!(t.success);
    assert!(t.error.is_none());
    assert_eq!(t.data, Some(json(r#"{"total": 100}"#)));
}

#[test]
fn end_to_end_with_transform() {
    let transform = "(r) => ({ cost: r.total * 0.01 })";
    let p = provider("curl https://api.example.com", transform, &[]);
    assert!(prepare_fetch(&p).is_ok());
    let text = match finish_fetch(true, br#"{"total": 100}"#.to_vec(), &Vec::new(), transform) {
        Ok(FetchStep::Transform(text)) => text,
        _ => panic!("expected the transform step"),
    };
    assert_eq!(text, r#"{"total": 100}"#);
    let t = finish_transform(run_transform_script(transform, &text)).unwrap();
    assert!(t.success);
    assert_eq!(t.data, Some(json(r#"{"cost": 1}"#)));
}

#[test]
fn disallowed_command_stops_before_spawn() {
    let p = provider("rm -rf /", "", &[]);
    match prepare_fetch(&p) {
        Err(AppError::Validation(m)) => {
            assert!(m.contains("curl, wget, http, httpie"));
            assert!(m.contains("'rm'"));
        }
        _ => panic!("expected a validation error"),
    }
}

#[test]
fn prepare_fetch_gates_in_order() {
    let bad_env = provider("curl https://a.com", "", &[("PATH", "/bin")]);
    match prepare_fetch(&bad_env) {
        Err(AppError::Validation(m)) => assert!(m.contains("'PATH'")),
        _ => panic!("expected an environment rejection"),
    }
    let unbalanced = provider("curl 'https://a.com", "", &[]);
    match prepare_fetch(&unbalanced) {
        Err(AppError::Validation(m)) => {
            assert_eq!(m, "Invalid fetch script: unmatched quotes or escape sequences")
        }
        _ => panic!("expected a quoting rejection"),
    }
    let placeholder = provider("curl -H 'X-Key: ${KEY}' https://a.com", "", &[("KEY", "k1")]);
    match prepare_fetch(&placeholder) {
        Err(AppError::Validation(m)) => assert!(m.contains("'${'")),
        _ => panic!("expected a pattern rejection"),
    }
    let with_env = provider("curl -H 'X-Key: k1' https://a.com", "", &[("KEY", "k1")]);
    assert_eq!(
        prepare_fetch(&with_env).unwrap(),
        vec!["curl".to_string(), "-H".to_string(), "X-Key: k1".to_string(), "https://a.com".to_string()]
    );
    let empty = provider("curl", "", &[]);
    assert_eq!(prepare_fetch(&empty).unwrap(), vec!["curl".to_string()]);
}

#[test]
fn parse_fetch_script_reports_quoting() {
    assert!(parse_fetch_script("curl \"x", &Vec::new()).is_err());
    assert_eq!(parse_fetch_script("", &Vec::new()).unwrap(), Vec::<String>::new());
}

#[test]
fn failed_fetch_reports_error_output() {
    let t = finished(finish_fetch(false, b"ignored".to_vec(), &b"boom\xff".to_vec(), ""));
    assert!(!t.success);
    assert!(t.data.is_none());
    assert_eq!(t.error, Some("Fetch failed: boom\u{FFFD}".to_string()));
}

#[test]
fn fetch_output_must_be_utf8_and_json() {
    assert!(matches!(
        finish_fetch(true, vec![0xff, 0xfe], &Vec::new(), ""),
        Err(AppError::Fetch(_))
    ));
    assert!(matches!(
        finish_fetch(true, b"not json".to_vec(), &Vec::new(), ""),
        Err(AppError::Json(_))
    ));
    match finish_fetch(true, "caf\u{e9}".as_bytes().to_vec(), &Vec::new(), "(r) => r") {
        Ok(FetchStep::Transform(text)) => assert_eq!(text, "caf\u{e9}"),
        _ => panic!("expected the transform step"),
    }
}

#[test]
fn transform_outcomes_become_results() {
    let t = finish_transform(Err(TransformError::Timeout)).unwrap();
    assert!(!t.success);
    assert_eq!(
        t.error,
        Some("Transform failed: Script execution exceeded timeout of 5s".to_string())
    );
    assert!(matches!(
        finish_transform(Ok("undefined".to_string())),
        Err(AppError::Json(_))
    ));
    let ok = finish_transform(Ok("[1,2]".to_string())).unwrap();
    assert_eq!(ok.data, Some(json("[1, 2]")));
}

#[test]
fn result_constructors() {
    let s = TestResult::success(json("true"));
    assert!(s.success && s.error.is_none());
    let f = TestResult::failure("no".to_string());
    assert!(!f.success && f.data.is_none());
    assert_eq!(f.error, Some("no".to_string()));
}

#[test]
fn error_messages() {
    assert_eq!(AppError::Validation("x".to_string()).message(), "Validation error: x");
    assert_eq!(AppError::LockPoisoned.message(), "Lock poisoned");
    assert_eq!(AppError::Fetch("y".to_string()).message(), "Fetch error: y");
}

#[test]
fn spawned_program_is_an_allowed_command() {
    let p = provider("curl\u{b}x https://a.com", "", &[]);
    match prepare_fetch(&p) {
        Err(AppError::Validation(m)) => assert_eq!(
            m,
            "Fetch script must start with one of: curl, wget, http, httpie. Got: 'curl\u{b}x'"
        ),
        _ => panic!("expected the spawned program to be refused"),
    }
    let p = provider("wget\u{b}https://a.com", "", &[]);
    assert!(prepare_fetch(&p).is_err());
}

#[test]
fn repeated_env_names_refused() {
    let p = provider("curl https://a.com", "", &[("KEY", "a"), ("OTHER", "b"), ("KEY", "c")]);
    match prepare_fetch(&p) {
        Err(AppError::Validation(m)) => {
            assert_eq!(m, "Environment variable 'KEY' is given more than once")
        }
        _ => panic!("expected a repeated-name rejection"),
    }
}
