use vstd::prelude::*;

use crate::error::AppError;
use crate::shell::{shlex_split_of, split_words};
use crate::text::{
    chars_eq, chars_of, contains_char, contains_chars, is_space, leading_word, leading_word_len,
    occurs_at, seq_contains, seq_starts_with, trim, trim_bounds, trim_end, trim_start,
};

verus! {

/// What `str::to_uppercase` returns for `s`.
pub uninterp spec fn upper_of(s: Seq<char>) -> Seq<char>;

/// What `str::to_lowercase` returns for `s`.
pub uninterp spec fn lower_of(s: Seq<char>) -> Seq<char>;

/// Relies on `str::to_uppercase`: the Unicode upper-case mapping of every character.
#[verifier::external_body]
fn uppercase(s: &str) -> (r: String)
    ensures
        r@ == upper_of(s@),
{
    s.to_uppercase()
}

/// Relies on `str::to_lowercase`: the Unicode lower-case mapping of every character.
#[verifier::external_body]
fn lowercase(s: &str) -> (r: String)
    ensures
        r@ == lower_of(s@),
{
    s.to_lowercase()
}

// ---------------------------------------------------------------------------
// Rule tables
// ---------------------------------------------------------------------------

/// The views of a list of string slices.
pub open spec fn views(v: Seq<&str>) -> Seq<Seq<char>> {
    v.map_values(|p: &str| p@)
}

/// The commands a fetch script may start with.
pub open spec fn allowed_commands() -> Seq<Seq<char>> {
    seq!["curl"@, "wget"@, "http"@, "httpie"@]
}

/// Fragments that chain, substitute or redirect commands.
pub open spec fn dangerous_patterns() -> Seq<Seq<char>> {
    seq![
        ";"@,
        "&&"@,
        "||"@,
        "|"@,
        "`"@,
        "$("@,
        "${"@,
        "\n"@,
        "\r"@,
        ">"@,
        "<"@,
        ">>"@,
        "<<"@,
        "&>"@,
        "2>"@,
    ]
}

/// Fragments, compared in lower case, that reach local files.
pub open spec fn dangerous_url_patterns() -> Seq<Seq<char>> {
    seq!["file://"@, "file:"@, "@/"@, "@./"@, "@~/"@]
}

/// Options that make an HTTP client write to disk.
pub open spec fn dangerous_options() -> Seq<Seq<char>> {
    seq!["-o"@, "-O"@, "--output"@, "--data-binary"@]
}

/// Environment variables that can take over a process, in upper case.
pub open spec fn denied_env_names() -> Seq<Seq<char>> {
    seq![
        "LD_PRELOAD"@,
        "LD_LIBRARY_PATH"@,
        "DYLD_INSERT_LIBRARIES"@,
        "DYLD_LIBRARY_PATH"@,
        "PATH"@,
        "HOME"@,
        "SHELL"@,
        "BASH_ENV"@,
        "ENV"@,
        "IFS"@,
    ]
}

/// Characters that an environment value may not hold.
pub open spec fn dangerous_value_chars() -> Seq<char> {
    seq![
        ';', '&', '|', '`', '$', '(', ')', '{', '}', '[', ']', '<', '>', '\n', '\r', '\0', '\'',
        '"',
    ]
}

fn allowed_command_list() -> (r: Vec<&'static str>)
    ensures
        views(r@) == allowed_commands(),
{
    let mut r: Vec<&'static str> = Vec::new();
    r.push("curl");
    r.push("wget");
    r.push("http");
    r.push("httpie");
    assert(views(r@) =~= allowed_commands());
    r
}

fn dangerous_pattern_list() -> (r: Vec<&'static str>)
    ensures
        views(r@) == dangerous_patterns(),
{
    let mut r: Vec<&'static str> = Vec::new();
    r.push(";");
    r.push("&&");
    r.push("||");
    r.push("|");
    r.push("`");
    r.push("$(");
    r.push("${");
    r.push("\n");
    r.push("\r");
    r.push(">");
    r.push("<");
    r.push(">>");
    r.push("<<");
    r.push("&>");
    r.push("2>");
    assert(views(r@) =~= dangerous_patterns());
    r
}

fn dangerous_url_pattern_list() -> (r: Vec<&'static str>)
    ensures
        views(r@) == dangerous_url_patterns(),
{
    let mut r: Vec<&'static str> = Vec::new();
    r.push("file://");
    r.push("file:");
    r.push("@/");
    r.push("@./");
    r.push("@~/");
    assert(views(r@) =~= dangerous_url_patterns());
    r
}

fn dangerous_option_list() -> (r: Vec<&'static str>)
    ensures
        views(r@) == dangerous_options(),
{
    let mut r: Vec<&'static str> = Vec::new();
    r.push("-o");
    r.push("-O");
    r.push("--output");
    r.push("--data-binary");
    assert(views(r@) =~= dangerous_options());
    r
}

fn denied_env_name_list() -> (r: Vec<&'static str>)
    ensures
        views(r@) == denied_env_names(),
{
    let mut r: Vec<&'static str> = Vec::new();
    r.push("LD_PRELOAD");
    r.push("LD_LIBRARY_PATH");
    r.push("DYLD_INSERT_LIBRARIES");
    r.push("DYLD_LIBRARY_PATH");
    r.push("PATH");
    r.push("HOME");
    r.push("SHELL");
    r.push("BASH_ENV");
    r.push("ENV");
    r.push("IFS");
    assert(views(r@) =~= denied_env_names());
    r
}

fn dangerous_value_char_list() -> (r: Vec<char>)
    ensures
        r@ == dangerous_value_chars(),
{
    let mut r: Vec<char> = Vec::new();
    r.push(';');
    r.push('&');
    r.push('|');
    r.push('`');
    r.push('$');
    r.push('(');
    r.push(')');
    r.push('{');
    r.push('}');
    r.push('[');
    r.push(']');
    r.push('<');
    r.push('>');
    r.push('\n');
    r.push('\r');
    r.push('\0');
    r.push('\'');
    r.push('"');
    assert(r@ =~= dangerous_value_chars());
    r
}

/// Whether `w` is one of the entries of `list`.
fn list_contains(list: &Vec<&'static str>, w: &Vec<char>) -> (r: bool)
    ensures
        r == views(list@).contains(w@),
{
    let mut i: usize = 0;
    while i < list.len()
        invariant
            i <= list@.len(),
            forall|k: int| 0 <= k < i ==> views(list@)[k] != w@,
        decreases list.len() - i,
    {
        let entry = chars_of(list[i]);
        if chars_eq(&entry, w) {
            assert(views(list@)[i as int] == w@);
            return true;
        }
        i = i + 1;
    }
    false
}

/// Whether `w` is one of the commands a fetch script may start with.
pub fn is_allowed_command(w: &str) -> (r: bool)
    ensures
        r == allowed_commands().contains(w@),
{
    let c = chars_of(w);
    list_contains(&allowed_command_list(), &c)
}

/// The first entry of `pats` that occurs in `s`.
pub open spec fn first_occurring(s: Seq<char>, pats: Seq<Seq<char>>) -> Option<Seq<char>>
    decreases pats.len(),
{
    if pats.len() == 0 {
        None
    } else if seq_contains(s, pats[0]) {
        Some(pats[0])
    } else {
        first_occurring(s, pats.drop_first())
    }
}

/// The position in `list` of the first entry that occurs in `s`.
fn find_occurring(s: &Vec<char>, list: &Vec<&'static str>) -> (r: Option<usize>)
    ensures
        match r {
            Some(i) => i < list@.len() && first_occurring(s@, views(list@)) == Some(
                views(list@)[i as int],
            ),
            None => first_occurring(s@, views(list@)) is None,
        },
{
    let ghost all = views(list@);
    let mut i: usize = 0;
    assert(all.subrange(0, all.len() as int) =~= all);
    while i < list.len()
        invariant
            all == views(list@),
            i <= list@.len(),
            first_occurring(s@, all) == first_occurring(s@, all.subrange(i as int, all.len() as int)),
        decreases list.len() - i,
    {
        let ghost rest = all.subrange(i as int, all.len() as int);
        assert(rest[0] == all[i as int]);
        assert(rest.drop_first() =~= all.subrange(i + 1, all.len() as int));
        let p = chars_of(list[i]);
        if contains_chars(s, &p) {
            return Some(i);
        }
        i = i + 1;
    }
    None
}

// ---------------------------------------------------------------------------
// Provider identifiers
// ---------------------------------------------------------------------------

/// Whether `id` names a path-traversal step.
pub open spec fn is_traversal(id: Seq<char>) -> bool {
    id == ".."@ || seq_starts_with(id, "../"@) || seq_starts_with(id, "..\\"@) || seq_contains(
        id,
        "/.."@,
    ) || seq_contains(id, "\\.."@)
}

/// Whether `id` may name a provider: it is not empty, holds no path separator or
/// NUL, and is no traversal step.
pub open spec fn provider_id_ok(id: Seq<char>) -> bool {
    id.len() > 0 && !id.contains('/') && !id.contains('\\') && !id.contains('\0')
        && !is_traversal(id)
}

/// The reason given for a refused provider identifier.
pub open spec fn bad_id_reason() -> Seq<char> {
    "Provider ID is empty or contains invalid characters"@
}

/// Accepts `id` exactly when it can safely name a file of its own.
pub fn validate_provider_id(id: &str) -> (r: Result<(), AppError>)
    ensures
        match r {
            Ok(_) => provider_id_ok(id@),
            Err(e) => !provider_id_ok(id@) && e.is_rejection(bad_id_reason()),
        },
{
    let c = chars_of(id);
    let has_path_chars = contains_char(&c, '/') || contains_char(&c, '\\') || contains_char(
        &c,
        '\0',
    );
    let dots = chars_of("..");
    let is_dots = chars_eq(&c, &dots);
    let up_slash = chars_of("../");
    let up_backslash = chars_of("..\\");
    let slash_up = chars_of("/..");
    let backslash_up = chars_of("\\..");
    let traversal = is_dots || occurs_at(&c, &up_slash, 0) || occurs_at(&c, &up_backslash, 0)
        || contains_chars(&c, &slash_up) || contains_chars(&c, &backslash_up);
    if c.len() == 0 || has_path_chars || traversal {
        return Err(AppError::Validation(String::from_str("Provider ID is empty or contains invalid characters")));
    }
    Ok(())
}

// ---------------------------------------------------------------------------
// Environment maps
// ---------------------------------------------------------------------------

/// Whether `k` is usable as an environment variable name.
pub open spec fn env_key_ok(k: Seq<char>) -> bool {
    k.len() > 0 && !k.contains('=') && !k.contains('\0')
}

/// The first character of `v` that an environment value may not hold.
pub open spec fn first_dangerous_char(v: Seq<char>) -> Option<char>
    decreases v.len(),
{
    if v.len() == 0 {
        None
    } else if dangerous_value_chars().contains(v[0]) {
        Some(v[0])
    } else {
        first_dangerous_char(v.drop_first())
    }
}

/// The reason given for an unusable variable name.
pub open spec fn bad_key_reason(k: Seq<char>) -> Seq<char> {
    "Invalid environment variable key: '"@ + k + "'"@
}

/// The reason given for a variable name on the deny-list.
pub open spec fn denied_key_reason(k: Seq<char>) -> Seq<char> {
    "Environment variable '"@ + k + "' is not allowed for security reasons"@
}

/// The reason given for a value holding the character `c`.
pub open spec fn bad_value_reason(k: Seq<char>, c: char) -> Seq<char> {
    "Environment variable value for '"@ + k + "' contains dangerous character: '"@ + seq![c]
        + "'"@
}

/// Why the entry `(k, v)` is refused, if it is.
pub open spec fn env_entry_rejection(k: Seq<char>, v: Seq<char>) -> Option<Seq<char>> {
    if !env_key_ok(k) {
        Some(bad_key_reason(k))
    } else if denied_env_names().contains(upper_of(k)) {
        Some(denied_key_reason(k))
    } else {
        match first_dangerous_char(v) {
            Some(c) => Some(bad_value_reason(k, c)),
            None => None,
        }
    }
}

/// The reason of the first refused entry of `env`, if any.
pub open spec fn entries_rejection(env: Seq<(Seq<char>, Seq<char>)>) -> Option<Seq<char>>
    decreases env.len(),
{
    if env.len() == 0 {
        None
    } else if env_entry_rejection(env[0].0, env[0].1) is Some {
        env_entry_rejection(env[0].0, env[0].1)
    } else {
        entries_rejection(env.drop_first())
    }
}

/// Whether no two entries of `env` share a name.
pub open spec fn keys_unique(env: Seq<(Seq<char>, Seq<char>)>) -> bool {
    forall|i: int, j: int| 0 <= i < j < env.len() ==> env[i].0 != env[j].0
}

/// The first name of `env` that a later entry repeats.
pub open spec fn first_repeated_key(env: Seq<(Seq<char>, Seq<char>)>) -> Option<Seq<char>>
    decreases env.len(),
{
    if env.len() == 0 {
        None
    } else if exists|j: int| 1 <= j < env.len() && #[trigger] env[j].0 == env[0].0 {
        Some(env[0].0)
    } else {
        first_repeated_key(env.drop_first())
    }
}

/// The reason given for a name that occurs more than once.
pub open spec fn repeated_key_reason(k: Seq<char>) -> Seq<char> {
    "Environment variable '"@ + k + "' is given more than once"@
}

/// Why `env` is refused: the reason of its first refused entry, or else its
/// first repeated name.
pub open spec fn env_rejection(env: Seq<(Seq<char>, Seq<char>)>) -> Option<Seq<char>> {
    if entries_rejection(env) is Some {
        entries_rejection(env)
    } else {
        match first_repeated_key(env) {
            Some(k) => Some(repeated_key_reason(k)),
            None => None,
        }
    }
}

proof fn lemma_no_repeat_unique(env: Seq<(Seq<char>, Seq<char>)>)
    requires
        first_repeated_key(env) is None,
    ensures
        keys_unique(env),
    decreases env.len(),
{
    if env.len() > 0 {
        lemma_no_repeat_unique(env.drop_first());
        assert forall|i: int, j: int| 0 <= i < j < env.len() implies env[i].0 != env[j].0 by {
            if i == 0 {
                assert(!(1 <= j < env.len() && env[j].0 == env[0].0));
            } else {
                assert(env.drop_first()[i - 1] == env[i]);
                assert(env.drop_first()[j - 1] == env[j]);
            }
        }
    }
}

/// Whether `upper`, a variable name already in upper case, is on the deny-list.
pub fn is_denied_env_name(upper: &str) -> (r: bool)
    ensures
        r == denied_env_names().contains(upper@),
{
    let u = chars_of(upper);
    list_contains(&denied_env_name_list(), &u)
}

/// The first character of `v` that an environment value may not hold.
fn find_dangerous_char(v: &Vec<char>) -> (r: Option<char>)
    ensures
        r == first_dangerous_char(v@),
{
    let bad = dangerous_value_char_list();
    let mut i: usize = 0;
    assert(v@.subrange(0, v@.len() as int) =~= v@);
    while i < v.len()
        invariant
            bad@ == dangerous_value_chars(),
            i <= v@.len(),
            first_dangerous_char(v@) == first_dangerous_char(v@.subrange(i as int, v@.len() as int)),
        decreases v.len() - i,
    {
        let ghost rest = v@.subrange(i as int, v@.len() as int);
        assert(rest.drop_first() =~= v@.subrange(i + 1, v@.len() as int));
        if contains_char(&bad, v[i]) {
            return Some(v[i]);
        }
        i = i + 1;
    }
    None
}

/// Checks one entry of an environment map.
fn check_env_entry(k: &str, v: &str) -> (r: Result<(), AppError>)
    ensures
        match r {
            Ok(_) => env_entry_rejection(k@, v@) is None,
            Err(e) => env_entry_rejection(k@, v@) is Some && e.is_rejection(
                env_entry_rejection(k@, v@)->0,
            ),
        },
{
    let kc = chars_of(k);
    if kc.len() == 0 || contains_char(&kc, '=') || contains_char(&kc, '\0') {
        let mut m = String::from_str("Invalid environment variable key: '");
        m.append(k);
        m.append("'");
        return Err(AppError::Validation(m));
    }
    let upper = uppercase(k);
    if is_denied_env_name(upper.as_str()) {
        let mut m = String::from_str("Environment variable '");
        m.append(k);
        m.append("' is not allowed for security reasons");
        return Err(AppError::Validation(m));
    }
    let vc = chars_of(v);
    match find_dangerous_char(&vc) {
        Some(c) => {
            let mut m = String::from_str("Environment variable value for '");
            m.append(k);
            m.append("' contains dangerous character: '");
            crate::text::push_char(&mut m, c);
            m.append("'");
            assert(m@ =~= bad_value_reason(k@, c));
            Err(AppError::Validation(m))
        },
        None => Ok(()),
    }
}

/// The position of the first name of `env` that a later entry repeats.
fn find_repeated_key(env: &Vec<(String, String)>) -> (r: Option<usize>)
    ensures
        match r {
            Some(i) => i < env@.len() && first_repeated_key(env.deep_view()) == Some(
                env.deep_view()[i as int].0,
            ),
            None => first_repeated_key(env.deep_view()) is None,
        },
{
    let ghost e = env.deep_view();
    let mut i: usize = 0;
    assert(e.subrange(0, e.len() as int) =~= e);
    while i < env.len()
        invariant
            e == env.deep_view(),
            i <= env@.len(),
            first_repeated_key(e) == first_repeated_key(e.subrange(i as int, e.len() as int)),
        decreases env.len() - i,
    {
        let ghost rest = e.subrange(i as int, e.len() as int);
        assert(rest[0] == e[i as int]);
        assert(rest.drop_first() =~= e.subrange(i + 1, e.len() as int));
        let mut j: usize = i + 1;
        while j < env.len()
            invariant
                e == env.deep_view(),
                rest == e.subrange(i as int, e.len() as int),
                first_repeated_key(e) == first_repeated_key(rest),
                i < j <= env@.len(),
                forall|k: int| i < k < j ==> e[k].0 != e[i as int].0,
            decreases env.len() - j,
        {
            assert(e[j as int].0 == env@[j as int].0@);
            assert(e[i as int].0 == env@[i as int].0@);
            if env[i].0 == env[j].0 {
                let ghost w: int = j - i;
                assert(rest[w] == e[j as int]);
                assert(1 <= w < rest.len() && rest[w].0 == rest[0].0);
                assert(first_repeated_key(rest) == Some(rest[0].0));
                return Some(i);
            }
            j = j + 1;
        }
        assert forall|m: int| 1 <= m < rest.len() implies #[trigger] rest[m].0 != rest[0].0 by {
            assert(rest[m] == e[i + m]);
        }
        i = i + 1;
    }
    assert(e.subrange(e.len() as int, e.len() as int) =~= Seq::<(Seq<char>, Seq<char>)>::empty());
    None
}

/// Accepts `env` exactly when every entry has a usable name that is not on the
/// deny-list and a value free of shell-meaningful characters, and no name
/// occurs twice; otherwise names the first entry refused and why, or else the
/// first repeated name.
pub fn validate_env(env: &Vec<(String, String)>) -> (r: Result<(), AppError>)
    ensures
        match r {
            Ok(_) => env_rejection(env.deep_view()) is None && keys_unique(env.deep_view()),
            Err(e) => env_rejection(env.deep_view()) is Some && e.is_rejection(
                env_rejection(env.deep_view())->0,
            ),
        },
{
    let ghost e = env.deep_view();
    let mut i: usize = 0;
    assert(e.subrange(0, e.len() as int) =~= e);
    while i < env.len()
        invariant
            e == env.deep_view(),
            i <= env@.len(),
            entries_rejection(e) == entries_rejection(e.subrange(i as int, e.len() as int)),
        decreases env.len() - i,
    {
        let ghost rest = e.subrange(i as int, e.len() as int);
        assert(rest[0] == e[i as int]);
        assert(rest.drop_first() =~= e.subrange(i + 1, e.len() as int));
        check_env_entry(env[i].0.as_str(), env[i].1.as_str())?;
        i = i + 1;
    }
    assert(e.subrange(e.len() as int, e.len() as int) =~= Seq::<(Seq<char>, Seq<char>)>::empty());
    match find_repeated_key(env) {
        Some(k) => {
            assert(e[k as int].0 == env@[k as int].0@);
            Err(
                AppError::Validation(
                    reason_with(
                        "Environment variable '",
                        env[k].0.as_str(),
                        "' is given more than once",
                    ),
                ),
            )
        },
        None => {
            proof {
                lemma_no_repeat_unique(e);
            }
            Ok(())
        },
    }
}

// ---------------------------------------------------------------------------
// Fetch scripts
// ---------------------------------------------------------------------------

/// The reason given when the first word `w` is not an allowed command.
pub open spec fn command_reason(w: Seq<char>) -> Seq<char> {
    "Fetch script must start with one of: curl, wget, http, httpie. Got: '"@ + w + "'"@
}

/// The reason given for the chaining, substitution or redirection fragment `p`.
pub open spec fn pattern_reason(p: Seq<char>) -> Seq<char> {
    "Fetch script contains dangerous pattern: '"@ + p
        + "'. Only simple HTTP commands are allowed."@
}

/// The reason given for the local-file fragment `p`.
pub open spec fn url_reason(p: Seq<char>) -> Seq<char> {
    "Fetch script contains dangerous pattern: '"@ + p + "'. Only http/https URLs are allowed."@
}

/// The reason given for the write-to-disk option `t`.
pub open spec fn option_reason(t: Seq<char>) -> Seq<char> {
    "Fetch script contains dangerous option: '"@ + t + "'. Output redirection is not allowed."@
}

/// The reason given for an `@file` argument.
pub open spec fn at_file_reason() -> Seq<char> {
    "Fetch script contains '@file' syntax which could read local files. This is not allowed."@
}

/// Whether the word `t` asks a client to read a request body from a local file.
pub open spec fn is_at_file(t: Seq<char>) -> bool {
    t.len() > 1 && t[0] == '@'
}

/// Why the words of a fetch script are refused: the first word that is a
/// write-to-disk option or an `@file` argument.
pub open spec fn tokens_rejection(words: Seq<Seq<char>>) -> Option<Seq<char>>
    decreases words.len(),
{
    if words.len() == 0 {
        None
    } else if dangerous_options().contains(words[0]) {
        Some(option_reason(words[0]))
    } else if is_at_file(words[0]) {
        Some(at_file_reason())
    } else {
        tokens_rejection(words.drop_first())
    }
}

/// Why a fetch script whose lower-case form is `lower` is refused for reaching local files.
pub open spec fn lowered_rejection(lower: Seq<char>) -> Option<Seq<char>> {
    match first_occurring(lower, dangerous_url_patterns()) {
        Some(p) => Some(url_reason(p)),
        None => None,
    }
}

/// Why `script` is refused, by the first rule that it breaks, in this order:
/// the first word must be an allowed command; the trimmed text may hold no
/// chaining, substitution or redirection fragment; its lower-case form may
/// name no local file; and, where it splits into words, no word may be a
/// write-to-disk option or an `@file` argument.
pub open spec fn fetch_script_rejection(script: Seq<char>) -> Option<Seq<char>> {
    let t = trim(script);
    let w = leading_word(t);
    if !allowed_commands().contains(w) {
        Some(command_reason(w))
    } else if first_occurring(t, dangerous_patterns()) is Some {
        Some(pattern_reason(first_occurring(t, dangerous_patterns())->0))
    } else if lowered_rejection(lower_of(t)) is Some {
        lowered_rejection(lower_of(t))
    } else {
        match shlex_split_of(t) {
            Some(words) => tokens_rejection(words),
            None => None,
        }
    }
}

/// `head`, then `fragment`, then `tail`.
pub(crate) fn reason_with(head: &str, fragment: &str, tail: &str) -> (r: String)
    ensures
        r@ == head@ + fragment@ + tail@,
{
    let mut m = String::from_str(head);
    m.append(fragment);
    m.append(tail);
    m
}

/// Checks `lower`, the lower-case form of a trimmed fetch script, for
/// fragments that reach local files.
pub fn check_lowered_script(lower: &str) -> (r: Result<(), AppError>)
    ensures
        match r {
            Ok(_) => lowered_rejection(lower@) is None,
            Err(e) => lowered_rejection(lower@) is Some && e.is_rejection(
                lowered_rejection(lower@)->0,
            ),
        },
{
    let lc = chars_of(lower);
    let list = dangerous_url_pattern_list();
    match find_occurring(&lc, &list) {
        Some(i) => Err(
            AppError::Validation(
                reason_with(
                    "Fetch script contains dangerous pattern: '",
                    list[i],
                    "'. Only http/https URLs are allowed.",
                ),
            ),
        ),
        None => Ok(()),
    }
}

/// Checks the words of a fetch script: none may be a write-to-disk option or
/// an `@file` argument.
pub fn check_fetch_tokens(words: &Vec<String>) -> (r: Result<(), AppError>)
    ensures
        match r {
            Ok(_) => tokens_rejection(words.deep_view()) is None,
            Err(e) => tokens_rejection(words.deep_view()) is Some && e.is_rejection(
                tokens_rejection(words.deep_view())->0,
            ),
        },
{
    let ghost all = words.deep_view();
    let options = dangerous_option_list();
    let mut i: usize = 0;
    assert(all.subrange(0, all.len() as int) =~= all);
    while i < words.len()
        invariant
            all == words.deep_view(),
            views(options@) == dangerous_options(),
            i <= words@.len(),
            tokens_rejection(all) == tokens_rejection(all.subrange(i as int, all.len() as int)),
        decreases words.len() - i,
    {
        let ghost rest = all.subrange(i as int, all.len() as int);
        assert(rest[0] == all[i as int]);
        assert(rest.drop_first() =~= all.subrange(i + 1, all.len() as int));
        let word = chars_of(words[i].as_str());
        if list_contains(&options, &word) {
            return Err(
                AppError::Validation(
                    reason_with(
                        "Fetch script contains dangerous option: '",
                        words[i].as_str(),
                        "'. Output redirection is not allowed.",
                    ),
                ),
            );
        }
        if word.len() > 1 && word[0] == '@' {
            return Err(
                AppError::Validation(
                    String::from_str(
                        "Fetch script contains '@file' syntax which could read local files. This is not allowed.",
                    ),
                ),
            );
        }
        i = i + 1;
    }
    assert(all.subrange(all.len() as int, all.len() as int) =~= Seq::<Seq<char>>::empty());
    Ok(())
}

/// Accepts `script` exactly when it is a single call of an allowed HTTP client
/// with no chaining, substitution, redirection, local-file access or
/// write-to-disk option; otherwise names the first rule broken and the
/// fragment that broke it.
pub fn validate_fetch_script(script: &str) -> (r: Result<(), AppError>)
    ensures
        match r {
            Ok(_) => fetch_script_rejection(script@) is None,
            Err(e) => fetch_script_rejection(script@) is Some && e.is_rejection(
                fetch_script_rejection(script@)->0,
            ),
        },
{
    let c = chars_of(script);
    let (a, b) = trim_bounds(&c);
    let trimmed = script.substring_char(a, b);
    let ghost t = trim(script@);
    assert(trimmed@ == t);
    let word_end = leading_word_len(&c, a, b);
    let word = script.substring_char(a, word_end);
    assert(word@ == leading_word(t));
    if !is_allowed_command(word) {
        return Err(
            AppError::Validation(
                reason_with(
                    "Fetch script must start with one of: curl, wget, http, httpie. Got: '",
                    word,
                    "'",
                ),
            ),
        );
    }
    let tc = chars_of(trimmed);
    let patterns = dangerous_pattern_list();
    match find_occurring(&tc, &patterns) {
        Some(i) => {
            return Err(
                AppError::Validation(
                    reason_with(
                        "Fetch script contains dangerous pattern: '",
                        patterns[i],
                        "'. Only simple HTTP commands are allowed.",
                    ),
                ),
            );
        },
        None => {},
    }
    let lower = lowercase(trimmed);
    check_lowered_script(lower.as_str())?;
    match split_words(trimmed) {
        Some(words) => check_fetch_tokens(&words),
        None => Ok(()),
    }
}

// ---------------------------------------------------------------------------
// Properties of the policy
// ---------------------------------------------------------------------------

/// An environment map is refused whenever the upper-case form of one of its
/// names is on the deny-list, whatever casing the name itself has.
pub proof fn lemma_denied_name_rejected(env: Seq<(Seq<char>, Seq<char>)>, i: int)
    requires
        0 <= i < env.len(),
        denied_env_names().contains(upper_of(env[i].0)),
    ensures
        env_rejection(env) is Some,
{
    lemma_denied_entry_rejected(env, i);
}

proof fn lemma_denied_entry_rejected(env: Seq<(Seq<char>, Seq<char>)>, i: int)
    requires
        0 <= i < env.len(),
        denied_env_names().contains(upper_of(env[i].0)),
    ensures
        entries_rejection(env) is Some,
    decreases i,
{
    assert(env_entry_rejection(env[i].0, env[i].1) is Some);
    if env_entry_rejection(env[0].0, env[0].1) is None {
        assert(env.drop_first()[i - 1] == env[i]);
        lemma_denied_entry_rejected(env.drop_first(), i - 1);
    }
}

/// A fetch script whose first word is not an allowed command is refused,
/// and the reason names the allowed commands and the word found.
pub proof fn lemma_unlisted_command_rejected(script: Seq<char>)
    requires
        !allowed_commands().contains(leading_word(trim(script))),
    ensures
        fetch_script_rejection(script) == Some(command_reason(leading_word(trim(script)))),
{
}

proof fn lemma_listed_fragment_found(s: Seq<char>, pats: Seq<Seq<char>>, p: Seq<char>)
    requires
        pats.contains(p),
        seq_contains(s, p),
    ensures
        first_occurring(s, pats) is Some,
    decreases pats.len(),
{
    if !seq_contains(s, pats[0]) {
        let k = choose|k: int| 0 <= k < pats.len() && pats[k] == p;
        assert(pats.drop_first()[k - 1] == p);
        lemma_listed_fragment_found(s, pats.drop_first(), p);
    }
}

/// A fetch script whose trimmed text holds a chaining, substitution or
/// redirection fragment is refused, whatever its first word.
pub proof fn lemma_dangerous_fragment_rejected(script: Seq<char>, p: Seq<char>)
    requires
        dangerous_patterns().contains(p),
        seq_contains(trim(script), p),
    ensures
        fetch_script_rejection(script) is Some,
{
    if allowed_commands().contains(leading_word(trim(script))) {
        lemma_listed_fragment_found(trim(script), dangerous_patterns(), p);
    }
}

proof fn lemma_trim_start_keeps(s: Seq<char>, p: Seq<char>, i: int)
    requires
        p.len() > 0,
        !is_space(p[0]),
        0 <= i,
        i + p.len() <= s.len(),
        s.subrange(i, i + p.len()) == p,
    ensures
        seq_contains(trim_start(s), p),
    decreases s.len(),
{
    if s.len() > 0 && is_space(s[0]) {
        if i == 0 {
            assert(s.subrange(i, i + p.len())[0] == s[0]);
        }
        assert(s.drop_first().subrange(i - 1, i - 1 + p.len()) =~= p);
        lemma_trim_start_keeps(s.drop_first(), p, i - 1);
    } else {
        assert(s.subrange(i, i + p.len()) == p);
    }
}

proof fn lemma_trim_end_keeps(s: Seq<char>, p: Seq<char>, i: int)
    requires
        p.len() > 0,
        !is_space(p.last()),
        0 <= i,
        i + p.len() <= s.len(),
        s.subrange(i, i + p.len()) == p,
    ensures
        seq_contains(trim_end(s), p),
    decreases s.len(),
{
    if s.len() > 0 && is_space(s.last()) {
        if i + p.len() == s.len() {
            assert(s.subrange(i, i + p.len())[p.len() - 1] == s.last());
        }
        assert(s.drop_last().subrange(i, i + p.len()) =~= p);
        lemma_trim_end_keeps(s.drop_last(), p, i);
    } else {
        assert(s.subrange(i, i + p.len()) == p);
    }
}

/// Trimming white space keeps every fragment that neither starts nor ends
/// with white space.
pub proof fn lemma_trim_keeps_fragment(s: Seq<char>, p: Seq<char>)
    requires
        p.len() > 0,
        !is_space(p[0]),
        !is_space(p.last()),
        seq_contains(s, p),
    ensures
        seq_contains(trim(s), p),
{
    let i = choose|i: int|
        0 <= i && i + p.len() <= s.len() && #[trigger] s.subrange(i, i + p.len()) == p;
    lemma_trim_start_keeps(s, p, i);
    let t = trim_start(s);
    let j = choose|j: int|
        0 <= j && j + p.len() <= t.len() && #[trigger] t.subrange(j, j + p.len()) == p;
    lemma_trim_end_keeps(t, p, j);
}

/// A fetch script that holds a chaining, substitution or redirection fragment
/// anywhere is refused, for every such fragment that does not start or end
/// with white space (all of them but the line breaks, which are refused
/// wherever trimming keeps them).
pub proof fn lemma_dangerous_fragment_anywhere_rejected(script: Seq<char>, p: Seq<char>)
    requires
        dangerous_patterns().contains(p),
        p.len() > 0,
        !is_space(p[0]),
        !is_space(p.last()),
        seq_contains(script, p),
    ensures
        fetch_script_rejection(script) is Some,
{
    lemma_trim_keeps_fragment(script, p);
    lemma_dangerous_fragment_rejected(script, p);
}

/// An identifier that is `..`, starts with `../`, or holds `/..` is refused.
pub proof fn lemma_traversal_id_rejected(id: Seq<char>)
    requires
        id == ".."@ || seq_starts_with(id, "../"@) || seq_contains(id, "/.."@),
    ensures
        !provider_id_ok(id),
{
}

} // verus!
