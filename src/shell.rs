use vstd::prelude::*;

use crate::text::{occurs_at, seq_contains, string_of};

verus! {

/// What `shlex::split` returns for the text `s`: the words, or `None` where the
/// quoting is unbalanced or an escape is left open.
pub uninterp spec fn shlex_split_of(s: Seq<char>) -> Option<Seq<Seq<char>>>;

/// The placeholder `${key}` that stands for the value of `key`.
pub open spec fn placeholder(key: Seq<char>) -> Seq<char> {
    seq!['$', '{'] + key + seq!['}']
}

/// `s` with each occurrence of the non-empty `p`, scanned from the left and
/// without overlap, replaced by `r`.
pub open spec fn replace_all(s: Seq<char>, p: Seq<char>, r: Seq<char>) -> Seq<char>
    decreases s.len(),
{
    if p.len() == 0 || s.len() < p.len() {
        s
    } else if s.subrange(0, p.len() as int) == p {
        r + replace_all(s.subrange(p.len() as int, s.len() as int), p, r)
    } else {
        seq![s[0]] + replace_all(s.drop_first(), p, r)
    }
}

/// `s` after each entry of `env`, in order, has had its placeholder replaced by its value.
pub open spec fn substituted(s: Seq<char>, env: Seq<(Seq<char>, Seq<char>)>) -> Seq<char>
    decreases env.len(),
{
    if env.len() == 0 {
        s
    } else {
        substituted(replace_all(s, placeholder(env[0].0), env[0].1), env.drop_first())
    }
}

/// The words of a command line after substitution: what `parse_command` yields.
pub open spec fn command_words(
    script: Seq<char>,
    env: Seq<(Seq<char>, Seq<char>)>,
) -> Option<Seq<Seq<char>>> {
    shlex_split_of(substituted(script, env))
}

/// Relies on `shlex::split`: POSIX-shell word splitting that honours quotes and escapes.
#[verifier::external_body]
fn shell_split(s: &str) -> (r: Option<Vec<String>>)
    ensures
        match r {
            Some(words) => shlex_split_of(s@) == Some(words.deep_view()),
            None => shlex_split_of(s@) is None,
        },
{
    shlex::split(s)
}

fn push_all(out: &mut Vec<char>, r: &Vec<char>)
    ensures
        final(out)@ == old(out)@ + r@,
{
    let mut k: usize = 0;
    while k < r.len()
        invariant
            k <= r@.len(),
            out@ == old(out)@ + r@.subrange(0, k as int),
        decreases r.len() - k,
    {
        out.push(r[k]);
        k = k + 1;
    }
    assert(r@.subrange(0, r@.len() as int) =~= r@);
}

/// `s` with every occurrence of `p` replaced by `r`.
pub fn replace_chars(s: &Vec<char>, p: &Vec<char>, r: &Vec<char>) -> (out: Vec<char>)
    requires
        p@.len() > 0,
    ensures
        out@ == replace_all(s@, p@, r@),
{
    let mut out: Vec<char> = Vec::new();
    let mut i: usize = 0;
    assert(s@.subrange(0, s@.len() as int) =~= s@);
    while i < s.len()
        invariant
            p@.len() > 0,
            i <= s@.len(),
            out@ + replace_all(s@.subrange(i as int, s@.len() as int), p@, r@) == replace_all(
                s@,
                p@,
                r@,
            ),
        decreases s.len() - i,
    {
        let ghost rest = s@.subrange(i as int, s@.len() as int);
        if occurs_at(s, p, i) {
            assert(rest.subrange(0, p@.len() as int) =~= p@);
            assert(rest.subrange(p@.len() as int, rest.len() as int) =~= s@.subrange(
                i + p@.len(),
                s@.len() as int,
            ));
            let ghost before = out@;
            push_all(&mut out, r);
            assert(before + (r@ + replace_all(
                s@.subrange(i + p@.len(), s@.len() as int),
                p@,
                r@,
            )) =~= out@ + replace_all(s@.subrange(i + p@.len(), s@.len() as int), p@, r@));
            i = i + p.len();
        } else {
            assert(rest.drop_first() =~= s@.subrange(i + 1, s@.len() as int));
            proof {
                if rest.len() < p@.len() {
                    assert(replace_all(rest, p@, r@) == rest);
                    assert(replace_all(rest.drop_first(), p@, r@) == rest.drop_first());
                    assert(seq![rest[0]] + rest.drop_first() =~= rest);
                } else {
                    assert(rest.subrange(0, p@.len() as int) =~= s@.subrange(
                        i as int,
                        i + p@.len(),
                    ));
                }
            }
            let ghost before = out@;
            out.push(s[i]);
            assert(before + (seq![rest[0]] + replace_all(rest.drop_first(), p@, r@))
                =~= out@ + replace_all(rest.drop_first(), p@, r@));
            i = i + 1;
        }
    }
    assert(out@ + replace_all(Seq::<char>::empty(), p@, r@) =~= out@);
    assert(s@.subrange(s@.len() as int, s@.len() as int) =~= Seq::<char>::empty());
    out
}

/// The placeholder `${key}` as characters.
fn placeholder_chars(key: &str) -> (r: Vec<char>)
    ensures
        r@ == placeholder(key@),
{
    let mut r: Vec<char> = Vec::new();
    r.push('$');
    r.push('{');
    let k = crate::text::chars_of(key);
    push_all(&mut r, &k);
    r.push('}');
    assert(r@ =~= placeholder(key@));
    r
}

/// Replaces each `${KEY}` in `input` by the value of `KEY`, taking the entries
/// of `env` in order; placeholders of keys that `env` lacks stay as they are.
pub fn substitute_env_vars(input: &str, env: &Vec<(String, String)>) -> (r: String)
    ensures
        r@ == substituted(input@, env.deep_view()),
{
    let ghost e = env.deep_view();
    let mut cur = crate::text::chars_of(input);
    let mut i: usize = 0;
    assert(e.subrange(0, e.len() as int) =~= e);
    while i < env.len()
        invariant
            e == env.deep_view(),
            i <= env@.len(),
            substituted(input@, e) == substituted(cur@, e.subrange(i as int, e.len() as int)),
        decreases env.len() - i,
    {
        let pat = placeholder_chars(env[i].0.as_str());
        let value = crate::text::chars_of(env[i].1.as_str());
        let ghost tail = e.subrange(i as int, e.len() as int);
        assert(tail[0] == e[i as int]);
        assert(tail.drop_first() =~= e.subrange(i + 1, e.len() as int));
        cur = replace_chars(&cur, &pat, &value);
        i = i + 1;
    }
    assert(e.subrange(e.len() as int, e.len() as int) =~= Seq::<(Seq<char>, Seq<char>)>::empty());
    string_of(&cur)
}

/// Splits `script` into words after substituting `env` into it; `None` where
/// the quoting or escaping is malformed.
pub fn parse_command(script: &str, env: &Vec<(String, String)>) -> (r: Option<Vec<String>>)
    ensures
        match r {
            Some(words) => command_words(script@, env.deep_view()) == Some(words.deep_view()),
            None => command_words(script@, env.deep_view()) is None,
        },
{
    let substituted_text = substitute_env_vars(script, env);
    shell_split(substituted_text.as_str())
}

/// Splits `s` into words as a POSIX shell would, without substitution.
pub fn split_words(s: &str) -> (r: Option<Vec<String>>)
    ensures
        match r {
            Some(words) => shlex_split_of(s@) == Some(words.deep_view()),
            None => shlex_split_of(s@) is None,
        },
{
    shell_split(s)
}

proof fn lemma_replace_absent(s: Seq<char>, p: Seq<char>, r: Seq<char>)
    requires
        p.len() > 0,
        !seq_contains(s, p),
    ensures
        replace_all(s, p, r) == s,
    decreases s.len(),
{
    if s.len() >= p.len() {
        let z: int = 0;
        assert(s.subrange(z, z + p.len()) != p);
        assert forall|j: int|
            0 <= j && j + p.len() <= s.drop_first().len() implies #[trigger] s.drop_first().subrange(
            j,
            j + p.len(),
        ) != p by {
            assert(s.drop_first().subrange(j, j + p.len()) =~= s.subrange(j + 1, j + 1 + p.len()));
        }
        lemma_replace_absent(s.drop_first(), p, r);
        assert(seq![s[0]] + s.drop_first() =~= s);
    }
}

/// Substitution leaves a text unchanged when none of the map's placeholders
/// occurs in it: placeholders of keys that the map lacks stay as written.
pub proof fn lemma_substitution_without_placeholders(
    s: Seq<char>,
    env: Seq<(Seq<char>, Seq<char>)>,
)
    requires
        forall|i: int| 0 <= i < env.len() ==> !seq_contains(s, #[trigger] placeholder(env[i].0)),
    ensures
        substituted(s, env) == s,
    decreases env.len(),
{
    if env.len() > 0 {
        assert(!seq_contains(s, placeholder(env[0].0)));
        lemma_replace_absent(s, placeholder(env[0].0), env[0].1);
        assert forall|i: int| 0 <= i < env.drop_first().len() implies !seq_contains(
            s,
            #[trigger] placeholder(env.drop_first()[i].0),
        ) by {
            assert(env.drop_first()[i] == env[i + 1]);
        }
        lemma_substitution_without_placeholders(s, env.drop_first());
    }
}

} // verus!
