//! Variable expansion. A string may embed `$NAME`, `${NAME}`,
//! `${NAME:-default}` and `${NAME:offset}` references.
//!
//! With an explicit environment map the string is first screened against a
//! denylist of command-injection openers and then expanded in process,
//! following the quoting rules of a double-quoted shell word: a backslash
//! escapes only `$`, backquote, double quote and backslash; every other
//! character stands for itself. Without an explicit map the ambient process
//! environment is consulted through an outside expansion routine.

use vstd::prelude::*;
use crate::error::{CODE_BANNED_EXPANSION, CODE_UNBOUND_VARIABLE, SarusError, SarusResult};
use crate::smap::StrMap;
use crate::strutil::{
    chars_to_string, find_char, find_from, push_all, push_str_chars, str_to_chars, sub_chars,
};

verus! {

/// Characters that may make up a variable name.
pub open spec fn is_name_char(c: char) -> bool {
    ('a' <= c <= 'z') || ('A' <= c <= 'Z') || ('0' <= c <= '9') || c == '_'
}

/// A non-empty run of name characters.
pub open spec fn valid_name(s: Seq<char>) -> bool {
    s.len() > 0 && forall|i: int| 0 <= i < s.len() ==> is_name_char(#[trigger] s[i])
}

/// Characters that a backslash escapes inside a double-quoted shell word.
pub open spec fn is_escapable(c: char) -> bool {
    c == '$' || c == '`' || c == '"' || c == '\\'
}

/// A denylisted opener stands at `i` and is not escaped: a command
/// substitution opener `$(`, a backquote, a semicolon, or a double quote,
/// not immediately preceded by a backslash.
pub open spec fn banned_at(s: Seq<char>, i: int) -> bool {
    0 <= i < s.len() && (i == 0 || s[i - 1] != '\\') && (s[i] == '`' || s[i] == ';' || s[i] == '"'
        || (s[i] == '$' && i + 1 < s.len() && s[i + 1] == '('))
}

/// Whether the denylist rejects `s`.
pub open spec fn has_banned(s: Seq<char>) -> bool {
    exists|i: int| banned_at(s, i)
}

/// Why an expansion failed: a reference to a variable the environment does
/// not bind, or a substitution form that cannot be parsed.
#[derive(Clone, Copy, Debug, PartialEq, Eq)]
pub enum ExpandFailure {
    Unbound,
    Invalid,
}

/// `p` prepended to a successful expansion of the rest.
pub open spec fn prepend(p: Seq<char>, r: Result<Seq<char>, ExpandFailure>) -> Result<
    Seq<char>,
    ExpandFailure,
> {
    match r {
        Ok(t) => Ok(p + t),
        Err(e) => Err(e),
    }
}

/// First index at or after `from` whose character is no name character;
/// the end of the name run starting at `from`.
pub open spec fn name_end(s: Seq<char>, from: int) -> int
    decreases s.len() - from,
{
    if from < 0 || from >= s.len() || !is_name_char(s[from]) {
        from
    } else {
        name_end(s, from + 1)
    }
}

pub proof fn lemma_name_end_props(s: Seq<char>, from: int)
    requires
        0 <= from <= s.len(),
    ensures
        from <= name_end(s, from) <= s.len(),
        forall|j: int| from <= j < name_end(s, from) ==> is_name_char(#[trigger] s[j]),
        name_end(s, from) < s.len() ==> !is_name_char(s[name_end(s, from)]),
    decreases s.len() - from,
{
    if from < s.len() && is_name_char(s[from]) {
        lemma_name_end_props(s, from + 1);
    }
}

/// Whether every character of `s` is a decimal digit, with at least one.
pub open spec fn all_digits(s: Seq<char>) -> bool {
    s.len() > 0 && forall|i: int| 0 <= i < s.len() ==> '0' <= #[trigger] s[i] <= '9'
}

/// The value of a run of decimal digits.
pub open spec fn digits_val(s: Seq<char>) -> int
    decreases s.len(),
{
    if s.len() == 0 {
        0
    } else {
        digits_val(s.drop_last()) * 10 + (s.last() as int - 48)
    }
}

proof fn lemma_digits_val_bounds(s: Seq<char>)
    requires
        forall|i: int| 0 <= i < s.len() ==> '0' <= #[trigger] s[i] <= '9',
    ensures
        digits_val(s) >= 0,
        forall|m: int| 0 <= m <= s.len() ==> digits_val(#[trigger] s.take(m)) <= digits_val(s),
    decreases s.len(),
{
    if s.len() > 0 {
        lemma_digits_val_bounds(s.drop_last());
        assert(digits_val(s.drop_last()) >= 0);
        assert(s.last() as int >= 48);
        assert forall|m: int| 0 <= m <= s.len() implies digits_val(#[trigger] s.take(m))
            <= digits_val(s) by {
            if m < s.len() {
                assert(s.take(m) =~= s.drop_last().take(m));
                assert(digits_val(s.drop_last().take(m)) <= digits_val(s.drop_last()));
                assert(digits_val(s) >= digits_val(s.drop_last()));
            } else {
                assert(s.take(m) =~= s);
            }
        }
    }
}

/// The piece of output contributed by the substitution written between
/// braces, `s[a .. b]`, independent of what follows the closing brace.
pub open spec fn brace_piece(s: Seq<char>, a: int, b: int, env: Map<Seq<char>, Seq<char>>) -> Result<
    Seq<char>,
    ExpandFailure,
> {
    let colon = find_from(s, a, ':');
    if colon is Some && colon.unwrap() < b {
        let k = colon.unwrap();
        let name = s.subrange(a, k);
        if !valid_name(name) {
            Err(ExpandFailure::Invalid)
        } else if k + 1 < b && s[k + 1] == '-' {
            if env.dom().contains(name) && env[name].len() > 0 {
                Ok(env[name])
            } else {
                Ok(s.subrange(k + 2, b))
            }
        } else {
            let ds = s.subrange(k + 1, b);
            if !all_digits(ds) {
                Err(ExpandFailure::Invalid)
            } else if env.dom().contains(name) {
                let v = env[name];
                let o = digits_val(ds);
                Ok(if o <= v.len() { v.skip(o) } else { Seq::empty() })
            } else {
                Err(ExpandFailure::Unbound)
            }
        }
    } else {
        let name = s.subrange(a, b);
        if !valid_name(name) {
            Err(ExpandFailure::Invalid)
        } else if env.dom().contains(name) {
            Ok(env[name])
        } else {
            Err(ExpandFailure::Unbound)
        }
    }
}

/// A computed piece followed by the expansion of the rest; the piece's
/// failure wins over the rest's.
pub open spec fn chain(
    p: Result<Seq<char>, ExpandFailure>,
    rest: Result<Seq<char>, ExpandFailure>,
) -> Result<Seq<char>, ExpandFailure> {
    match p {
        Err(e) => Err(e),
        Ok(pc) => prepend(pc, rest),
    }
}

/// The expansion of `s[i ..]` under the explicit environment `env`.
pub open spec fn expand_from(s: Seq<char>, i: int, env: Map<Seq<char>, Seq<char>>) -> Result<
    Seq<char>,
    ExpandFailure,
>
    decreases s.len() - i,
{
    if i < 0 || i >= s.len() {
        Ok(Seq::empty())
    } else if s[i] == '\\' {
        if i + 1 < s.len() && is_escapable(s[i + 1]) {
            prepend(seq![s[i + 1]], expand_from(s, i + 2, env))
        } else {
            prepend(seq!['\\'], expand_from(s, i + 1, env))
        }
    } else if s[i] == '$' {
        if i + 1 < s.len() && s[i + 1] == '{' {
            match find_from(s, i + 2, '}') {
                None => Err(ExpandFailure::Invalid),
                Some(j) => if i + 2 <= j < s.len() {
                    chain(brace_piece(s, i + 2, j, env), expand_from(s, j + 1, env))
                } else {
                    Err(ExpandFailure::Invalid)
                },
            }
        } else if i + 1 < s.len() && is_name_char(s[i + 1]) {
            let e = name_end(s, i + 1);
            if i + 1 < e <= s.len() {
                let name = s.subrange(i + 1, e);
                if env.dom().contains(name) {
                    prepend(env[name], expand_from(s, e, env))
                } else {
                    Err(ExpandFailure::Unbound)
                }
            } else {
                Err(ExpandFailure::Invalid)
            }
        } else {
            prepend(seq!['$'], expand_from(s, i + 1, env))
        }
    } else {
        prepend(seq![s[i]], expand_from(s, i + 1, env))
    }
}

/// The whole hardened expansion under an explicit environment: the denylist
/// screens the raw string, then the in-process grammar expands it.
pub open spec fn expand_hardened(s: Seq<char>, env: Map<Seq<char>, Seq<char>>) -> Result<
    Seq<char>,
    ExpandFailure,
> {
    if has_banned(s) {
        Err(ExpandFailure::Invalid)
    } else {
        expand_from(s, 0, env)
    }
}

/// Whether `s` holds no `$` at all, so that no expansion can change it.
pub open spec fn dollar_free(s: Seq<char>) -> bool {
    forall|i: int| 0 <= i < s.len() ==> #[trigger] s[i] != '$'
}

/// Whether `s` holds no character that the expander treats specially: no
/// reference opener, no escape, and nothing the denylist rejects.
pub open spec fn plain_chars(s: Seq<char>) -> bool {
    forall|i: int|
        0 <= i < s.len() ==> #[trigger] s[i] != '$' && s[i] != '\\' && s[i] != '`' && s[i] != ';'
            && s[i] != '"'
}

proof fn lemma_expand_from_plain(s: Seq<char>, i: int, env: Map<Seq<char>, Seq<char>>)
    requires
        plain_chars(s),
        0 <= i <= s.len(),
    ensures
        expand_from(s, i, env) == Ok::<Seq<char>, ExpandFailure>(s.skip(i)),
    decreases s.len() - i,
{
    if i >= s.len() {
        assert(s.skip(i) =~= Seq::<char>::empty());
    } else {
        lemma_expand_from_plain(s, i + 1, env);
        assert(seq![s[i]] + s.skip(i + 1) =~= s.skip(i));
    }
}

/// Law: the hardened expansion leaves a string without special characters
/// exactly as it is, under every environment.
pub proof fn lemma_expand_plain(s: Seq<char>, env: Map<Seq<char>, Seq<char>>)
    requires
        plain_chars(s),
    ensures
        expand_hardened(s, env) == Ok::<Seq<char>, ExpandFailure>(s),
{
    assert(!has_banned(s)) by {
        if has_banned(s) {
            let i = choose|i: int| banned_at(s, i);
            assert(s[i] != '`' && s[i] != ';' && s[i] != '"' && s[i] != '$');
        }
    }
    lemma_expand_from_plain(s, 0, env);
    assert(s.skip(0) =~= s);
}

fn scan_banned(v: &Vec<char>) -> (r: bool)
    ensures
        r == has_banned(v@),
{
    let mut i: usize = 0;
    while i < v.len()
        invariant
            i <= v@.len(),
            forall|j: int| 0 <= j < i ==> !banned_at(v@, j),
        decreases v@.len() - i,
    {
        let c = v[i];
        if i == 0 || v[i - 1] != '\\' {
            if c == '`' || c == ';' || c == '"' {
                proof {
                    assert(banned_at(v@, i as int));
                }
                return true;
            }
            if c == '$' && i + 1 < v.len() && v[i + 1] == '(' {
                proof {
                    assert(banned_at(v@, i as int));
                }
                return true;
            }
        }
        proof {
            assert(!banned_at(v@, i as int));
        }
        i = i + 1;
    }
    proof {
        if has_banned(v@) {
            let j = choose|j: int| banned_at(v@, j);
            assert(false);
        }
    }
    false
}

fn is_name_char_exec(c: char) -> (r: bool)
    ensures
        r == is_name_char(c),
{
    ('a' <= c && c <= 'z') || ('A' <= c && c <= 'Z') || ('0' <= c && c <= '9') || c == '_'
}

fn scan_name_end(v: &Vec<char>, from: usize) -> (r: usize)
    requires
        from <= v@.len(),
    ensures
        r == name_end(v@, from as int),
        from <= r <= v@.len(),
{
    proof {
        lemma_name_end_props(v@, from as int);
    }
    let mut i: usize = from;
    while i < v.len()
        invariant
            from <= i <= v@.len(),
            name_end(v@, from as int) == name_end(v@, i as int),
            forall|j: int| from <= j < i ==> is_name_char(#[trigger] v@[j]),
        decreases v@.len() - i,
    {
        if !is_name_char_exec(v[i]) {
            return i;
        }
        i = i + 1;
    }
    i
}

fn check_valid_name(v: &Vec<char>) -> (r: bool)
    ensures
        r == valid_name(v@),
{
    if v.len() == 0 {
        return false;
    }
    let mut i: usize = 0;
    while i < v.len()
        invariant
            i <= v@.len(),
            forall|j: int| 0 <= j < i ==> is_name_char(#[trigger] v@[j]),
        decreases v@.len() - i,
    {
        if !is_name_char_exec(v[i]) {
            return false;
        }
        i = i + 1;
    }
    true
}

fn check_all_digits(v: &Vec<char>) -> (r: bool)
    ensures
        r == all_digits(v@),
{
    if v.len() == 0 {
        return false;
    }
    let mut i: usize = 0;
    while i < v.len()
        invariant
            i <= v@.len(),
            forall|j: int| 0 <= j < i ==> '0' <= #[trigger] v@[j] <= '9',
        decreases v@.len() - i,
    {
        let c = v[i];
        if !('0' <= c && c <= '9') {
            return false;
        }
        i = i + 1;
    }
    true
}

/// Parse the digits as an offset; `None` means the value exceeds `usize`.
fn parse_offset(v: &Vec<char>) -> (r: Option<usize>)
    requires
        all_digits(v@),
    ensures
        match r {
            Some(o) => o == digits_val(v@),
            None => digits_val(v@) > usize::MAX,
        },
{
    let mut acc: usize = 0;
    let mut i: usize = 0;
    proof {
        assert(v@.take(0) =~= Seq::<char>::empty());
    }
    while i < v.len()
        invariant
            i <= v@.len(),
            all_digits(v@),
            acc == digits_val(v@.take(i as int)),
        decreases v@.len() - i,
    {
        let c = v[i];
        let d: usize = (c as usize) - 48;
        proof {
            assert('0' <= v@[i as int] <= '9');
            assert(48 <= c as usize <= 57);
        }
        if acc > (usize::MAX - d) / 10 {
            proof {
                let ghost t = v@.take(i + 1);
                assert(t.drop_last() =~= v@.take(i as int));
                assert(t.last() == v@[i as int]);
                assert(digits_val(t) == acc * 10 + d);
                assert(digits_val(t) > usize::MAX);
                lemma_digits_val_bounds(v@);
                assert(v@.take(v@.len() as int) =~= v@);
                assert(digits_val(v@) >= digits_val(t));
            }
            return None;
        }
        acc = acc * 10 + d;
        i = i + 1;
        proof {
            let ghost t = v@.take(i as int);
            assert(t.drop_last() =~= v@.take(i - 1));
            assert(t.last() == v@[i - 1]);
        }
    }
    proof {
        assert(v@.take(v@.len() as int) =~= v@);
    }
    Some(acc)
}

/// Expand `v[i ..]` under `env`, appending the expansion to `out`.
#[verifier::spinoff_prover]
fn expand_rec(v: &Vec<char>, i: usize, env: &StrMap, out: &mut Vec<char>) -> (r: Result<
    (),
    ExpandFailure,
>)
    requires
        i <= v@.len(),
        env.wf(),
    ensures
        match expand_from(v@, i as int, env@) {
            Ok(t) => r is Ok && final(out)@ == old(out)@ + t,
            Err(e) => r == Err::<(), ExpandFailure>(e),
        },
    decreases v@.len() - i, 3int,
{
    if i >= v.len() {
        proof {
            assert(old(out)@ + Seq::<char>::empty() =~= old(out)@);
        }
        return Ok(());
    }
    let c = v[i];
    if c == '\\' {
        if i + 1 < v.len() && is_escapable_exec(v[i + 1]) {
            out.push(v[i + 1]);
            let r = expand_rec(v, i + 2, env, out);
            proof {
                if expand_from(v@, i + 2, env@) is Ok {
                    let t = expand_from(v@, i + 2, env@).unwrap();
                    assert(out@ =~= old(out)@ + (seq![v@[i + 1]] + t));
                }
            }
            return r;
        } else {
            out.push('\\');
            let r = expand_rec(v, i + 1, env, out);
            proof {
                if expand_from(v@, i + 1, env@) is Ok {
                    let t = expand_from(v@, i + 1, env@).unwrap();
                    assert(out@ =~= old(out)@ + (seq!['\\'] + t));
                }
            }
            return r;
        }
    }
    if c == '$' {
        return expand_dollar(v, i, env, out);
    }
    out.push(c);
    let r = expand_rec(v, i + 1, env, out);
    proof {
        if expand_from(v@, i + 1, env@) is Ok {
            let t = expand_from(v@, i + 1, env@).unwrap();
            assert(out@ =~= old(out)@ + (seq![v@[i as int]] + t));
        }
    }
    r
}

/// Expand a `$` reference that starts at `v[i]`, then the rest of the string.
#[verifier::rlimit(100)]
#[verifier::spinoff_prover]
fn expand_dollar(v: &Vec<char>, i: usize, env: &StrMap, out: &mut Vec<char>) -> (r: Result<
    (),
    ExpandFailure,
>)
    requires
        i < v@.len(),
        v@[i as int] == '$',
        env.wf(),
    ensures
        match expand_from(v@, i as int, env@) {
            Ok(t) => r is Ok && final(out)@ == old(out)@ + t,
            Err(e) => r == Err::<(), ExpandFailure>(e),
        },
    decreases v@.len() - i, 2int,
{
    let n = v.len();
    proof {
        assert(i < n);
    }
    if i + 1 < n && v[i + 1] == '{' {
        match find_char(v, i + 2, '}') {
            None => {
                return Err(ExpandFailure::Invalid);
            },
            Some(j) => {
                proof {
                    crate::strutil::lemma_find_from_props(v@, i + 2, '}');
                }
                return expand_brace_arm(v, i, j, env, out);
            },
        }
    } else if i + 1 < n && is_name_char_exec(v[i + 1]) {
        return expand_name_arm(v, i, env, out);
    } else {
        out.push('$');
        let r = expand_rec(v, i + 1, env, out);
        proof {
            if expand_from(v@, i + 1, env@) is Ok {
                let t = expand_from(v@, i + 1, env@).unwrap();
                assert(out@ =~= old(out)@ + (seq!['$'] + t));
            }
        }
        return r;
    }
}

/// Expand a braced reference `v[i .. j + 1]`, then the rest of the string.
#[verifier::rlimit(100)]
#[verifier::spinoff_prover]
fn expand_brace_arm(v: &Vec<char>, i: usize, j: usize, env: &StrMap, out: &mut Vec<char>) -> (r:
    Result<(), ExpandFailure>)
    requires
        i + 1 < v@.len(),
        v@[i as int] == '$',
        v@[i + 1] == '{',
        find_from(v@, i + 2, '}') == Some(j as int),
        i + 2 <= j < v@.len(),
        env.wf(),
    ensures
        match expand_from(v@, i as int, env@) {
            Ok(t) => r is Ok && final(out)@ == old(out)@ + t,
            Err(e) => r == Err::<(), ExpandFailure>(e),
        },
    decreases v@.len() - i, 1int,
{
    let n = v.len();
    proof {
        assert(j < n);
        assert(expand_from(v@, i as int, env@) == chain(
            brace_piece(v@, i + 2, j as int, env@),
            expand_from(v@, j + 1, env@),
        ));
    }
    let subst = brace_subst_exec(v, i + 2, j, env);
    match subst {
        Err(e) => Err(e),
        Ok(piece) => {
            push_all(out, &piece);
            let r = expand_rec(v, j + 1, env, out);
            proof {
                if expand_from(v@, j + 1, env@) is Ok {
                    let t = expand_from(v@, j + 1, env@).unwrap();
                    assert(out@ =~= old(out)@ + (piece@ + t));
                }
            }
            r
        },
    }
}

/// Expand a bare `$NAME` reference at `v[i]`, then the rest of the string.
#[verifier::rlimit(100)]
#[verifier::spinoff_prover]
fn expand_name_arm(v: &Vec<char>, i: usize, env: &StrMap, out: &mut Vec<char>) -> (r: Result<
    (),
    ExpandFailure,
>)
    requires
        i + 1 < v@.len(),
        v@[i as int] == '$',
        v@[i + 1] != '{',
        is_name_char(v@[i + 1]),
        env.wf(),
    ensures
        match expand_from(v@, i as int, env@) {
            Ok(t) => r is Ok && final(out)@ == old(out)@ + t,
            Err(e) => r == Err::<(), ExpandFailure>(e),
        },
    decreases v@.len() - i, 1int,
{
    let n = v.len();
    proof {
        assert(i + 1 < n);
    }
    let e = scan_name_end(v, i + 1);
    proof {
        lemma_name_end_props(v@, i + 1);
        assert(i + 1 < e <= v@.len());
    }
    let name = sub_chars(v, i + 1, e);
    let name_s = chars_to_string(&name);
    match env.get(name_s.as_str()) {
        Some(val) => {
            push_str_chars(out, val.as_str());
            let r = expand_rec(v, e, env, out);
            proof {
                if expand_from(v@, e as int, env@) is Ok {
                    let t = expand_from(v@, e as int, env@).unwrap();
                    assert(out@ =~= old(out)@ + (env@[v@.subrange(i + 1, e as int)] + t));
                }
            }
            r
        },
        None => Err(ExpandFailure::Unbound),
    }
}

fn is_escapable_exec(c: char) -> (r: bool)
    ensures
        r == is_escapable(c),
{
    c == '$' || c == '`' || c == '"' || c == '\\'
}

/// The concatenation of three string slices.
pub fn concat3(a: &str, b: &str, c: &str) -> (r: String)
    ensures
        r@ == a@ + b@ + c@,
{
    let mut out: Vec<char> = Vec::new();
    push_str_chars(&mut out, a);
    push_str_chars(&mut out, b);
    push_str_chars(&mut out, c);
    chars_to_string(&out)
}

/// Relies on `shellexpand::env`: expansion of `$NAME` and `${NAME}`
/// references against the ambient process environment. Its source returns
/// the input unchanged when no `$` occurs in it, and on a failed lookup
/// reports the variable's name and the cause.
#[verifier::external_body]
fn shellexpand_env(s: &String) -> (r: Result<String, (String, String)>)
    ensures
        dollar_free(s@) ==> (match r {
            Ok(t) => t@ == s@,
            Err(_) => false,
        }),
{
    match shellexpand::env(s.as_str()) {
        Ok(c) => Ok(c.into_owned()),
        Err(e) => Err((e.var_name, e.cause.to_string())),
    }
}

/// Expand the variable references of `input`: against the explicit map if
/// one is given (hardened, in process), else against the ambient process
/// environment.
pub fn expand_vars_string(input: String, env: &Option<StrMap>) -> (r: SarusResult<String>)
    requires
        match env {
            Some(m) => m.wf(),
            None => true,
        },
    ensures
        match env {
            Some(m) => match expand_hardened(input@, m@) {
                Ok(t) => r matches Ok(s) && s@ == t,
                Err(ExpandFailure::Unbound) => r matches Err(e) && e.code == CODE_UNBOUND_VARIABLE
                    && e.file_path is None,
                Err(ExpandFailure::Invalid) => r matches Err(e) && e.code == CODE_BANNED_EXPANSION
                    && e.file_path is None,
            },
            None => {
                &&& dollar_free(input@) ==> (r matches Ok(s) && s@ == input@)
                &&& r matches Err(e) ==> e.code == CODE_UNBOUND_VARIABLE && e.file_path is None
            },
        },
{
    match env {
        Some(m) => {
            let chars = str_to_chars(input.as_str());
            if scan_banned(&chars) {
                let msg = concat3("cannot expand string ", input.as_str(), ", invalid string");
                return Err(SarusError::new(CODE_BANNED_EXPANSION, msg));
            }
            let mut out: Vec<char> = Vec::new();
            match expand_rec(&chars, 0, m, &mut out) {
                Ok(()) => {
                    proof {
                        assert(Seq::<char>::empty() + expand_from(chars@, 0, m@).unwrap()
                            =~= expand_from(chars@, 0, m@).unwrap());
                    }
                    Ok(chars_to_string(&out))
                },
                Err(ExpandFailure::Unbound) => {
                    let msg = concat3(
                        "cannot expand string ",
                        input.as_str(),
                        ", unbound variable",
                    );
                    Err(SarusError::new(CODE_UNBOUND_VARIABLE, msg))
                },
                Err(ExpandFailure::Invalid) => {
                    let msg = concat3(
                        "cannot expand string ",
                        input.as_str(),
                        ", invalid string",
                    );
                    Err(SarusError::new(CODE_BANNED_EXPANSION, msg))
                },
            }
        },
        None => {
            match shellexpand_env(&input) {
                Ok(s) => Ok(s),
                Err((var_name, cause)) => {
                    let mut out: Vec<char> = Vec::new();
                    push_str_chars(&mut out, "cannot expand variable ");
                    push_str_chars(&mut out, var_name.as_str());
                    push_str_chars(&mut out, ", ");
                    push_str_chars(&mut out, cause.as_str());
                    Err(SarusError::new(CODE_UNBOUND_VARIABLE, chars_to_string(&out)))
                },
            }
        },
    }
}

/// The expansion of every string of `vs` in order; the first failure wins.
pub open spec fn expand_all(vs: Seq<Seq<char>>, env: Map<Seq<char>, Seq<char>>) -> Result<
    Seq<Seq<char>>,
    ExpandFailure,
>
    decreases vs.len(),
{
    if vs.len() == 0 {
        Ok(Seq::empty())
    } else {
        match expand_hardened(vs[0], env) {
            Err(e) => Err(e),
            Ok(t) => match expand_all(vs.skip(1), env) {
                Err(e) => Err(e),
                Ok(ts) => Ok(seq![t] + ts),
            },
        }
    }
}

/// Expand every element of a list of strings.
pub fn expand_vars_vec(v: Vec<String>, env: &Option<StrMap>) -> (r: SarusResult<Vec<String>>)
    requires
        match env {
            Some(m) => m.wf(),
            None => true,
        },
    ensures
        match env {
            Some(m) => match expand_all(v@.map_values(|s: String| s@), m@) {
                Ok(ts) => r matches Ok(out) && out@.map_values(|s: String| s@) == ts,
                Err(ExpandFailure::Unbound) => r matches Err(e) && e.code
                    == CODE_UNBOUND_VARIABLE,
                Err(ExpandFailure::Invalid) => r matches Err(e) && e.code
                    == CODE_BANNED_EXPANSION,
            },
            None => {
                &&& r matches Ok(out) ==> out@.len() == v@.len()
                &&& (forall|k: int| 0 <= k < v@.len() ==> dollar_free(#[trigger] v@[k]@)) ==> (r
                    matches Ok(out) && forall|k: int|
                    0 <= k < v@.len() ==> #[trigger] out@[k]@ == v@[k]@)
            },
        },
        r matches Err(e) ==> e.code == CODE_UNBOUND_VARIABLE || e.code == CODE_BANNED_EXPANSION,
{
    let mut out: Vec<String> = Vec::new();
    let mut i: usize = 0;
    let ghost vs = v@.map_values(|s: String| s@);
    while i < v.len()
        invariant
            i <= v@.len(),
            vs == v@.map_values(|s: String| s@),
            out@.len() == i,
            match env {
                Some(m) => m.wf() && (forall|j: int|
                    0 <= j < i ==> expand_hardened(#[trigger] vs[j], m@) is Ok) && (forall|j: int|
                    0 <= j < i ==> #[trigger] out@[j]@ == expand_hardened(vs[j], m@).unwrap()),
                None => (forall|k: int| 0 <= k < v@.len() ==> dollar_free(#[trigger] v@[k]@))
                    ==> (forall|j: int| 0 <= j < i ==> #[trigger] out@[j]@ == v@[j]@),
            },
        decreases v@.len() - i,
    {
        let item = v[i].clone();
        match expand_vars_string(item, env) {
            Ok(s) => {
                out.push(s);
            },
            Err(e) => {
                proof {
                    if env is Some {
                        let m = env.unwrap();
                        lemma_expand_all_err(vs, m@, i as int);
                    }
                }
                return Err(e);
            },
        }
        i = i + 1;
    }
    proof {
        if env is Some {
            let m = env.unwrap();
            lemma_expand_all_ok(vs, m@);
            assert(out@.map_values(|s: String| s@) =~= expand_all(vs, m@).unwrap());
        }
    }
    Ok(out)
}

/// Expand every value of a string map, keeping its keys.
pub fn expand_vars_hashmap(h: StrMap, env: &Option<StrMap>) -> (r: SarusResult<StrMap>)
    requires
        h.wf(),
        match env {
            Some(m) => m.wf(),
            None => true,
        },
    ensures
        match env {
            Some(m) => {
                &&& r matches Ok(h2) ==> h2.wf() && h2@.dom() == h@.dom() && forall|k: Seq<char>|
                    #[trigger] h@.dom().contains(k) ==> expand_hardened(h@[k], m@) is Ok
                        && h2@[k] == expand_hardened(h@[k], m@)->Ok_0
                &&& r is Err ==> exists|k: Seq<char>|
                    #[trigger] h@.dom().contains(k) && expand_hardened(h@[k], m@) is Err
                &&& (forall|k: Seq<char>|
                    #[trigger] h@.dom().contains(k) ==> expand_hardened(h@[k], m@) is Ok) ==> r
                    is Ok
                &&& r matches Err(e) ==> exists|i: int|
                    0 <= i < h.pairs@.len() && (forall|j: int|
                        0 <= j < i ==> expand_hardened(#[trigger] h.pairs@[j].1@, m@) is Ok)
                        && (expand_hardened(#[trigger] h.pairs@[i].1@, m@) matches Err(f)
                        && e.code == crate::mount::expand_code(f))
                &&& r matches Err(e) ==> e.code == CODE_UNBOUND_VARIABLE || e.code
                    == CODE_BANNED_EXPANSION
            },
            None => {
                &&& r matches Ok(h2) ==> h2.wf() && h2@.dom() == h@.dom()
                &&& (forall|k: Seq<char>|
                    #[trigger] h@.dom().contains(k) ==> dollar_free(h@[k])) ==> (r matches Ok(h2)
                    && h2@ == h@)
                &&& r matches Err(e) ==> e.code == CODE_UNBOUND_VARIABLE
            },
        },
{
    let mut out = StrMap::new();
    let mut i: usize = 0;
    proof {
        crate::smap::lemma_pairs_map_props(h.pairs@);
    }
    while i < h.pairs.len()
        invariant
            i <= h.pairs@.len(),
            h.wf(),
            out.wf(),
            match env {
                Some(m) => m.wf(),
                None => true,
            },
            forall|j: int|
                0 <= j < i ==> out@.dom().contains(#[trigger] h.pairs@[j].0@),
            forall|k: Seq<char>|
                #[trigger] out@.dom().contains(k) ==> exists|j: int|
                    0 <= j < i && #[trigger] h.pairs@[j].0@ == k,
            match env {
                Some(m) => forall|j: int|
                    0 <= j < i ==> expand_hardened(#[trigger] h.pairs@[j].1@, m@) is Ok && out@[
                        h.pairs@[j].0@
                    ] == expand_hardened(h.pairs@[j].1@, m@)->Ok_0,
                None => (forall|k: Seq<char>|
                    #[trigger] h@.dom().contains(k) ==> dollar_free(h@[k])) ==> (forall|j: int|
                    0 <= j < i ==> out@[#[trigger] h.pairs@[j].0@] == h.pairs@[j].1@),
            },
        decreases h.pairs@.len() - i,
    {
        proof {
            crate::smap::lemma_pairs_map_props(h.pairs@);
        }
        let key = h.pairs[i].0.clone();
        let val = h.pairs[i].1.clone();
        match expand_vars_string(val, env) {
            Ok(ev) => {
                out.insert(key, ev);
            },
            Err(e) => {
                proof {
                    crate::smap::lemma_pairs_map_props(h.pairs@);
                    assert(h@.dom().contains(h.pairs@[i as int].0@));
                    assert(h@[h.pairs@[i as int].0@] == h.pairs@[i as int].1@);
                    if env is Some {
                        let m = env.unwrap();
                        assert(forall|j: int|
                            0 <= j < i ==> expand_hardened(#[trigger] h.pairs@[j].1@, m@) is Ok);
                        assert(expand_hardened(h.pairs@[i as int].1@, m@) is Err);
                    }
                }
                return Err(e);
            },
        }
        i = i + 1;
        proof {
            assert forall|j: int| 0 <= j < i implies out@.dom().contains(
                #[trigger] h.pairs@[j].0@,
            ) by {
                if j < i - 1 {
                    assert(h.pairs@[j].0@ != h.pairs@[i - 1].0@);
                }
            }
        }
    }
    proof {
        crate::smap::lemma_pairs_map_props(h.pairs@);
        assert(out@.dom() =~= h@.dom()) by {
            assert forall|k: Seq<char>| h@.dom().contains(k) implies out@.dom().contains(k) by {
                let j = choose|j: int|
                    0 <= j < h.pairs@.len() && #[trigger] h.pairs@[j].0@ == k;
                assert(out@.dom().contains(h.pairs@[j].0@));
            }
            assert forall|k: Seq<char>| out@.dom().contains(k) implies h@.dom().contains(k) by {
                let j = choose|j: int| 0 <= j < h.pairs@.len() && #[trigger] h.pairs@[j].0@ == k;
                assert(h@.dom().contains(h.pairs@[j].0@));
            }
        }
        if env is Some {
            let m = env.unwrap();
            assert forall|k: Seq<char>| #[trigger] h@.dom().contains(k) implies expand_hardened(
                h@[k],
                m@,
            ) is Ok && out@[k] == expand_hardened(h@[k], m@)->Ok_0 by {
                let j = choose|j: int| 0 <= j < h.pairs@.len() && #[trigger] h.pairs@[j].0@ == k;
                assert(h@[h.pairs@[j].0@] == h.pairs@[j].1@);
            }
        } else {
            if forall|k: Seq<char>| #[trigger] h@.dom().contains(k) ==> dollar_free(h@[k]) {
                assert forall|k: Seq<char>| #[trigger] h@.dom().contains(k) implies out@[k]
                    == h@[k] by {
                    let j = choose|j: int|
                        0 <= j < h.pairs@.len() && #[trigger] h.pairs@[j].0@ == k;
                    assert(h@[h.pairs@[j].0@] == h.pairs@[j].1@);
                }
                assert(out@ =~= h@);
            }
        }
    }
    Ok(out)
}

/// When every string of the list expands, the whole list expands to the
/// list of the individual expansions.
proof fn lemma_expand_all_ok(vs: Seq<Seq<char>>, env: Map<Seq<char>, Seq<char>>)
    requires
        forall|j: int| 0 <= j < vs.len() ==> expand_hardened(#[trigger] vs[j], env) is Ok,
    ensures
        expand_all(vs, env) matches Ok(ts) && ts.len() == vs.len() && forall|j: int|
            0 <= j < vs.len() ==> #[trigger] ts[j] == expand_hardened(vs[j], env).unwrap(),
    decreases vs.len(),
{
    if vs.len() > 0 {
        assert(forall|j: int| 0 <= j < vs.len() - 1 ==> #[trigger] vs.skip(1)[j] == vs[j + 1]);
        lemma_expand_all_ok(vs.skip(1), env);
        let ts = expand_all(vs, env).unwrap();
        assert forall|j: int| 0 <= j < vs.len() implies #[trigger] ts[j] == expand_hardened(
            vs[j],
            env,
        ).unwrap() by {
            if j > 0 {
                assert(ts[j] == expand_all(vs.skip(1), env).unwrap()[j - 1]);
            }
        }
    }
}

/// If the first `i` strings expand and the `i`-th fails, the whole list
/// fails with that failure.
proof fn lemma_expand_all_err(vs: Seq<Seq<char>>, env: Map<Seq<char>, Seq<char>>, i: int)
    requires
        0 <= i < vs.len(),
        forall|j: int| 0 <= j < i ==> expand_hardened(#[trigger] vs[j], env) is Ok,
        expand_hardened(vs[i], env) is Err,
    ensures
        expand_all(vs, env) == Err::<Seq<Seq<char>>, ExpandFailure>(
            expand_hardened(vs[i], env)->Err_0,
        ),
    decreases vs.len(),
{
    if i > 0 {
        assert(forall|j: int| 0 <= j < i - 1 ==> vs.skip(1)[j] == vs[j + 1]);
        lemma_expand_all_err(vs.skip(1), env, i - 1);
    }
}

/// Evaluate the braced substitution `v[a .. b]`: the piece of output it
/// contributes, independent of what follows the brace.
fn brace_subst_exec(v: &Vec<char>, a: usize, b: usize, env: &StrMap) -> (r: Result<
    Vec<char>,
    ExpandFailure,
>)
    requires
        a <= b <= v@.len(),
        env.wf(),
    ensures
        brace_piece(v@, a as int, b as int, env@) == (match r {
            Ok(piece) => Ok::<Seq<char>, ExpandFailure>(piece@),
            Err(e) => Err::<Seq<char>, ExpandFailure>(e),
        }),
{
    let colon_opt = find_char(v, a, ':');
    proof {
        crate::strutil::lemma_find_from_props(v@, a as int, ':');
    }
    let has_colon: bool = match colon_opt {
        Some(k) => k < b,
        None => false,
    };
    if has_colon {
        let k = match colon_opt {
            Some(k) => k,
            None => 0,
        };
        let name = sub_chars(v, a, k);
        if !check_valid_name(&name) {
            return Err(ExpandFailure::Invalid);
        }
        if k + 1 < b && v[k + 1] == '-' {
            let name_s = chars_to_string(&name);
            let dflt = sub_chars(v, k + 2, b);
            match env.get(name_s.as_str()) {
                Some(val) => {
                    if val.as_str().unicode_len() > 0 {
                        let piece = str_to_chars(val.as_str());
                        return Ok(piece);
                    } else {
                        return Ok(dflt);
                    }
                },
                None => {
                    return Ok(dflt);
                },
            }
        } else {
            let ds = sub_chars(v, k + 1, b);
            if !check_all_digits(&ds) {
                return Err(ExpandFailure::Invalid);
            }
            let name_s = chars_to_string(&name);
            match env.get(name_s.as_str()) {
                Some(val) => {
                    let vc = str_to_chars(val.as_str());
                    proof {
                        lemma_digits_val_bounds(ds@);
                    }
                    let n = vc.len();
                    match parse_offset(&ds) {
                        Some(o) => {
                            if o <= n {
                                let piece = sub_chars(&vc, o, n);
                                proof {
                                    assert(piece@ =~= vc@.skip(o as int));
                                }
                                return Ok(piece);
                            } else {
                                return Ok(Vec::new());
                            }
                        },
                        None => {
                            proof {
                                assert(digits_val(ds@) > n);
                            }
                            return Ok(Vec::new());
                        },
                    }
                },
                None => {
                    return Err(ExpandFailure::Unbound);
                },
            }
        }
    } else {
        let name = sub_chars(v, a, b);
        if !check_valid_name(&name) {
            return Err(ExpandFailure::Invalid);
        }
        let name_s = chars_to_string(&name);
        match env.get(name_s.as_str()) {
            Some(val) => {
                let piece = str_to_chars(val.as_str());
                Ok(piece)
            },
            None => Err(ExpandFailure::Unbound),
        }
    }
}

} // verus!
