//! The session token: handing it to the web app, and finding it in a URL.
use vstd::prelude::*;

use crate::text::{chars_eq, chars_of, opt_view, push_chars, split_at_char, split_exec, string_of};
use crate::urlparts::{parse_url, parts_view, url_parsed, UrlParts};

verus! {

pub open spec fn token_script_part0() -> Seq<char> {
    "\n        (function() {\n            try {\n                localStorage.setItem('token', '"@
}

pub open spec fn token_script_part1() -> Seq<char> {
    "');\n                sessionStorage.setItem('token', '"@
}

pub open spec fn token_script_part2() -> Seq<char> {
    "');\n                document.cookie = 'token="@
}

pub open spec fn token_script_part3() -> Seq<char> {
    "; path=/; domain=.qwen.ai; secure; samesite=lax';\n                document.cookie = 'token="@
}

pub open spec fn token_script_part4() -> Seq<char> {
    "; path=/; domain=.chat.qwen.ai; secure; samesite=lax';\n            } catch(e) {\n                console.error('[Token] Injection failed:', e);\n            }\n        })();\n        "@
}

/// The script that stores `token` in the page's local and session storage
/// and in the cookies of `.qwen.ai` and `.chat.qwen.ai`.
pub open spec fn token_script(token: Seq<char>) -> Seq<char> {
    token_script_part0() + token + token_script_part1() + token + token_script_part2() + token
        + token_script_part3() + token + token_script_part4()
}

/// The script that stores `token` in the page's storage and cookies.
pub fn inject_token_script(token: &str) -> (s: String)
    ensures
        s@ == token_script(token@),
{
    let t = chars_of(token);
    let mut s = "\n        (function() {\n            try {\n                localStorage.setItem('token', '".to_owned();
    push_chars(&mut s, &t);
    push_chars(&mut s, &chars_of("');\n                sessionStorage.setItem('token', '"));
    push_chars(&mut s, &t);
    push_chars(&mut s, &chars_of("');\n                document.cookie = 'token="));
    push_chars(&mut s, &t);
    push_chars(
        &mut s,
        &chars_of("; path=/; domain=.qwen.ai; secure; samesite=lax';\n                document.cookie = 'token="),
    );
    push_chars(&mut s, &t);
    push_chars(
        &mut s,
        &chars_of(
            "; path=/; domain=.chat.qwen.ai; secure; samesite=lax';\n            } catch(e) {\n                console.error('[Token] Injection failed:', e);\n            }\n        })();\n        ",
        ),
    );
    s
}

/// Index of the first `c` in `s`, or -1.
pub open spec fn first_char(s: Seq<char>, c: char) -> int
    decreases s.len(),
{
    if s.len() == 0 {
        -1
    } else if s[0] == c {
        0
    } else if first_char(s.drop_first(), c) < 0 {
        -1
    } else {
        first_char(s.drop_first(), c) + 1
    }
}

proof fn lemma_first_char(s: Seq<char>, c: char)
    ensures
        -1 <= first_char(s, c) < s.len(),
        first_char(s, c) >= 0 ==> s[first_char(s, c)] == c && forall|j: int|
            0 <= j < first_char(s, c) ==> s[j] != c,
        first_char(s, c) < 0 ==> forall|j: int| 0 <= j < s.len() ==> s[j] != c,
    decreases s.len(),
{
    if s.len() > 0 {
        lemma_first_char(s.drop_first(), c);
        if s[0] != c {
            assert forall|j: int| 1 <= j < s.len() implies s[j] == s.drop_first()[j - 1] by {}
        }
    }
}

/// `str::split_once('=')`: the text before and after the first '='.
pub open spec fn key_value(param: Seq<char>) -> Option<(Seq<char>, Seq<char>)> {
    let i = first_char(param, '=');
    if i < 0 {
        None
    } else {
        Some((param.take(i), param.skip(i + 1)))
    }
}

/// The value of the first `access_token=` or `token=` parameter.
pub open spec fn token_in(params: Seq<Seq<char>>) -> Option<Seq<char>>
    decreases params.len(),
{
    if params.len() == 0 {
        None
    } else {
        match key_value(params[0]) {
            Some((k, v)) => if k == "access_token"@ || k == "token"@ {
                Some(v)
            } else {
                token_in(params.drop_first())
            },
            None => token_in(params.drop_first()),
        }
    }
}

/// The token carried by `url`: looked for first among the `&`-separated
/// parameters of the fragment, then of the query.
pub open spec fn url_token(url: Seq<char>) -> Option<Seq<char>> {
    match url_parsed(url) {
        Ok(parts) => parts_token(parts.1),
        Err(_) => None,
    }
}

/// The token carried by a parsed URL's fragment or, failing that, its query.
pub open spec fn parts_token(parts: (Option<Seq<char>>, Seq<char>, Option<Seq<char>>, Option<Seq<char>>)) -> Option<
    Seq<char>,
> {
    let in_fragment = match parts.3 {
        Some(f) => token_in(split_at_char(f, '&')),
        None => None,
    };
    if in_fragment is Some {
        in_fragment
    } else {
        match parts.2 {
            Some(q) => token_in(split_at_char(q, '&')),
            None => None,
        }
    }
}

fn key_value_exec(param: &[char]) -> (r: Option<(Vec<char>, Vec<char>)>)
    ensures
        match r {
            Some((k, v)) => key_value(param@) == Some((k@, v@)),
            None => key_value(param@) is None,
        },
{
    proof {
        lemma_first_char(param@, '=');
    }
    let mut i: usize = 0;
    while i < param.len() && param[i] != '='
        invariant
            i <= param.len(),
            forall|j: int| 0 <= j < i ==> param@[j] != '=',
        decreases param.len() - i,
    {
        i = i + 1;
    }
    if i == param.len() {
        return None;
    }
    let mut k: Vec<char> = Vec::new();
    let mut j: usize = 0;
    while j < i
        invariant
            j <= i < param.len(),
            k@ == param@.take(j as int),
        decreases i - j,
    {
        k.push(param[j]);
        assert(param@.take(j as int).push(param@[j as int]) =~= param@.take(j + 1));
        j = j + 1;
    }
    let mut v: Vec<char> = Vec::new();
    let mut j: usize = i + 1;
    while j < param.len()
        invariant
            i + 1 <= j <= param.len(),
            v@ == param@.subrange(i + 1, j as int),
        decreases param.len() - j,
    {
        v.push(param[j]);
        assert(param@.subrange(i + 1, j as int).push(param@[j as int]) =~= param@.subrange(i + 1, j + 1));
        j = j + 1;
    }
    assert(v@ =~= param@.skip(i + 1));
    Some((k, v))
}

fn token_in_exec(params: &Vec<Vec<char>>, pv: Ghost<Seq<Seq<char>>>) -> (r: Option<String>)
    requires
        params.len() == pv@.len(),
        forall|i: int| 0 <= i < params.len() ==> #[trigger] params@[i]@ == pv@[i],
    ensures
        opt_view(r) == token_in(pv@),
{
    let access = chars_of("access_token");
    let tok = chars_of("token");
    let mut i: usize = 0;
    assert(pv@.skip(0) =~= pv@);
    while i < params.len()
        invariant
            i <= params.len(),
            params.len() == pv@.len(),
            forall|k: int| 0 <= k < params.len() ==> #[trigger] params@[k]@ == pv@[k],
            token_in(pv@) == token_in(pv@.skip(i as int)),
            access@ == "access_token"@,
            tok@ == "token"@,
        decreases params.len() - i,
    {
        assert(pv@.skip(i as int)[0] == pv@[i as int]);
        assert(pv@.skip(i as int).drop_first() =~= pv@.skip(i + 1));
        match key_value_exec(&params[i]) {
            Some((k, v)) => {
                if chars_eq(&k, &access) || chars_eq(&k, &tok) {
                    return Some(string_of(&v));
                }
            },
            None => {},
        }
        i = i + 1;
    }
    assert(pv@.skip(i as int) =~= Seq::<Seq<char>>::empty());
    None
}

/// The token carried by a parsed URL, if any.
pub fn token_from_parts(parsed: &UrlParts) -> (r: Option<String>)
    ensures
        opt_view(r) == parts_token(parts_view(*parsed)),
{
    match &parsed.fragment {
        Some(f) => {
            let fc = chars_of(f.as_str());
            let params = split_exec(&fc, '&');
            let found = token_in_exec(&params, Ghost(split_at_char(fc@, '&')));
            if found.is_some() {
                return found;
            }
        },
        None => {},
    }
    match &parsed.query {
        Some(q) => {
            let qc = chars_of(q.as_str());
            let params = split_exec(&qc, '&');
            token_in_exec(&params, Ghost(split_at_char(qc@, '&')))
        },
        None => None,
    }
}

/// The token carried by `url`, if any (first in the fragment, then in the
/// query; `access_token` and `token` are both accepted).
pub fn extract_token_from_url(url: &str) -> (r: Option<String>)
    ensures
        opt_view(r) == url_token(url@),
{
    match parse_url(url) {
        Ok(parsed) => token_from_parts(&parsed),
        Err(_) => None,
    }
}

} // verus!
