//! A profile's saved browser session: its cookies and its local storage.
use vstd::prelude::*;

use crate::text::{chars_of, push_chars};

verus! {

/// One saved cookie.  `same_site` holds the policy as its number (see
/// `same_site_to_i32`); `expires` is a Unix time in seconds.
#[derive(Debug, Clone, PartialEq)]
pub struct CookieData {
    pub name: String,
    pub value: String,
    pub domain: Option<String>,
    pub path: Option<String>,
    pub expires: Option<i64>,
    pub secure: bool,
    pub http_only: bool,
    pub same_site: i32,
    pub max_age: i32,
}

/// A saved session.  `local_storage` holds key and value pairs; a key occurs
/// at most once (see `storage_wf`).
#[derive(Debug, Clone, PartialEq)]
pub struct Session {
    pub cookies: Vec<CookieData>,
    pub local_storage: Vec<(String, String)>,
}

/// No local-storage key occurs twice.
pub open spec fn storage_wf(v: Seq<(String, String)>) -> bool {
    forall|i: int, j: int|
        0 <= i < v.len() && 0 <= j < v.len() && i != j ==> #[trigger] v[i].0@ != #[trigger] v[j].0@
}

impl Default for Session {
    fn default() -> (r: Self)
        ensures
            r.cookies@.len() == 0,
            r.local_storage@.len() == 0,
    {
        Session { cookies: Vec::new(), local_storage: Vec::new() }
    }
}

/// The cookies to put back into a profile's window from its saved session:
/// none when there is no saved session or it holds no cookie (then nothing
/// is restored), else all of them, in order.
pub fn cookies_to_restore(saved: Option<Session>) -> (r: Option<Vec<CookieData>>)
    ensures
        match saved {
            Some(s) if s.cookies@.len() > 0 => r == Some(s.cookies),
            _ => r is None,
        },
{
    match saved {
        Some(s) => {
            if s.cookies.len() > 0 {
                Some(s.cookies)
            } else {
                None
            }
        },
        None => None,
    }
}

/// The cookie same-site policies.
#[derive(Debug, Clone, Copy, PartialEq, Eq, Structural)]
pub enum SameSite {
    Unrestricted,
    Lax,
    Strict,
}

/// The stored number of a policy: 0, 1 and 2 for unrestricted, lax and strict.
pub open spec fn same_site_number(p: SameSite) -> i32 {
    match p {
        SameSite::Unrestricted => 0,
        SameSite::Lax => 1,
        SameSite::Strict => 2,
    }
}

/// The policy of a stored number: 1 is lax, 2 is strict, anything else
/// unrestricted.
pub open spec fn same_site_of(v: i32) -> SameSite {
    if v == 1 {
        SameSite::Lax
    } else if v == 2 {
        SameSite::Strict
    } else {
        SameSite::Unrestricted
    }
}

/// The number under which a policy is stored.
pub fn same_site_to_i32(p: SameSite) -> (v: i32)
    ensures
        v == same_site_number(p),
{
    match p {
        SameSite::Unrestricted => 0,
        SameSite::Lax => 1,
        SameSite::Strict => 2,
    }
}

/// The policy stored under a number.
pub fn same_site_from_i32(v: i32) -> (p: SameSite)
    ensures
        p == same_site_of(v),
{
    if v == 1 {
        SameSite::Lax
    } else if v == 2 {
        SameSite::Strict
    } else {
        SameSite::Unrestricted
    }
}

/// A policy read back from the number it was stored under is the policy
/// that was stored.
pub proof fn law_same_site_round_trip(p: SameSite)
    ensures
        same_site_of(same_site_number(p)) == p,
{
}

/// The key and value texts of local-storage pairs.
pub open spec fn pair_views(v: Seq<(String, String)>) -> Seq<(Seq<char>, Seq<char>)> {
    v.map_values(|e: (String, String)| (e.0@, e.1@))
}

/// The JSON text `serde_json::to_string` gives for a list of key and value
/// pairs, each written as a two-element array of strings.
pub uninterp spec fn json_string_pairs(pairs: Seq<(Seq<char>, Seq<char>)>) -> Seq<char>;

/// Calls `serde_json::to_string` on the pairs, each as a `[String; 2]`.
/// Trusted: the text is the one `json_string_pairs` names.  It always
/// succeeds: in serde_json 1.0.154 (`src/ser.rs`, `to_string` over `to_vec`)
/// the value is written into a `Vec<u8>`, whose writes cannot fail, and
/// arrays of strings raise no serializer error (no map keys, no custom
/// `Serialize`).
#[verifier::external_body]
fn pairs_to_json(pairs: &Vec<(String, String)>) -> (r: Result<String, String>)
    ensures
        match r {
            Ok(s) => s@ == json_string_pairs(pair_views(pairs@)),
            Err(_) => false,
        },
{
    let arr: Vec<[String; 2]> = pairs.iter().map(|(k, v)| [k.clone(), v.clone()]).collect();
    serde_json::to_string(&arr).map_err(|e| e.to_string())
}

/// The script that writes the pairs of the JSON array `json` into the page's
/// local storage, ignoring any pair the page refuses.
pub open spec fn storage_script(json: Seq<char>) -> Seq<char> {
    "(function(){var __items="@ + json
        + ";for(var i=0;i<__items.length;i++){try{localStorage.setItem(__items[i][0],__items[i][1]);}catch(e){}}})();"@
}

/// Builds the local-storage restore script around a JSON array of pairs.
pub fn local_storage_script(json: &str) -> (r: String)
    ensures
        r@ == storage_script(json@),
{
    let mut r = "(function(){var __items=".to_owned();
    push_chars(&mut r, &chars_of(json));
    push_chars(
        &mut r,
        &chars_of(
            ";for(var i=0;i<__items.length;i++){try{localStorage.setItem(__items[i][0],__items[i][1]);}catch(e){}}})();",
        ),
    );
    r
}

/// The script that puts a saved session's local storage back into a page.
pub fn restore_local_storage_js(session: &Session) -> (r: String)
    ensures
        r@ == storage_script(json_string_pairs(pair_views(session.local_storage@))),
{
    let json = match pairs_to_json(&session.local_storage) {
        Ok(j) => j,
        Err(_) => "[]".to_owned(),
    };
    local_storage_script(json.as_str())
}


/// The value of the last pair with key `k`, if any.
pub open spec fn last_value(pairs: Seq<(Seq<char>, Seq<char>)>, k: Seq<char>) -> Option<Seq<char>>
    decreases pairs.len(),
{
    if pairs.len() == 0 {
        None
    } else if pairs.last().0 == k {
        Some(pairs.last().1)
    } else {
        last_value(pairs.drop_last(), k)
    }
}

/// `storage` holds each key of `pairs` once, with the value of its last
/// pair (as collecting the pairs into a map does), and no other key.
pub open spec fn collected(pairs: Seq<(Seq<char>, Seq<char>)>, storage: Seq<(String, String)>) -> bool {
    &&& storage_wf(storage)
    &&& forall|i: int| 0 <= i < storage.len() ==> last_value(pairs, #[trigger] storage[i].0@) == Some(storage[i].1@)
    &&& forall|k: Seq<char>| last_value(pairs, k) is Some ==> exists|i: int| 0 <= i < storage.len() && #[trigger] storage[i].0@ == k
}

fn find_key(storage: &Vec<(String, String)>, k: &[char]) -> (r: Option<usize>)
    ensures
        match r {
            Some(i) => i < storage.len() && storage@[i as int].0@ == k@,
            None => forall|i: int| 0 <= i < storage.len() ==> #[trigger] storage@[i].0@ != k@,
        },
{
    let mut i: usize = 0;
    while i < storage.len()
        invariant
            i <= storage.len(),
            forall|j: int| 0 <= j < i ==> #[trigger] storage@[j].0@ != k@,
        decreases storage.len() - i,
    {
        if crate::text::chars_eq(&chars_of(storage[i].0.as_str()), k) {
            return Some(i);
        }
        i = i + 1;
    }
    None
}

/// Collects local-storage pairs the way a map does: one entry per key, the
/// last value winning.
pub fn collect_storage(pairs: Vec<(String, String)>) -> (r: Vec<(String, String)>)
    ensures
        collected(pair_views(pairs@), r@),
{
    let ghost pv = pair_views(pairs@);
    let mut r: Vec<(String, String)> = Vec::new();
    let mut i: usize = 0;
    while i < pairs.len()
        invariant
            i <= pairs.len(),
            pv == pair_views(pairs@),
            collected(pv.take(i as int), r@),
        decreases pairs.len() - i,
    {
        let ghost pre = pv.take(i as int);
        let ghost cur = pv.take(i + 1);
        assert(cur.drop_last() =~= pre);
        assert(cur.last() == (pairs@[i as int].0@, pairs@[i as int].1@));
        let k = pairs[i].0.clone();
        let v = pairs[i].1.clone();
        let ghost before = r@;
        match find_key(&r, &chars_of(k.as_str())) {
            Some(j) => {
                r.set(j, (k, v));
                proof {
                    assert forall|a: int, b: int|
                        0 <= a < r@.len() && 0 <= b < r@.len() && a != b implies #[trigger] r@[a].0@ != #[trigger] r@[b].0@ by {
                        if a != j && b != j {
                            assert(r@[a] == before[a] && r@[b] == before[b]);
                        } else if a == j {
                            assert(r@[b] == before[b]);
                        } else {
                            assert(r@[a] == before[a]);
                        }
                    }
                    assert forall|q: int| 0 <= q < r@.len() implies last_value(cur, #[trigger] r@[q].0@) == Some(r@[q].1@) by {
                        if q != j {
                            assert(r@[q] == before[q]);
                        }
                    }
                    assert forall|kk: Seq<char>| last_value(cur, kk) is Some implies exists|q: int|
                        0 <= q < r@.len() && #[trigger] r@[q].0@ == kk by {
                        if kk == cur.last().0 {
                            assert(r@[j as int].0@ == kk);
                        } else {
                            assert(last_value(pre, kk) is Some);
                            let q = choose|q: int| 0 <= q < before.len() && #[trigger] before[q].0@ == kk;
                            assert(r@[q].0@ == kk);
                        }
                    }
                }
            },
            None => {
                r.push((k, v));
                proof {
                    assert forall|a: int, b: int|
                        0 <= a < r@.len() && 0 <= b < r@.len() && a != b implies #[trigger] r@[a].0@ != #[trigger] r@[b].0@ by {
                        if a < before.len() && b < before.len() {
                            assert(r@[a] == before[a] && r@[b] == before[b]);
                        } else if a < before.len() {
                            assert(r@[a] == before[a]);
                        } else {
                            assert(r@[b] == before[b]);
                        }
                    }
                    assert forall|q: int| 0 <= q < r@.len() implies last_value(cur, #[trigger] r@[q].0@) == Some(r@[q].1@) by {
                        if q < before.len() {
                            assert(r@[q] == before[q]);
                        }
                    }
                    assert forall|kk: Seq<char>| last_value(cur, kk) is Some implies exists|q: int|
                        0 <= q < r@.len() && #[trigger] r@[q].0@ == kk by {
                        if kk == cur.last().0 {
                            assert(r@[before.len() as int].0@ == kk);
                        } else {
                            assert(last_value(pre, kk) is Some);
                            let q = choose|q: int| 0 <= q < before.len() && #[trigger] before[q].0@ == kk;
                            assert(r@[q].0@ == kk);
                        }
                    }
                }
            },
        }
        i = i + 1;
    }
    assert(pv.take(pairs.len() as int) =~= pv);
    r
}

/// What `serde_json::from_str::<Vec<[String; 2]>>` makes of `raw`: the
/// key and value pairs, or `None` when it is not such a JSON array.
pub uninterp spec fn json_pairs_parsed(raw: Seq<char>) -> Option<Seq<(Seq<char>, Seq<char>)>>;

/// Calls `serde_json::from_str::<Vec<[String; 2]>>`.  Trusted: the result is
/// the one `json_pairs_parsed` names for this text.  In serde_json 1.0.154
/// (`src/de.rs`, `from_str`) the parse reads the text alone and reports
/// malformed input as an error, which becomes `None` here.
#[verifier::external_body]
fn parse_pairs(raw: &str) -> (r: Option<Vec<(String, String)>>)
    ensures
        match r {
            Some(v) => json_pairs_parsed(raw@) == Some(pair_views(v@)),
            None => json_pairs_parsed(raw@) is None,
        },
{
    serde_json::from_str::<Vec<[String; 2]>>(raw).ok().map(
        |v| v.into_iter().map(|[k, val]| (k, val)).collect(),
    )
}

/// The local storage read from a page, from the JSON the page returned
/// (`JSON.stringify(Object.entries(localStorage))`), when it returned one.
pub open spec fn storage_from(raw: Option<Seq<char>>, storage: Seq<(String, String)>) -> bool {
    match raw {
        Some(t) => match json_pairs_parsed(t) {
            Some(p) => collected(p, storage),
            None => storage.len() == 0,
        },
        None => storage.len() == 0,
    }
}

/// The local storage to save from what the page returned; nothing when the
/// page returned nothing or something unreadable.
pub fn local_storage_from_page(raw: Option<&str>) -> (r: Vec<(String, String)>)
    ensures
        storage_from(
            match raw {
                Some(t) => Some(t@),
                None => None,
            },
            r@,
        ),
{
    match raw {
        Some(t) => match parse_pairs(t) {
            Some(p) => collect_storage(p),
            None => Vec::new(),
        },
        None => Vec::new(),
    }
}
} // verus!
