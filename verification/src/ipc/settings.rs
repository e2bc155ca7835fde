//! The checks on settings the page reads and writes by key.
use vstd::prelude::*;

use crate::text::{byte_len, chars_eq, chars_of, starts_with, starts_with_exec, utf8_len};

verus! {

/// The keys the settings file is known to use.
pub open spec fn known_keys() -> Seq<Seq<char>> {
    seq!["general"@, "theme"@, "language"@, "check_updates"@, "checkUpdates"@, "zoom"@, "notifications"@]
}

fn known_key_list() -> (v: Vec<&'static str>)
    ensures
        v.len() == known_keys().len(),
        forall|i: int| 0 <= i < v.len() ==> #[trigger] v@[i]@ == known_keys()[i],
{
    vec!["general", "theme", "language", "check_updates", "checkUpdates", "zoom", "notifications"]
}

/// A key is valid when its UTF-8 text has 1 to 128 bytes.
pub open spec fn key_valid(key: Seq<char>) -> bool {
    0 < utf8_len(key) <= 128
}

/// The largest serialized value stored, 1 MiB.
pub const MAX_SETTING_VALUE_BYTES: usize = 1048576;

/// Checks a key the page reads.
pub fn check_setting_key(key: &str) -> (r: Result<(), String>)
    ensures
        r is Ok == key_valid(key@),
        r matches Err(e) ==> e@ == "Invalid key"@,
{
    let n = byte_len(key);
    if n > 128 || n == 0 {
        return Err("Invalid key".to_owned());
    }
    Ok(())
}

/// The outcome of a write of a value whose JSON text is `value_json` under
/// `key`: invalid keys are refused, the MCP server list may not be written
/// this way, and values over 1 MiB are refused.
pub open spec fn write_check(key: Seq<char>, value_json: Seq<char>) -> Result<(), Seq<char>> {
    if !key_valid(key) {
        Err("Invalid key"@)
    } else if key == "mcpServers"@ || key == "mcp_servers"@ {
        Err("Use mcp_client_update_config for MCP servers"@)
    } else if utf8_len(value_json) > MAX_SETTING_VALUE_BYTES {
        Err("Value too large"@)
    } else {
        Ok(())
    }
}

/// Checks a write of the value whose JSON text is `value_json` under `key`.
pub fn check_setting_write(key: &str, value_json: &str) -> (r: Result<(), String>)
    ensures
        match (r, write_check(key@, value_json@)) {
            (Ok(_), Ok(_)) => true,
            (Err(e), Err(f)) => e@ == f,
            _ => false,
        },
{
    check_setting_key(key)?;
    let kc = chars_of(key);
    if chars_eq(&kc, &chars_of("mcpServers")) || chars_eq(&kc, &chars_of("mcp_servers")) {
        return Err("Use mcp_client_update_config for MCP servers".to_owned());
    }
    if byte_len(value_json) > MAX_SETTING_VALUE_BYTES {
        return Err("Value too large".to_owned());
    }
    Ok(())
}

/// A key the settings file is known to use, or one under `general.`.
pub open spec fn known_key(key: Seq<char>) -> bool {
    known_keys().contains(key) || starts_with(key, "general."@)
}

/// Whether `key` is one the settings file is known to use (unknown keys are
/// still written, and only reported).
pub fn is_known_setting_key(key: &str) -> (b: bool)
    ensures
        b == known_key(key@),
{
    let kc = chars_of(key);
    let keys = known_key_list();
    let mut i: usize = 0;
    while i < keys.len()
        invariant
            i <= keys.len(),
            kc@ == key@,
            keys.len() == known_keys().len(),
            forall|k: int| 0 <= k < keys.len() ==> #[trigger] keys@[k]@ == known_keys()[k],
            forall|k: int| 0 <= k < i ==> known_keys()[k] != key@,
        decreases keys.len() - i,
    {
        if chars_eq(&kc, &chars_of(keys[i])) {
            assert(known_keys()[i as int] == key@);
            return true;
        }
        i = i + 1;
    }
    assert(!known_keys().contains(key@));
    starts_with_exec(&kc, &chars_of("general."))
}

/// The stored settings hold `k`.
pub open spec fn has_key<V>(s: Seq<(String, V)>, k: Seq<char>) -> bool {
    exists|i: int| 0 <= i < s.len() && #[trigger] s[i].0@ == k
}

/// No key occurs twice among the stored settings (as in a JSON object).
pub open spec fn keys_distinct<V>(s: Seq<(String, V)>) -> bool {
    forall|i: int, j: int| 0 <= i < j < s.len() ==> #[trigger] s[i].0@ != #[trigger] s[j].0@
}

/// The value stored under `k`.
pub open spec fn value_at<V>(s: Seq<(String, V)>, k: Seq<char>) -> V {
    s[choose|i: int| 0 <= i < s.len() && #[trigger] s[i].0@ == k].1
}

/// `t` is `s` with `value` stored under `key`: the same keys plus `key`,
/// each with its old value but `key`, which has `value`.
pub open spec fn written<V>(s: Seq<(String, V)>, key: Seq<char>, value: V, t: Seq<(String, V)>) -> bool {
    &&& keys_distinct(t)
    &&& forall|k: Seq<char>| #[trigger] has_key(t, k) == (has_key(s, k) || k == key)
    &&& value_at(t, key) == value
    &&& forall|k: Seq<char>| has_key(s, k) && k != key ==> #[trigger] value_at(t, k) == value_at(s, k)
}

proof fn lemma_value_at<V>(s: Seq<(String, V)>, i: int)
    requires
        keys_distinct(s),
        0 <= i < s.len(),
    ensures
        value_at(s, s[i].0@) == s[i].1,
{
    let k = s[i].0@;
    assert(s[i].0@ == k);
    let j = choose|j: int| 0 <= j < s.len() && #[trigger] s[j].0@ == k;
    if j != i {
        if j < i {
            assert(s[j].0@ != s[i].0@);
        } else {
            assert(s[i].0@ != s[j].0@);
        }
    }
}

/// Writes the value `value`, whose JSON text is `value_json`, under `key`
/// into the stored settings (`None` when the settings file does not hold an
/// object: then nothing is stored, but the write is still accepted).  The
/// write is refused as `check_setting_write` says.
pub fn write_setting<V>(stored: Option<Vec<(String, V)>>, key: String, value_json: &str, value: V) -> (r: Result<
    Option<Vec<(String, V)>>,
    String,
>)
    requires
        stored matches Some(s) ==> keys_distinct(s@),
    ensures
        match (r, write_check(key@, value_json@)) {
            (Ok(t), Ok(_)) => match stored {
                None => t is None,
                Some(s) => t matches Some(u) && written(s@, key@, value, u@),
            },
            (Err(e), Err(f)) => e@ == f,
            _ => false,
        },
{
    match check_setting_write(key.as_str(), value_json) {
        Err(e) => return Err(e),
        Ok(_) => {},
    }
    let mut s = match stored {
        None => return Ok(None),
        Some(s) => s,
    };
    let ghost old_s = s@;
    let kc = chars_of(key.as_str());
    let mut found: Option<usize> = None;
    let mut i: usize = 0;
    while i < s.len()
        invariant
            i <= s.len(),
            s@ == old_s,
            kc@ == key@,
            found matches Some(f) ==> f < i && old_s[f as int].0@ == key@,
            found is None ==> forall|j: int| 0 <= j < i ==> #[trigger] old_s[j].0@ != key@,
        decreases s.len() - i,
    {
        if found.is_none() && chars_eq(&chars_of(s[i].0.as_str()), &kc) {
            found = Some(i);
        }
        i = i + 1;
    }
    let ghost kv = key@;
    match found {
        Some(f) => {
            s.set(f, (key, value));
            proof {
                let t = s@;
                assert(t == old_s.update(f as int, t[f as int]));
                assert(t[f as int].0@ == kv);
                assert forall|a: int, b: int| 0 <= a < b < t.len() implies #[trigger] t[a].0@ != #[trigger] t[b].0@ by {
                    assert(old_s[a].0@ != old_s[b].0@);
                }
                assert forall|k: Seq<char>| #[trigger] has_key(t, k) == (has_key(old_s, k) || k == kv) by {
                    if has_key(t, k) {
                        let a = choose|a: int| 0 <= a < t.len() && #[trigger] t[a].0@ == k;
                        assert(old_s[a].0@ == k);
                    }
                    if has_key(old_s, k) {
                        let a = choose|a: int| 0 <= a < old_s.len() && #[trigger] old_s[a].0@ == k;
                        assert(t[a].0@ == k);
                    }
                    if k == kv {
                        assert(t[f as int].0@ == k);
                    }
                }
                lemma_value_at(t, f as int);
                assert forall|k: Seq<char>| has_key(old_s, k) && k != kv implies #[trigger] value_at(t, k) == value_at(old_s, k) by {
                    let a = choose|a: int| 0 <= a < old_s.len() && #[trigger] old_s[a].0@ == k;
                    lemma_value_at(old_s, a);
                    assert(t[a] == old_s[a]);
                    lemma_value_at(t, a);
                }
            }
        },
        None => {
            s.push((key, value));
            proof {
                let t = s@;
                let n = old_s.len() as int;
                assert(t == old_s.push(t[n]));
                assert(t[n].0@ == kv);
                assert forall|a: int, b: int| 0 <= a < b < t.len() implies #[trigger] t[a].0@ != #[trigger] t[b].0@ by {
                    if b < n {
                        assert(old_s[a].0@ != old_s[b].0@);
                    } else {
                        assert(old_s[a].0@ != kv);
                    }
                }
                assert forall|k: Seq<char>| #[trigger] has_key(t, k) == (has_key(old_s, k) || k == kv) by {
                    if has_key(t, k) {
                        let a = choose|a: int| 0 <= a < t.len() && #[trigger] t[a].0@ == k;
                        if a < n {
                            assert(old_s[a].0@ == k);
                        }
                    }
                    if has_key(old_s, k) {
                        let a = choose|a: int| 0 <= a < old_s.len() && #[trigger] old_s[a].0@ == k;
                        assert(t[a].0@ == k);
                    }
                    if k == kv {
                        assert(t[n].0@ == k);
                    }
                }
                lemma_value_at(t, n);
                assert forall|k: Seq<char>| has_key(old_s, k) && k != kv implies #[trigger] value_at(t, k) == value_at(old_s, k) by {
                    let a = choose|a: int| 0 <= a < old_s.len() && #[trigger] old_s[a].0@ == k;
                    lemma_value_at(old_s, a);
                    assert(t[a] == old_s[a]);
                    lemma_value_at(t, a);
                }
            }
        },
    }
    Ok(Some(s))
}

/// The value stored under `k`, if any.
pub open spec fn setting_read<V>(s: Seq<(String, V)>, k: Seq<char>) -> Option<V> {
    if has_key(s, k) {
        Some(value_at(s, k))
    } else {
        None
    }
}

/// Reads the value stored under `key` (nothing when the settings file does
/// not hold an object); an invalid key is refused.
pub fn read_setting<'a, V>(stored: Option<&'a Vec<(String, V)>>, key: &str) -> (r: Result<Option<&'a V>, String>)
    requires
        stored matches Some(s) ==> keys_distinct(s@),
    ensures
        r is Ok == key_valid(key@),
        r matches Err(e) ==> e@ == "Invalid key"@,
        r matches Ok(o) ==> match stored {
            None => o is None,
            Some(s) => match setting_read(s@, key@) {
                Some(v) => o == Some(&v),
                None => o is None,
            },
        },
{
    match check_setting_key(key) {
        Err(e) => return Err(e),
        Ok(_) => {},
    }
    let s = match stored {
        None => return Ok(None),
        Some(s) => s,
    };
    let kc = chars_of(key);
    let mut i: usize = 0;
    while i < s.len()
        invariant
            i <= s.len(),
            kc@ == key@,
            key_valid(key@),
            keys_distinct(s@),
            stored == Some(s),
            forall|j: int| 0 <= j < i ==> #[trigger] s@[j].0@ != key@,
        decreases s.len() - i,
    {
        if chars_eq(&chars_of(s[i].0.as_str()), &kc) {
            proof {
                lemma_value_at(s@, i as int);
                assert(s@[i as int].0@ == key@);
                assert(has_key(s@, key@));
            }
            return Ok(Some(&s[i].1));
        }
        i = i + 1;
    }
    assert(!has_key(s@, key@)) by {
        if has_key(s@, key@) {
            let j = choose|j: int| 0 <= j < s@.len() && #[trigger] s@[j].0@ == key@;
        }
    }
    Ok(None)
}

/// A value written under a key is read back from the settings written, and
/// every other key reads as before.
pub proof fn law_write_then_read<V>(s: Seq<(String, V)>, key: Seq<char>, value: V, t: Seq<(String, V)>)
    requires
        written(s, key, value, t),
    ensures
        setting_read(t, key) == Some(value),
        forall|k: Seq<char>| k != key ==> #[trigger] setting_read(t, k) == setting_read(s, k),
{
    assert(has_key(t, key));
    assert forall|k: Seq<char>| k != key implies #[trigger] setting_read(t, k) == setting_read(s, k) by {
        assert(has_key(t, k) == has_key(s, k));
    }
}

} // verus!
