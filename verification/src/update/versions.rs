//! Comparing version numbers.
use vstd::prelude::*;

use crate::text::{split_at_char, split_exec};

verus! {

/// `c` is an ASCII digit.
pub open spec fn is_digit(c: char) -> bool {
    '0' <= c && c <= '9'
}

/// The number an ASCII digit string stands for.
pub open spec fn digits_value(s: Seq<char>) -> nat
    decreases s.len(),
{
    if s.len() == 0 {
        0
    } else {
        digits_value(s.drop_last()) * 10 + ((s.last() as u32) - 48) as nat
    }
}

/// What `str::parse::<u32>` gives: an optional `+` sign, then one or more
/// ASCII digits whose value fits in 32 bits.
pub open spec fn parsed_u32(s: Seq<char>) -> Option<u32> {
    let d = unsigned_digits(s);
    if d.len() > 0 && all_digits(d) && digits_value(d) <= u32::MAX {
        Some(digits_value(d) as u32)
    } else {
        None
    }
}

/// The text after an optional leading `+`.
pub open spec fn unsigned_digits(s: Seq<char>) -> Seq<char> {
    if s.len() > 0 && s[0] == '+' {
        s.drop_first()
    } else {
        s
    }
}

/// Every character is an ASCII digit.
pub open spec fn all_digits(d: Seq<char>) -> bool {
    forall|i: int| 0 <= i < d.len() ==> is_digit(#[trigger] d[i])
}

/// Parses a number the way `str::parse::<u32>` does.
pub fn parse_u32(s: &[char]) -> (r: Option<u32>)
    ensures
        r == parsed_u32(s@),
{
    let start: usize = if s.len() > 0 && s[0] == '+' {
        1
    } else {
        0
    };
    let ghost d = unsigned_digits(s@);
    assert(d =~= s@.subrange(start as int, s.len() as int));
    if start >= s.len() {
        return None;
    }
    let mut acc: u64 = 0;
    let mut i: usize = start;
    while i < s.len()
        invariant
            start <= i <= s.len(),
            d == s@.subrange(start as int, s.len() as int),
            d == unsigned_digits(s@),
            acc <= u32::MAX,
            acc == digits_value(s@.subrange(start as int, i as int)),
            forall|k: int| start <= k < i ==> is_digit(#[trigger] s@[k]),
        decreases s.len() - i,
    {
        let c = s[i];
        let ghost pre = s@.subrange(start as int, i as int);
        let ghost cur = s@.subrange(start as int, i + 1);
        assert(cur.drop_last() =~= pre);
        if !('0' <= c && c <= '9') {
            assert(!is_digit(d[i - start]));
            assert(!all_digits(d));
            return None;
        }
        let v = (c as u32 - 48) as u64;
        acc = acc * 10 + v;
        assert(cur.last() == c);
        if acc > 0xffff_ffff {
            proof {
                assert(d.subrange(0, i + 1 - start) =~= cur);
                if all_digits(d) {
                    lemma_digits_value_prefix(d, (i + 1 - start) as int);
                }
            }
            return None;
        }
        i = i + 1;
    }
    proof {
        assert forall|k: int| 0 <= k < d.len() implies is_digit(#[trigger] d[k]) by {
            assert(d[k] == s@[start + k]);
        }
    }
    Some(acc as u32)
}

/// A longer digit string is worth at least as much as its prefix.
proof fn lemma_digits_value_prefix(d: Seq<char>, n: int)
    requires
        0 <= n <= d.len(),
        all_digits(d),
    ensures
        digits_value(d.subrange(0, n)) <= digits_value(d),
    decreases d.len() - n,
{
    if n < d.len() {
        lemma_digits_value_prefix(d, n + 1);
        assert(d.subrange(0, n + 1).drop_last() =~= d.subrange(0, n));
    } else {
        assert(d.subrange(0, n) =~= d);
    }
}

/// The numeric parts of a version, in order; parts that are not numbers
/// are skipped.
pub open spec fn numeric_parts(parts: Seq<Seq<char>>) -> Seq<u32>
    decreases parts.len(),
{
    if parts.len() == 0 {
        Seq::empty()
    } else {
        match parsed_u32(parts.last()) {
            Some(n) => numeric_parts(parts.drop_last()).push(n),
            None => numeric_parts(parts.drop_last()),
        }
    }
}

/// The numbers of a dotted version string.
pub open spec fn version_numbers(v: Seq<char>) -> Seq<u32> {
    numeric_parts(split_at_char(v, '.'))
}

/// `a` without its first element (empty stays empty).
pub open spec fn rest(a: Seq<u32>) -> Seq<u32> {
    if a.len() == 0 {
        a
    } else {
        a.drop_first()
    }
}

/// The first element of `a`, or 0 when empty.
pub open spec fn head_or_zero(a: Seq<u32>) -> u32 {
    if a.len() == 0 {
        0
    } else {
        a[0]
    }
}

/// Compares number lists part by part, a missing part counting as 0:
/// -1 when `a` is older, 1 when newer, 0 when equal.
pub open spec fn compare_numbers(a: Seq<u32>, b: Seq<u32>) -> int
    decreases a.len() + b.len(),
{
    if a.len() == 0 && b.len() == 0 {
        0
    } else if head_or_zero(a) < head_or_zero(b) {
        -1
    } else if head_or_zero(a) > head_or_zero(b) {
        1
    } else {
        compare_numbers(rest(a), rest(b))
    }
}

/// `a` from index `i` on; empty past its end.
pub open spec fn from_index(a: Seq<u32>, i: int) -> Seq<u32> {
    if i >= a.len() {
        Seq::empty()
    } else {
        a.subrange(i, a.len() as int)
    }
}

fn numbers_of(v: &str) -> (r: Vec<u32>)
    ensures
        r@ == version_numbers(v@),
{
    let parts = split_exec(&crate::text::chars_of(v), '.');
    let ghost ps = split_at_char(v@, '.');
    let mut r: Vec<u32> = Vec::new();
    let mut i: usize = 0;
    while i < parts.len()
        invariant
            i <= parts.len(),
            parts.len() == ps.len(),
            forall|k: int| 0 <= k < parts.len() ==> #[trigger] parts@[k]@ == ps[k],
            r@ == numeric_parts(ps.take(i as int)),
        decreases parts.len() - i,
    {
        assert(ps.take(i + 1).drop_last() =~= ps.take(i as int));
        assert(ps.take(i + 1).last() == parts@[i as int]@);
        match parse_u32(&parts[i]) {
            Some(n) => r.push(n),
            None => {},
        }
        i = i + 1;
    }
    assert(ps.take(parts.len() as int) =~= ps);
    r
}

/// Compares the versions `current` and `latest` (dotted numbers): -1 when
/// `latest` is newer, 1 when older, 0 when they are the same.
pub fn compare_versions(current: &str, latest: &str) -> (r: i32)
    ensures
        r as int == compare_numbers(version_numbers(current@), version_numbers(latest@)),
{
    let a = numbers_of(current);
    let b = numbers_of(latest);
    let n = if a.len() > b.len() {
        a.len()
    } else {
        b.len()
    };
    let mut i: usize = 0;
    assert(from_index(a@, 0) =~= a@) by {
        if a@.len() > 0 {
            assert(a@.subrange(0, a@.len() as int) =~= a@);
        }
    }
    assert(from_index(b@, 0) =~= b@) by {
        if b@.len() > 0 {
            assert(b@.subrange(0, b@.len() as int) =~= b@);
        }
    }
    while i < n
        invariant
            i <= n,
            n == if a.len() > b.len() {
                a.len()
            } else {
                b.len()
            },
            compare_numbers(a@, b@) == compare_numbers(from_index(a@, i as int), from_index(b@, i as int)),
            a@ == version_numbers(current@),
            b@ == version_numbers(latest@),
        decreases n - i,
    {
        let x: u32 = if i < a.len() {
            a[i]
        } else {
            0
        };
        let y: u32 = if i < b.len() {
            b[i]
        } else {
            0
        };
        proof {
            let fa = from_index(a@, i as int);
            let fb = from_index(b@, i as int);
            assert(head_or_zero(fa) == x);
            assert(head_or_zero(fb) == y);
            assert(rest(fa) =~= from_index(a@, i + 1));
            assert(rest(fb) =~= from_index(b@, i + 1));
        }
        if x < y {
            return -1;
        }
        if x > y {
            return 1;
        }
        i = i + 1;
    }
    assert(from_index(a@, i as int) =~= Seq::<u32>::empty());
    assert(from_index(b@, i as int) =~= Seq::<u32>::empty());
    0
}

/// Swapping the versions swaps the answer.
pub proof fn law_compare_antisymmetric(a: Seq<u32>, b: Seq<u32>)
    ensures
        compare_numbers(a, b) == -compare_numbers(b, a),
    decreases a.len() + b.len(),
{
    if !(a.len() == 0 && b.len() == 0) && head_or_zero(a) == head_or_zero(b) {
        law_compare_antisymmetric(rest(a), rest(b));
    }
}

/// A version is the same as itself.
pub proof fn law_compare_reflexive(a: Seq<u32>)
    ensures
        compare_numbers(a, a) == 0,
    decreases a.len(),
{
    if a.len() > 0 {
        law_compare_reflexive(rest(a));
    }
}

/// Trailing zero parts do not change a version (`1.2` and `1.2.0` are the
/// same).
pub proof fn law_trailing_zero(a: Seq<u32>)
    ensures
        compare_numbers(a.push(0), a) == 0,
    decreases a.len(),
{
    if a.len() == 0 {
        assert(a.push(0) =~= seq![0u32]);
        assert(rest(seq![0u32]) =~= Seq::<u32>::empty());
        assert(rest(a.push(0)) =~= a);
        assert(compare_numbers(a, a) == 0);
    } else {
        assert(rest(a.push(0)) =~= rest(a).push(0));
        law_trailing_zero(rest(a));
    }
}


/// A manual check within a minute of the previous one (when there was one)
/// is answered from the cache.
pub open spec fn answer_from_cache(silent: bool, now: u64, last: u64) -> bool {
    !silent && last != 0 && (if now >= last {
        now - last
    } else {
        0
    }) < 60
}

/// Whether a check requested at `now` (seconds) is answered from the cache,
/// given the time `last` of the previous manual check (0 for none).
pub fn serve_from_cache(silent: bool, now: u64, last: u64) -> (b: bool)
    ensures
        b == answer_from_cache(silent, now, last),
{
    !silent && now.saturating_sub(last) < 60 && last != 0
}

/// What a check reports: when the latest release could be fetched (its
/// version, notes and download address), an update is available when it is
/// newer than the running version; when it could not, nothing is available.
pub open spec fn update_info_for(
    current: Seq<char>,
    fetched: Option<(Seq<char>, Seq<char>, Option<Seq<char>>)>,
    info: crate::config::schema::UpdateInfo,
) -> bool {
    &&& info.current_version@ == current
    &&& match fetched {
        None => {
            &&& !info.available
            &&& info.latest_version@ == current
            &&& info.release_notes@ == Seq::<char>::empty()
            &&& info.download_url is None
        },
        Some((latest, notes, url)) => {
            &&& info.available == (compare_numbers(version_numbers(current), version_numbers(latest)) < 0)
            &&& info.latest_version@ == latest
            &&& info.release_notes@ == notes
            &&& crate::text::opt_view(info.download_url) == url
        },
    }
}

/// Builds the result of a check from the running version and what was
/// fetched, if anything.
pub fn update_info(current: &str, fetched: Option<(String, String, Option<String>)>) -> (info: crate::config::schema::UpdateInfo)
    ensures
        update_info_for(
            current@,
            match fetched {
                Some((l, n, u)) => Some((l@, n@, crate::text::opt_view(u))),
                None => None,
            },
            info,
        ),
{
    match fetched {
        None => crate::config::schema::UpdateInfo {
            current_version: current.to_owned(),
            available: false,
            latest_version: current.to_owned(),
            release_notes: String::new(),
            download_url: None,
        },
        Some((latest, notes, url)) => {
            let available = compare_versions(current, latest.as_str()) < 0;
            crate::config::schema::UpdateInfo {
                current_version: current.to_owned(),
                available,
                latest_version: latest,
                release_notes: notes,
                download_url: url,
            }
        },
    }
}

/// Seconds between automatic update checks: twelve hours plus a jitter
/// taken from the clock, so that installs do not all ask at once.
pub open spec fn check_interval(now_secs: u64) -> int {
    43200 + (now_secs % 1800) % 900
}

/// The wait before the next automatic update check, given the current Unix
/// time in seconds; always between twelve hours and a quarter hour more.
pub fn update_check_interval(now_secs: u64) -> (r: u64)
    ensures
        r == check_interval(now_secs),
        43200 <= r < 43200 + 900,
{
    let jitter = now_secs % 1800;
    12 * 60 * 60 + jitter % 900
}
} // verus!
