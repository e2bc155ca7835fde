//! The profile list and its operations.
//!
//! The list itself is read from and written to `profiles.json` by the caller;
//! the functions here take the loaded list and change it in place.
use vstd::prelude::*;

use super::{copy_opt_string, Profile};
use crate::text::{
    ascii_alnum, chars_eq, chars_eq_ignore_ascii_case, chars_of, eq_ignore_ascii_case,
    is_ascii_alnum, lemma_lex_total, lemma_lex_transitive, lex_lt,
    ascii_lower, has_char, lex_lt_exec, opt_str_text, opt_view, push_chars, string_views, str_to_lowercase, string_of, trim, trim_chars, unicode_lowercase,
};

verus! {

// ---------------------------------------------------------------------------
// Specifications
// ---------------------------------------------------------------------------

/// An optional text field as it is stored: trimmed, and absent when blank.
pub open spec fn clean_field(o: Option<Seq<char>>) -> Option<Seq<char>> {
    match o {
        Some(s) => if trim(s).len() == 0 {
            None
        } else {
            Some(trim(s))
        },
        None => None,
    }
}

/// Some profile has id `id`.
pub open spec fn has_id(ps: Seq<Profile>, id: Seq<char>) -> bool {
    exists|i: int| 0 <= i < ps.len() && ps[i].id@ == id
}

/// Some profile's name equals `name`, ignoring ASCII case.
pub open spec fn name_used(ps: Seq<Profile>, name: Seq<char>) -> bool {
    exists|i: int| 0 <= i < ps.len() && eq_ignore_ascii_case(ps[i].name@, name)
}

/// Some profile other than the one with id `id` has the name `name`,
/// ignoring ASCII case.
pub open spec fn name_used_by_other(ps: Seq<Profile>, name: Seq<char>, id: Seq<char>) -> bool {
    exists|i: int|
        0 <= i < ps.len() && ps[i].id@ != id && eq_ignore_ascii_case(ps[i].name@, name)
}

/// `k` is the first index of a profile with id `id`.
pub open spec fn first_with_id(ps: Seq<Profile>, id: Seq<char>, k: int) -> bool {
    &&& 0 <= k < ps.len()
    &&& ps[k].id@ == id
    &&& forall|j: int| 0 <= j < k ==> ps[j].id@ != id
}

/// The invariant of the profile list: ids are distinct, and no two names are
/// equal ignoring ASCII case.
pub open spec fn profiles_wf(ps: Seq<Profile>) -> bool {
    forall|i: int, j: int|
        #![trigger ps[i], ps[j]]
        0 <= i < ps.len() && 0 <= j < ps.len() && i != j ==> ps[i].id@ != ps[j].id@
            && !eq_ignore_ascii_case(ps[i].name@, ps[j].name@)
}

pub open spec fn msg_empty_name() -> Seq<char> {
    "Profile name cannot be empty"@
}

pub open spec fn msg_duplicate_name() -> Seq<char> {
    "A profile with this name already exists"@
}

pub open spec fn msg_not_found() -> Seq<char> {
    "Profile not found"@
}

pub open spec fn msg_length_mismatch() -> Seq<char> {
    "Invalid reorder: length mismatch"@
}

/// Collapses every run of characters that are not ASCII letters or digits
/// into one '-', dropping such runs at both ends.  The pair is the text built
/// so far and whether a separator is pending.
pub open spec fn slug_fold(s: Seq<char>) -> (Seq<char>, bool)
    decreases s.len(),
{
    if s.len() == 0 {
        (Seq::empty(), false)
    } else {
        let (b, pending) = slug_fold(s.drop_last());
        let c = s.last();
        if is_ascii_alnum(c) {
            if pending && b.len() > 0 {
                (b.push('-').push(c), false)
            } else {
                (b.push(c), false)
            }
        } else {
            (b, true)
        }
    }
}

pub open spec fn slug(s: Seq<char>) -> Seq<char> {
    slug_fold(s).0
}

/// The id base made from an already lowercased name: its slug, or
/// `profile` when that is empty.
pub open spec fn slug_base(lowered: Seq<char>) -> Seq<char> {
    if slug(lowered).len() == 0 {
        "profile"@
    } else {
        slug(lowered)
    }
}

/// The id a profile named `name` gets before any numbering.
pub open spec fn id_base(name: Seq<char>) -> Seq<char> {
    slug_base(unicode_lowercase(name))
}

/// Every character of `s` is ASCII.
pub open spec fn all_ascii(s: Seq<char>) -> bool {
    forall|i: int| 0 <= i < s.len() ==> (#[trigger] s[i] as u32) < 0x80
}

pub open spec fn digit_char(d: nat) -> char {
    (d + 48) as char
}

/// Decimal notation of a natural number.
pub open spec fn decimal(n: nat) -> Seq<char>
    decreases n,
{
    if n < 10 {
        seq![digit_char(n)]
    } else {
        decimal(n / 10).push(digit_char(n % 10))
    }
}

/// `base-n`.
pub open spec fn numbered(base: Seq<char>, n: nat) -> Seq<char> {
    base + seq!['-'] + decimal(n)
}

/// `r` is the id `make_unique_id` gives for `base` among `ps`: `base` when it
/// is free, else `base-n` for the least `n >= 2` that is free.
pub open spec fn is_unique_id_for(r: Seq<char>, base: Seq<char>, ps: Seq<Profile>) -> bool {
    ||| !has_id(ps, base) && r == base
    ||| has_id(ps, base) && exists|k: nat|
        #![trigger numbered(base, k)]
        k >= 2 && r == numbered(base, k) && !has_id(ps, r) && forall|j: nat|
            #![trigger numbered(base, j)]
            2 <= j < k ==> has_id(ps, numbered(base, j))
}

/// A character of a generated profile id: an ASCII letter or digit, or `-`.
pub open spec fn id_char(c: char) -> bool {
    is_ascii_alnum(c) || c == '-'
}

/// Every character of `s` may occur in a generated id.
pub open spec fn plain_id(s: Seq<char>) -> bool {
    forall|i: int| 0 <= i < s.len() ==> id_char(#[trigger] s[i])
}

proof fn lemma_slug_plain(s: Seq<char>)
    ensures
        plain_id(slug_fold(s).0),
    decreases s.len(),
{
    if s.len() > 0 {
        lemma_slug_plain(s.drop_last());
        let (b, pending) = slug_fold(s.drop_last());
        let c = s.last();
        if is_ascii_alnum(c) {
            if pending && b.len() > 0 {
                let r = b.push('-').push(c);
                assert forall|i: int| 0 <= i < r.len() implies id_char(#[trigger] r[i]) by {
                    if i < b.len() {
                        assert(r[i] == b[i]);
                    }
                }
            } else {
                let r = b.push(c);
                assert forall|i: int| 0 <= i < r.len() implies id_char(#[trigger] r[i]) by {
                    if i < b.len() {
                        assert(r[i] == b[i]);
                    }
                }
            }
        }
    }
}

pub(crate) proof fn lemma_decimal_plain(n: nat)
    ensures
        plain_id(decimal(n)),
    decreases n,
{
    if n >= 10 {
        lemma_decimal_plain(n / 10);
        let d = decimal(n / 10);
        let r = d.push(digit_char(n % 10));
        assert forall|i: int| 0 <= i < r.len() implies id_char(#[trigger] r[i]) by {
            if i < d.len() {
                assert(r[i] == d[i]);
            }
        }
    }
}

/// An ASCII letter or digit.
pub open spec fn word_char(c: char) -> bool {
    ('a' <= c && c <= 'z') || ('A' <= c && c <= 'Z') || ('0' <= c && c <= '9')
}

/// Words of ASCII letters and digits separated by single spaces.
pub open spec fn plain_words(s: Seq<char>) -> bool {
    &&& s.len() > 0
    &&& word_char(s[0]) && word_char(s.last())
    &&& forall|i: int| 0 <= i < s.len() ==> word_char(#[trigger] s[i]) || s[i] == ' '
    &&& forall|i: int| 0 <= i < s.len() - 1 && #[trigger] s[i] == ' ' ==> s[i + 1] != ' '
}

/// `s` with each space written as `-`.
pub open spec fn dashed(s: Seq<char>) -> Seq<char> {
    s.map_values(|c: char| if c == ' ' { '-' } else { c })
}

proof fn lemma_slug_words_prefix(s: Seq<char>, k: int)
    requires
        plain_words(s),
        1 <= k <= s.len(),
    ensures
        slug_fold(s.take(k)) == (if s[k - 1] == ' ' {
            (dashed(s.take(k - 1)), true)
        } else {
            (dashed(s.take(k)), false)
        }),
    decreases k,
{
    let p = s.take(k);
    assert(p.drop_last() =~= s.take(k - 1));
    assert(p.last() == s[k - 1]);
    let c = s[k - 1];
    assert(word_char(c) || c == ' ');
    assert(word_char(c) == is_ascii_alnum(c));
    assert(!is_ascii_alnum(' '));
    if k == 1 {
        assert(s.take(0) =~= Seq::<char>::empty());
        assert(word_char(s[0]));
        assert(slug_fold(s.take(0)) == (Seq::<char>::empty(), false));
        assert(Seq::<char>::empty().push(c) =~= seq![c]);
        assert(dashed(p) =~= seq![c]);
        assert(slug_fold(p) == (Seq::<char>::empty().push(c), false));
    } else {
        lemma_slug_words_prefix(s, k - 1);
        let prev = s[k - 2];
        if c == ' ' {
            assert(prev != ' ');
            assert(word_char(prev));
        } else {
            assert(word_char(c));
            if prev == ' ' {
                assert(k - 2 >= 1) by {
                    assert(word_char(s[0]));
                }
                assert(dashed(s.take(k - 2)).len() > 0);
                assert(dashed(p) =~= dashed(s.take(k - 2)).push('-').push(c));
            } else {
                assert(dashed(p) =~= dashed(s.take(k - 1)).push(c));
            }
        }
    }
}

/// A name made of ASCII words separated by single spaces gets the id base
/// that is the lowercased name with each space written as `-`: every letter
/// and every digit is kept (`Work 2` gives `work-2`, `2024` gives `2024`).
pub proof fn law_plain_name_slug(name: Seq<char>)
    requires
        plain_words(name),
    ensures
        slug_base(ascii_lower(name)) == dashed(ascii_lower(name)),
{
    let l = ascii_lower(name);
    assert forall|i: int| 0 <= i < l.len() implies word_char(#[trigger] l[i]) || l[i] == ' ' by {
        assert(word_char(name[i]) || name[i] == ' ');
    }
    assert forall|i: int| 0 <= i < l.len() - 1 && #[trigger] l[i] == ' ' implies l[i + 1] != ' ' by {
        assert(name[i] == ' ');
        assert(name[i + 1] != ' ');
    }
    assert(word_char(l[0]) && word_char(l.last())) by {
        assert(l.last() == l[l.len() - 1]);
        assert(name.last() == name[name.len() - 1]);
    }
    assert(plain_words(l));
    lemma_slug_words_prefix(l, l.len() as int);
    assert(l.take(l.len() as int) =~= l);
    assert(l.last() == l[l.len() - 1]);
}

/// The id a profile with such a name gets: the lowercased name with spaces
/// written as `-` when no profile has that id yet (so a new profile `Work 2`
/// in an empty list gets the id `work-2`), else that id numbered.
pub proof fn law_plain_name_id(name: Seq<char>, ps: Seq<Profile>, r: Seq<char>)
    requires
        plain_words(name),
        is_unique_id_for(r, slug_base(ascii_lower(name)), ps),
    ensures
        !has_id(ps, dashed(ascii_lower(name))) ==> r == dashed(ascii_lower(name)),
        has_id(ps, dashed(ascii_lower(name))) ==> exists|k: nat| k >= 2 && r == #[trigger] numbered(dashed(ascii_lower(name)), k),
{
    law_plain_name_slug(name);
}

/// The id a new profile gets is made of ASCII letters, digits and `-` only;
/// so it is never an absolute path and never holds a `:`.
pub proof fn law_generated_ids_plain(r: Seq<char>, name: Seq<char>, ps: Seq<Profile>)
    requires
        is_unique_id_for(r, id_base(name), ps),
    ensures
        plain_id(r),
        !has_char(r, '/'),
        !has_char(r, ':'),
{
    reveal_strlit("profile");
    let base = id_base(name);
    lemma_slug_plain(unicode_lowercase(name));
    assert(plain_id(base));
    if r != base {
        let k = choose|k: nat|
            #![trigger numbered(base, k)]
            k >= 2 && r == numbered(base, k) && !has_id(ps, r) && forall|j: nat|
                #![trigger numbered(base, j)]
                2 <= j < k ==> has_id(ps, numbered(base, j));
        lemma_decimal_plain(k);
        let d = decimal(k);
        assert forall|i: int| 0 <= i < r.len() implies id_char(#[trigger] r[i]) by {
            if i < base.len() {
                assert(r[i] == base[i]);
            } else if i > base.len() {
                assert(r[i] == d[i - base.len() - 1]);
            }
        }
    }
    if has_char(r, '/') {
        let i = choose|i: int| 0 <= i < r.len() && r[i] == '/';
        assert(id_char(r[i]));
    }
    if has_char(r, ':') {
        let i = choose|i: int| 0 <= i < r.len() && r[i] == ':';
        assert(id_char(r[i]));
    }
}

// ---------------------------------------------------------------------------
// Lemmas
// ---------------------------------------------------------------------------

proof fn lemma_decimal_len(n: nat)
    ensures
        decimal(n).len() >= 1,
        n >= 10 ==> decimal(n).len() >= 2,
    decreases n,
{
    if n >= 10 {
        lemma_decimal_len(n / 10);
    }
}

pub(crate) proof fn lemma_decimal_injective(n: nat, m: nat)
    requires
        decimal(n) == decimal(m),
    ensures
        n == m,
    decreases n,
{
    lemma_decimal_len(n);
    lemma_decimal_len(m);
    if n < 10 && m < 10 {
        assert(decimal(n)[0] == digit_char(n));
        assert(decimal(m)[0] == digit_char(m));
    } else if n >= 10 && m >= 10 {
        assert(decimal(n).last() == digit_char(n % 10));
        assert(decimal(m).last() == digit_char(m % 10));
        assert(decimal(n).drop_last() =~= decimal(n / 10));
        assert(decimal(m).drop_last() =~= decimal(m / 10));
        lemma_decimal_injective(n / 10, m / 10);
    } else if n < 10 {
        lemma_decimal_len(m / 10);
        assert(decimal(m).len() >= 2);
    } else {
        lemma_decimal_len(n / 10);
        assert(decimal(n).len() >= 2);
    }
}

proof fn lemma_numbered_injective(base: Seq<char>, n: nat, m: nat)
    requires
        numbered(base, n) == numbered(base, m),
    ensures
        n == m,
{
    let l = base.len() + 1;
    assert(numbered(base, n).subrange(l as int, numbered(base, n).len() as int) =~= decimal(n));
    assert(numbered(base, m).subrange(l as int, numbered(base, m).len() as int) =~= decimal(m));
    lemma_decimal_injective(n, m);
}

// ---------------------------------------------------------------------------
// Executable helpers
// ---------------------------------------------------------------------------

/// Whether some profile has id `id`.
pub fn any_with_id(ps: &[Profile], id: &[char]) -> (b: bool)
    ensures
        b == has_id(ps@, id@),
{
    let mut i: usize = 0;
    while i < ps.len()
        invariant
            i <= ps.len(),
            forall|j: int| 0 <= j < i ==> ps@[j].id@ != id@,
        decreases ps.len() - i,
    {
        let pid = chars_of(ps[i].id.as_str());
        if chars_eq(&pid, id) {
            return true;
        }
        i = i + 1;
    }
    false
}

pub(crate) fn decimal_exec(n: u128) -> (v: Vec<char>)
    ensures
        v@ == decimal(n as nat),
    decreases n,
{
    if n < 10 {
        let d = ((n as u8) + 48) as char;
        let mut v: Vec<char> = Vec::new();
        v.push(d);
        assert(v@ =~= seq![digit_char(n as nat)]);
        v
    } else {
        let mut v = decimal_exec(n / 10);
        let d = (((n % 10) as u8) + 48) as char;
        v.push(d);
        v
    }
}

fn numbered_exec(base: &[char], n: u128) -> (v: Vec<char>)
    ensures
        v@ == numbered(base@, n as nat),
{
    let mut v: Vec<char> = Vec::new();
    let mut i: usize = 0;
    while i < base.len()
        invariant
            i <= base.len(),
            v@ == base@.subrange(0, i as int),
        decreases base.len() - i,
    {
        v.push(base[i]);
        assert(base@.subrange(0, i as int).push(base@[i as int]) =~= base@.subrange(0, i + 1));
        i = i + 1;
    }
    assert(base@.subrange(0, base.len() as int) =~= base@);
    v.push('-');
    let d = decimal_exec(n);
    let mut j: usize = 0;
    while j < d.len()
        invariant
            j <= d.len(),
            v@ == base@ + seq!['-'] + d@.subrange(0, j as int),
        decreases d.len() - j,
    {
        v.push(d[j]);
        assert(base@ + seq!['-'] + d@.subrange(0, j as int) + seq![d@[j as int]] =~= base@ + seq!['-']
            + d@.subrange(0, j + 1));
        j = j + 1;
    }
    assert(d@.subrange(0, d.len() as int) =~= d@);
    v
}

fn slug_exec(s: &[char]) -> (r: Vec<char>)
    ensures
        r@ == slug(s@),
{
    let mut b: Vec<char> = Vec::new();
    let mut pending = false;
    let mut i: usize = 0;
    while i < s.len()
        invariant
            i <= s.len(),
            (b@, pending) == slug_fold(s@.subrange(0, i as int)),
        decreases s.len() - i,
    {
        let c = s[i];
        assert(s@.subrange(0, i + 1).drop_last() =~= s@.subrange(0, i as int));
        if ascii_alnum(c) {
            if pending && b.len() > 0 {
                b.push('-');
            }
            b.push(c);
            pending = false;
        } else {
            pending = true;
        }
        i = i + 1;
    }
    assert(s@.subrange(0, s.len() as int) =~= s@);
    b
}

/// Builds an id for a profile named `name` that no profile in `existing` has:
/// the name lowercased, with every run of characters other than ASCII
/// letters and digits turned into one '-' ("profile" when nothing is left),
/// numbered `-2`, `-3`, ... when taken.
pub fn make_unique_id(name: &str, existing: &[Profile]) -> (r: String)
    ensures
        is_unique_id_for(r@, id_base(name@), existing@),
        all_ascii(name@) ==> is_unique_id_for(r@, slug_base(ascii_lower(name@)), existing@),
        !has_id(existing@, r@),
{
    let lowered = str_to_lowercase(name);
    assert(all_ascii(name@) ==> unicode_lowercase(name@) == ascii_lower(name@));
    let lc = chars_of(lowered.as_str());
    let s = slug_exec(&lc);
    let base: Vec<char> = if s.len() == 0 {
        chars_of("profile")
    } else {
        s
    };
    assert(base@ == id_base(name@));
    if !any_with_id(existing, &base) {
        return string_of(&base);
    }
    let ghost ids = existing@.map_values(|p: Profile| p.id@);
    let mut n: u128 = 2;
    let ghost mut taken: Set<Seq<char>> = Set::empty();
    loop
        invariant
            2 <= n <= existing.len() + 2,
            base@ == id_base(name@),
            all_ascii(name@) ==> unicode_lowercase(name@) == ascii_lower(name@),
            has_id(existing@, base@),
            ids == existing@.map_values(|p: Profile| p.id@),
            taken.finite(),
            taken.len() == n - 2,
            taken.subset_of(ids.to_set()),
            forall|x: Seq<char>| taken.contains(x) ==> exists|j: nat| 2 <= j < n && x == numbered(base@, j),
            forall|j: nat| #![trigger numbered(base@, j)] 2 <= j < n ==> has_id(existing@, numbered(base@, j)),
        decreases existing.len() + 2 - n,
    {
        let cand = numbered_exec(&base, n);
        if !any_with_id(existing, &cand) {
            return string_of(&cand);
        }
        proof {
            if taken.contains(cand@) {
                let j = choose|j: nat| 2 <= j < n && cand@ == numbered(base@, j);
                lemma_numbered_injective(base@, j, n as nat);
            }
            let k = choose|k: int| 0 <= k < existing@.len() && existing@[k].id@ == cand@;
            assert(ids[k] == cand@);
            assert(ids.to_set().contains(cand@));
            let old_taken = taken;
            taken = taken.insert(cand@);
            assert forall|x: Seq<char>| taken.contains(x) implies exists|j: nat|
                2 <= j < n + 1 && x == numbered(base@, j) by {
                if x != cand@ {
                    assert(old_taken.contains(x));
                }
            }
            vstd::set_lib::lemma_len_subset(taken, ids.to_set());
            ids.lemma_cardinality_of_set();
        }
        n = n + 1;
    }
}


// ---------------------------------------------------------------------------
// Creating, renaming, updating and deleting
// ---------------------------------------------------------------------------

fn trimmed(s: &str) -> (r: Vec<char>)
    ensures
        r@ == trim(s@),
{
    let v = chars_of(s);
    trim_chars(&v)
}

/// Trims an optional text field; blank becomes absent.
pub fn clean_opt(o: Option<&str>) -> (r: Option<String>)
    ensures
        opt_view(r) == clean_field(opt_str_text(o)),
{
    match o {
        Some(s) => {
            let t = trimmed(s);
            if t.len() == 0 {
                None
            } else {
                Some(string_of(&t))
            }
        },
        None => None,
    }
}

fn name_used_exec(ps: &[Profile], name: &[char]) -> (b: bool)
    ensures
        b == name_used(ps@, name@),
{
    let mut i: usize = 0;
    while i < ps.len()
        invariant
            i <= ps.len(),
            forall|j: int| 0 <= j < i ==> !eq_ignore_ascii_case(#[trigger] ps@[j].name@, name@),
        decreases ps.len() - i,
    {
        let pn = chars_of(ps[i].name.as_str());
        if chars_eq_ignore_ascii_case(&pn, name) {
            return true;
        }
        i = i + 1;
    }
    false
}

fn name_used_by_other_exec(ps: &[Profile], name: &[char], id: &[char]) -> (b: bool)
    ensures
        b == name_used_by_other(ps@, name@, id@),
{
    let mut i: usize = 0;
    while i < ps.len()
        invariant
            i <= ps.len(),
            forall|j: int|
                0 <= j < i ==> !(#[trigger] ps@[j].id@ != id@ && eq_ignore_ascii_case(
                    ps@[j].name@,
                    name@,
                )),
        decreases ps.len() - i,
    {
        let pid = chars_of(ps[i].id.as_str());
        let pn = chars_of(ps[i].name.as_str());
        if !chars_eq(&pid, id) && chars_eq_ignore_ascii_case(&pn, name) {
            return true;
        }
        i = i + 1;
    }
    false
}

/// The index of the first profile with id `id`.
pub fn find_id(ps: &[Profile], id: &[char]) -> (r: Option<usize>)
    ensures
        r matches Some(k) ==> first_with_id(ps@, id@, k as int),
        r is None ==> !has_id(ps@, id@),
{
    let mut i: usize = 0;
    while i < ps.len()
        invariant
            i <= ps.len(),
            forall|j: int| 0 <= j < i ==> ps@[j].id@ != id@,
        decreases ps.len() - i,
    {
        let pid = chars_of(ps[i].id.as_str());
        if chars_eq(&pid, id) {
            return Some(i);
        }
        i = i + 1;
    }
    None
}

/// Adds a profile named `name` (trimmed) with an id derived from the name.
/// The name must not be blank and must differ, ignoring ASCII case, from
/// every existing name.
pub fn create(profiles: &mut Vec<Profile>, name: &str, category: Option<&str>, icon: Option<&str>) -> (r: Result<Profile, String>)
    ensures
        trim(name@).len() == 0 ==> (r matches Err(e) && e@ == msg_empty_name()
            && final(profiles)@ == old(profiles)@),
        trim(name@).len() > 0 && name_used(old(profiles)@, trim(name@)) ==> (r matches Err(e)
            && e@ == msg_duplicate_name() && final(profiles)@ == old(profiles)@),
        trim(name@).len() > 0 && !name_used(old(profiles)@, trim(name@)) ==> (r matches Ok(p)
            && p.name@ == trim(name@)
            && is_unique_id_for(p.id@, id_base(trim(name@)), old(profiles)@)
            && (all_ascii(trim(name@)) ==> is_unique_id_for(p.id@, slug_base(ascii_lower(trim(name@))), old(profiles)@))
            && !has_id(old(profiles)@, p.id@)
            && opt_view(p.category) == clean_field(opt_str_text(category))
            && opt_view(p.icon) == clean_field(opt_str_text(icon))
            && final(profiles)@ == old(profiles)@.push(p)),
        profiles_wf(old(profiles)@) ==> profiles_wf(final(profiles)@),
{
    let n = trimmed(name);
    if n.len() == 0 {
        return Err("Profile name cannot be empty".to_owned());
    }
    if name_used_exec(profiles.as_slice(), &n) {
        return Err("A profile with this name already exists".to_owned());
    }
    let name_s = string_of(&n);
    let id = make_unique_id(name_s.as_str(), profiles.as_slice());
    let profile = Profile { id, name: name_s, category: clean_opt(category), icon: clean_opt(icon) };
    let copy = profile.duplicate();
    let ghost old_ps = profiles@;
    profiles.push(profile);
    proof {
        if profiles_wf(old_ps) {
            let w = profiles@;
            let n = old_ps.len() as int;
            assert forall|i: int, j: int|
                0 <= i < w.len() && 0 <= j < w.len() && i != j implies #[trigger] w[i].id@
                != #[trigger] w[j].id@ && !eq_ignore_ascii_case(w[i].name@, w[j].name@) by {
                if i == n {
                    assert(w[j] == old_ps[j]);
                    assert(!eq_ignore_ascii_case(old_ps[j].name@, copy.name@));
                } else if j == n {
                    assert(w[i] == old_ps[i]);
                    assert(!eq_ignore_ascii_case(old_ps[i].name@, copy.name@));
                } else {
                    assert(w[i] == old_ps[i] && w[j] == old_ps[j]);
                }
            }
        }
    }
    Ok(copy)
}

/// Renames the profile with id `id` to `name` (trimmed).
pub fn rename(profiles: &mut Vec<Profile>, id: &str, name: &str) -> (r: Result<(), String>)
    ensures
        trim(name@).len() == 0 ==> (r matches Err(e) && e@ == msg_empty_name()
            && final(profiles)@ == old(profiles)@),
        trim(name@).len() > 0 && name_used_by_other(old(profiles)@, trim(name@), id@) ==> (r matches Err(e)
            && e@ == msg_duplicate_name() && final(profiles)@ == old(profiles)@),
        trim(name@).len() > 0 && !name_used_by_other(old(profiles)@, trim(name@), id@) && !has_id(
            old(profiles)@,
            id@,
        ) ==> (r matches Err(e) && e@ == msg_not_found() && final(profiles)@ == old(profiles)@),
        trim(name@).len() > 0 && !name_used_by_other(old(profiles)@, trim(name@), id@) && has_id(
            old(profiles)@,
            id@,
        ) ==> (r is Ok && exists|k: int|
            first_with_id(old(profiles)@, id@, k) && final(profiles)@.len() == old(profiles)@.len()
                && final(profiles)@[k].name@ == trim(name@)
                && final(profiles)@[k].id == old(profiles)@[k].id
                && final(profiles)@[k].category == old(profiles)@[k].category
                && final(profiles)@[k].icon == old(profiles)@[k].icon
                && forall|j: int| 0 <= j < old(profiles)@.len() && j != k ==> final(profiles)@[j] == old(profiles)@[j]),
        profiles_wf(old(profiles)@) ==> profiles_wf(final(profiles)@),
{
    let n = trimmed(name);
    if n.len() == 0 {
        return Err("Profile name cannot be empty".to_owned());
    }
    let idc = chars_of(id);
    if name_used_by_other_exec(profiles.as_slice(), &n, &idc) {
        return Err("A profile with this name already exists".to_owned());
    }
    match find_id(profiles.as_slice(), &idc) {
        None => Err("Profile not found".to_owned()),
        Some(k) => {
            let entry = Profile {
                id: profiles[k].id.clone(),
                name: string_of(&n),
                category: copy_opt_string(&profiles[k].category),
                icon: copy_opt_string(&profiles[k].icon),
            };
            let ghost old_ps = profiles@;
            profiles.set(k, entry);
            proof {
                assert(first_with_id(old_ps, id@, k as int));
                if profiles_wf(old_ps) {
                    let w = profiles@;
                    assert forall|i: int, j: int|
                        0 <= i < w.len() && 0 <= j < w.len() && i != j implies #[trigger] w[i].id@
                        != #[trigger] w[j].id@ && !eq_ignore_ascii_case(w[i].name@, w[j].name@) by {
                        assert(old_ps[i] == old_ps[i] && old_ps[j] == old_ps[j]);
                        if i == k {
                            assert(!(old_ps[j].id@ != id@ && eq_ignore_ascii_case(old_ps[j].name@, n@)));
                        } else if j == k {
                            assert(!(old_ps[i].id@ != id@ && eq_ignore_ascii_case(old_ps[i].name@, n@)));
                        }
                    }
                }
            }
            Ok(())
        },
    }
}

/// Whether the requested name change is refused, and with which message.
pub open spec fn name_change_error(ps: Seq<Profile>, name: Option<Seq<char>>, id: Seq<char>) -> Option<Seq<char>> {
    match name {
        Some(n) => if trim(n).len() == 0 {
            Some(msg_empty_name())
        } else if name_used_by_other(ps, trim(n), id) {
            Some(msg_duplicate_name())
        } else {
            None
        },
        None => None,
    }
}

/// The profile `p` after an update: name (trimmed) when given, category and
/// icon cleaned when given; the id and anything not given are kept.
pub open spec fn updated_as(p: Profile, old_p: Profile, name: Option<Seq<char>>, category: Option<Seq<char>>, icon: Option<Seq<char>>) -> bool {
    &&& p.id == old_p.id
    &&& match name {
        Some(n) => p.name@ == trim(n),
        None => p.name == old_p.name,
    }
    &&& match category {
        Some(c) => opt_view(p.category) == clean_field(Some(c)),
        None => p.category == old_p.category,
    }
    &&& match icon {
        Some(c) => opt_view(p.icon) == clean_field(Some(c)),
        None => p.icon == old_p.icon,
    }
}

/// Changes the given fields of the profile with id `id` and returns it.
pub fn update_profile(profiles: &mut Vec<Profile>, id: &str, name: Option<&str>, category: Option<&str>, icon: Option<&str>) -> (r: Result<Profile, String>)
    ensures
        name_change_error(old(profiles)@, opt_str_text(name), id@) matches Some(m) ==> (r matches Err(e)
            && e@ == m && final(profiles)@ == old(profiles)@),
        name_change_error(old(profiles)@, opt_str_text(name), id@) is None && !has_id(old(profiles)@, id@)
            ==> (r matches Err(e) && e@ == msg_not_found() && final(profiles)@ == old(profiles)@),
        name_change_error(old(profiles)@, opt_str_text(name), id@) is None && has_id(old(profiles)@, id@)
            ==> (r matches Ok(p) && exists|k: int|
            first_with_id(old(profiles)@, id@, k) && final(profiles)@ == old(profiles)@.update(k, p)
                && updated_as(p, old(profiles)@[k], opt_str_text(name), opt_str_text(category), opt_str_text(icon))),
        profiles_wf(old(profiles)@) ==> profiles_wf(final(profiles)@),
{
    let idc = chars_of(id);
    let mut new_name: Option<Vec<char>> = None;
    match name {
        Some(n0) => {
            let n = trimmed(n0);
            if n.len() == 0 {
                return Err("Profile name cannot be empty".to_owned());
            }
            if name_used_by_other_exec(profiles.as_slice(), &n, &idc) {
                return Err("A profile with this name already exists".to_owned());
            }
            new_name = Some(n);
        },
        None => {},
    }
    match find_id(profiles.as_slice(), &idc) {
        None => Err("Profile not found".to_owned()),
        Some(k) => {
            let name_s = match &new_name {
                Some(n) => string_of(n),
                None => profiles[k].name.clone(),
            };
            let cat = match category {
                Some(_) => clean_opt(category),
                None => copy_opt_string(&profiles[k].category),
            };
            let ic = match icon {
                Some(_) => clean_opt(icon),
                None => copy_opt_string(&profiles[k].icon),
            };
            let entry = Profile { id: profiles[k].id.clone(), name: name_s, category: cat, icon: ic };
            let result = entry.duplicate();
            let ghost old_ps = profiles@;
            profiles.set(k, entry);
            proof {
                assert(first_with_id(old_ps, id@, k as int));
                if profiles_wf(old_ps) {
                    let w = profiles@;
                    assert forall|i: int, j: int|
                        0 <= i < w.len() && 0 <= j < w.len() && i != j implies #[trigger] w[i].id@
                        != #[trigger] w[j].id@ && !eq_ignore_ascii_case(w[i].name@, w[j].name@) by {
                        assert(old_ps[i] == old_ps[i] && old_ps[j] == old_ps[j]);
                        if i == k && new_name is Some {
                            assert(!(old_ps[j].id@ != id@ && eq_ignore_ascii_case(old_ps[j].name@, result.name@)));
                        } else if j == k && new_name is Some {
                            assert(!(old_ps[i].id@ != id@ && eq_ignore_ascii_case(old_ps[i].name@, result.name@)));
                        }
                    }
                }
            }
            Ok(result)
        },
    }
}

/// The list without the profiles whose id is `id`, in the same order.
pub open spec fn without_id(ps: Seq<Profile>, id: Seq<char>) -> Seq<Profile>
    decreases ps.len(),
{
    if ps.len() == 0 {
        Seq::empty()
    } else if ps.last().id@ == id {
        without_id(ps.drop_last(), id)
    } else {
        without_id(ps.drop_last(), id).push(ps.last())
    }
}

pub proof fn lemma_without_id_subset(ps: Seq<Profile>, id: Seq<char>)
    ensures
        forall|k: int|
            0 <= k < without_id(ps, id).len() ==> (exists|i: int|
                0 <= i < ps.len() && ps[i] == #[trigger] without_id(ps, id)[k]) && without_id(ps, id)[k].id@ != id,
        without_id(ps, id).len() <= ps.len(),
    decreases ps.len(),
{
    if ps.len() > 0 {
        let init = ps.drop_last();
        lemma_without_id_subset(init, id);
        let r = without_id(init, id);
        let w = without_id(ps, id);
        assert forall|k: int| 0 <= k < w.len() implies (exists|i: int| 0 <= i < ps.len() && ps[i] == #[trigger] w[k])
            && w[k].id@ != id by {
            if k < r.len() {
                assert(w[k] == r[k]);
                let i = choose|i: int| 0 <= i < init.len() && init[i] == r[k];
                assert(ps[i] == w[k]);
            } else {
                assert(w[k] == ps[ps.len() - 1]);
            }
        }
    }
}

/// Removing profiles keeps the list's invariant.
pub proof fn lemma_without_id_wf(ps: Seq<Profile>, id: Seq<char>)
    requires
        profiles_wf(ps),
    ensures
        profiles_wf(without_id(ps, id)),
    decreases ps.len(),
{
    if ps.len() > 0 {
        let init = ps.drop_last();
        assert forall|i: int, j: int|
            0 <= i < init.len() && 0 <= j < init.len() && i != j implies #[trigger] init[i].id@
            != #[trigger] init[j].id@ && !eq_ignore_ascii_case(init[i].name@, init[j].name@) by {
            assert(init[i] == ps[i] && init[j] == ps[j]);
        }
        assert(profiles_wf(init));
        lemma_without_id_wf(init, id);
        if ps.last().id@ != id {
            let r = without_id(init, id);
            lemma_without_id_subset(init, id);
            let w = r.push(ps.last());
            let n = ps.len() - 1;
            assert forall|i: int, j: int|
                0 <= i < w.len() && 0 <= j < w.len() && i != j implies #[trigger] w[i].id@ != #[trigger] w[j].id@
                && !eq_ignore_ascii_case(w[i].name@, w[j].name@) by {
                if i == w.len() - 1 {
                    assert(w[j] == r[j]);
                    let jj = choose|jj: int| 0 <= jj < init.len() && init[jj] == r[j];
                    assert(ps[jj] == w[j]);
                    assert(ps[n] == w[i]);
                    assert(jj != n);
                } else if j == w.len() - 1 {
                    assert(w[i] == r[i]);
                    let ii = choose|ii: int| 0 <= ii < init.len() && init[ii] == r[i];
                    assert(ps[ii] == w[i]);
                    assert(ps[n] == w[j]);
                    assert(ii != n);
                } else {
                    assert(w[i] == r[i] && w[j] == r[j]);
                }
            }
            assert(w == without_id(ps, id));
        }
    }
}

pub proof fn lemma_without_absent_id(ps: Seq<Profile>, id: Seq<char>)
    requires
        !has_id(ps, id),
    ensures
        without_id(ps, id) == ps,
    decreases ps.len(),
{
    if ps.len() > 0 {
        assert(!has_id(ps.drop_last(), id)) by {
            if has_id(ps.drop_last(), id) {
                let i = choose|i: int| 0 <= i < ps.drop_last().len() && ps.drop_last()[i].id@ == id;
                assert(ps[i].id@ == id);
            }
        }
        lemma_without_absent_id(ps.drop_last(), id);
        assert(ps[ps.len() - 1].id@ != id);
        assert(ps.drop_last().push(ps.last()) =~= ps);
    } else {
        assert(ps =~= Seq::empty());
    }
}

/// Removes the profile with id `id` from the list (the caller also removes
/// its data directory and saved session).
pub fn delete(profiles: &mut Vec<Profile>, id: &str) -> (r: Result<(), String>)
    ensures
        !has_id(old(profiles)@, id@) ==> (r matches Err(e) && e@ == msg_not_found()
            && final(profiles)@ == old(profiles)@),
        has_id(old(profiles)@, id@) ==> (r is Ok && final(profiles)@ == without_id(old(profiles)@, id@)),
        profiles_wf(old(profiles)@) ==> profiles_wf(final(profiles)@),
{
    let idc = chars_of(id);
    if !any_with_id(profiles.as_slice(), &idc) {
        return Err("Profile not found".to_owned());
    }
    let mut kept: Vec<Profile> = Vec::new();
    let mut i: usize = 0;
    while i < profiles.len()
        invariant
            i <= profiles.len(),
            idc@ == id@,
            kept@ == without_id(profiles@.subrange(0, i as int), id@),
        decreases profiles.len() - i,
    {
        let pid = chars_of(profiles[i].id.as_str());
        assert(profiles@.subrange(0, i + 1).drop_last() =~= profiles@.subrange(0, i as int));
        if !chars_eq(&pid, &idc) {
            kept.push(profiles[i].duplicate());
        }
        i = i + 1;
    }
    assert(profiles@.subrange(0, profiles.len() as int) =~= profiles@);
    proof {
        if profiles_wf(profiles@) {
            lemma_without_id_wf(profiles@, id@);
        }
    }
    *profiles = kept;
    Ok(())
}

/// Law: deleting a freshly created profile gives back the list as it was
/// before the creation.
pub proof fn law_create_then_delete(before: Seq<Profile>, created: Profile)
    requires
        !has_id(before, created.id@),
    ensures
        without_id(before.push(created), created.id@) == before,
{
    lemma_without_absent_id(before, created.id@);
    assert(before.push(created).drop_last() =~= before);
}


// ---------------------------------------------------------------------------
// Reordering
// ---------------------------------------------------------------------------

/// Index of the first occurrence of `x` in `s`, or -1.
pub open spec fn pos_in(s: Seq<Seq<char>>, x: Seq<char>) -> int
    decreases s.len(),
{
    if s.len() == 0 {
        -1
    } else if s[0] == x {
        0
    } else if pos_in(s.drop_first(), x) < 0 {
        -1
    } else {
        pos_in(s.drop_first(), x) + 1
    }
}

/// The profiles whose id has position `k` in `ordered` (-1: absent), in their
/// current order.
pub open spec fn with_key(ps: Seq<Profile>, ordered: Seq<Seq<char>>, k: int) -> Seq<Profile>
    decreases ps.len(),
{
    if ps.len() == 0 {
        Seq::empty()
    } else if pos_in(ordered, ps.last().id@) == k {
        with_key(ps.drop_last(), ordered, k).push(ps.last())
    } else {
        with_key(ps.drop_last(), ordered, k)
    }
}

/// Profiles absent from `ordered` first, then those at positions 0 .. m-1.
pub open spec fn grouped(ps: Seq<Profile>, ordered: Seq<Seq<char>>, m: nat) -> Seq<Profile>
    decreases m,
{
    if m == 0 {
        with_key(ps, ordered, -1)
    } else {
        grouped(ps, ordered, (m - 1) as nat) + with_key(ps, ordered, m - 1)
    }
}

/// The stable sort of `ps` by the position of each id in `ordered`, profiles
/// whose id is absent coming first.
pub open spec fn reordered(ps: Seq<Profile>, ordered: Seq<Seq<char>>) -> Seq<Profile> {
    grouped(ps, ordered, ordered.len())
}

/// `i` is the first position in `ordered` whose id no profile has.
pub open spec fn first_missing(ps: Seq<Profile>, ordered: Seq<Seq<char>>, i: int) -> bool {
    &&& 0 <= i < ordered.len()
    &&& !has_id(ps, ordered[i])
    &&& forall|j: int| 0 <= j < i ==> has_id(ps, #[trigger] ordered[j])
}

pub open spec fn msg_missing(id: Seq<char>) -> Seq<char> {
    "Profile not found: "@ + id
}

proof fn lemma_pos_in(s: Seq<Seq<char>>, x: Seq<char>)
    ensures
        -1 <= pos_in(s, x) < s.len(),
        pos_in(s, x) >= 0 ==> s[pos_in(s, x)] == x && forall|j: int| 0 <= j < pos_in(s, x) ==> s[j] != x,
        pos_in(s, x) < 0 ==> forall|j: int| 0 <= j < s.len() ==> s[j] != x,
    decreases s.len(),
{
    if s.len() > 0 {
        lemma_pos_in(s.drop_first(), x);
        if s[0] != x {
            assert forall|j: int| 1 <= j < s.len() implies s[j] == s.drop_first()[j - 1] by {}
        }
    }
}

proof fn lemma_pos_in_at(s: Seq<Seq<char>>, i: int)
    requires
        0 <= i < s.len(),
        forall|j: int| 0 <= j < i ==> s[j] != s[i],
    ensures
        pos_in(s, s[i]) == i,
{
    lemma_pos_in(s, s[i]);
}

proof fn lemma_with_key_members(ps: Seq<Profile>, ordered: Seq<Seq<char>>, k: int)
    ensures
        forall|q: int|
            0 <= q < with_key(ps, ordered, k).len() ==> (exists|i: int|
                0 <= i < ps.len() && ps[i] == #[trigger] with_key(ps, ordered, k)[q])
                && pos_in(ordered, with_key(ps, ordered, k)[q].id@) == k,
    decreases ps.len(),
{
    if ps.len() > 0 {
        let init = ps.drop_last();
        lemma_with_key_members(init, ordered, k);
        let r = with_key(init, ordered, k);
        let w = with_key(ps, ordered, k);
        assert forall|q: int| 0 <= q < w.len() implies (exists|i: int| 0 <= i < ps.len() && ps[i] == #[trigger] w[q])
            && pos_in(ordered, w[q].id@) == k by {
            if q < r.len() {
                assert(w[q] == r[q]);
                let i = choose|i: int| 0 <= i < init.len() && init[i] == r[q];
                assert(ps[i] == w[q]);
            } else {
                assert(w[q] == ps[ps.len() - 1]);
            }
        }
    }
}

proof fn lemma_grouped_members(ps: Seq<Profile>, ordered: Seq<Seq<char>>, m: nat)
    ensures
        forall|q: int|
            0 <= q < grouped(ps, ordered, m).len() ==> (exists|i: int|
                0 <= i < ps.len() && ps[i] == #[trigger] grouped(ps, ordered, m)[q])
                && -1 <= pos_in(ordered, grouped(ps, ordered, m)[q].id@) < m,
    decreases m,
{
    lemma_with_key_members(ps, ordered, m - 1);
    lemma_with_key_members(ps, ordered, -1);
    if m > 0 {
        lemma_grouped_members(ps, ordered, (m - 1) as nat);
        let a = grouped(ps, ordered, (m - 1) as nat);
        let b = with_key(ps, ordered, m - 1);
        let g = grouped(ps, ordered, m);
        assert forall|q: int| 0 <= q < g.len() implies (exists|i: int| 0 <= i < ps.len() && ps[i] == #[trigger] g[q])
            && -1 <= pos_in(ordered, g[q].id@) < m by {
            if q < a.len() {
                assert(g[q] == a[q]);
            } else {
                assert(g[q] == b[q - a.len()]);
            }
        }
    }
}

proof fn lemma_with_key_wf(ps: Seq<Profile>, ordered: Seq<Seq<char>>, k: int)
    requires
        profiles_wf(ps),
    ensures
        profiles_wf(with_key(ps, ordered, k)),
    decreases ps.len(),
{
    if ps.len() > 0 {
        let init = ps.drop_last();
        assert forall|i: int, j: int|
            0 <= i < init.len() && 0 <= j < init.len() && i != j implies #[trigger] init[i].id@
            != #[trigger] init[j].id@ && !eq_ignore_ascii_case(init[i].name@, init[j].name@) by {
            assert(init[i] == ps[i] && init[j] == ps[j]);
        }
        lemma_with_key_wf(init, ordered, k);
        if pos_in(ordered, ps.last().id@) == k {
            let r = with_key(init, ordered, k);
            lemma_with_key_members(init, ordered, k);
            let w = r.push(ps.last());
            let n = ps.len() - 1;
            assert forall|i: int, j: int|
                0 <= i < w.len() && 0 <= j < w.len() && i != j implies #[trigger] w[i].id@ != #[trigger] w[j].id@
                && !eq_ignore_ascii_case(w[i].name@, w[j].name@) by {
                if i == w.len() - 1 {
                    assert(w[j] == r[j]);
                    let jj = choose|jj: int| 0 <= jj < init.len() && init[jj] == r[j];
                    assert(ps[jj] == w[j]);
                    assert(ps[n] == w[i]);
                } else if j == w.len() - 1 {
                    assert(w[i] == r[i]);
                    let ii = choose|ii: int| 0 <= ii < init.len() && init[ii] == r[i];
                    assert(ps[ii] == w[i]);
                    assert(ps[n] == w[j]);
                } else {
                    assert(w[i] == r[i] && w[j] == r[j]);
                }
            }
            assert(w == with_key(ps, ordered, k));
        }
    }
}

/// Reordering keeps the list's invariant.
pub proof fn lemma_grouped_wf(ps: Seq<Profile>, ordered: Seq<Seq<char>>, m: nat)
    requires
        profiles_wf(ps),
    ensures
        profiles_wf(grouped(ps, ordered, m)),
    decreases m,
{
    lemma_with_key_wf(ps, ordered, m - 1);
    lemma_with_key_wf(ps, ordered, -1);
    if m > 0 {
        lemma_grouped_wf(ps, ordered, (m - 1) as nat);
        lemma_grouped_members(ps, ordered, (m - 1) as nat);
        lemma_with_key_members(ps, ordered, m - 1);
        let a = grouped(ps, ordered, (m - 1) as nat);
        let b = with_key(ps, ordered, m - 1);
        let g = a + b;
        assert forall|i: int, j: int|
            0 <= i < g.len() && 0 <= j < g.len() && i != j implies #[trigger] g[i].id@ != #[trigger] g[j].id@
            && !eq_ignore_ascii_case(g[i].name@, g[j].name@) by {
            if i < a.len() && j < a.len() {
                assert(g[i] == a[i] && g[j] == a[j]);
            } else if i >= a.len() && j >= a.len() {
                assert(g[i] == b[i - a.len()] && g[j] == b[j - a.len()]);
            } else {
                let (x, y) = if i < a.len() { (i, j) } else { (j, i) };
                assert(g[x] == a[x]);
                assert(g[y] == b[y - a.len()]);
                let ix = choose|ix: int| 0 <= ix < ps.len() && ps[ix] == a[x];
                let iy = choose|iy: int| 0 <= iy < ps.len() && ps[iy] == b[y - a.len()];
                assert(pos_in(ordered, a[x].id@) < m - 1);
                assert(pos_in(ordered, b[y - a.len()].id@) == m - 1);
                assert(ix != iy);
            }
        }
    }
}

fn views_of(v: &[String]) -> (r: Vec<Vec<char>>)
    ensures
        r.len() == v.len(),
        forall|i: int| 0 <= i < v.len() ==> #[trigger] r@[i]@ == v@[i]@,
{
    let mut r: Vec<Vec<char>> = Vec::new();
    let mut i: usize = 0;
    while i < v.len()
        invariant
            i <= v.len(),
            r.len() == i,
            forall|j: int| 0 <= j < i ==> #[trigger] r@[j]@ == v@[j]@,
        decreases v.len() - i,
    {
        r.push(chars_of(v[i].as_str()));
        i = i + 1;
    }
    r
}

fn pos_exec(ord: &Vec<Vec<char>>, ordv: Ghost<Seq<Seq<char>>>, x: &[char]) -> (r: Option<usize>)
    requires
        ord.len() == ordv@.len(),
        forall|i: int| 0 <= i < ord.len() ==> #[trigger] ord@[i]@ == ordv@[i],
    ensures
        r matches Some(k) ==> pos_in(ordv@, x@) == k,
        r is None ==> pos_in(ordv@, x@) == -1,
{
    proof {
        lemma_pos_in(ordv@, x@);
    }
    let mut i: usize = 0;
    while i < ord.len()
        invariant
            i <= ord.len(),
            ord.len() == ordv@.len(),
            forall|k: int| 0 <= k < ord.len() ==> #[trigger] ord@[k]@ == ordv@[k],
            forall|j: int| 0 <= j < i ==> ordv@[j] != x@,
        decreases ord.len() - i,
    {
        if chars_eq(&ord[i], x) {
            proof {
                lemma_pos_in_at(ordv@, i as int);
            }
            return Some(i);
        }
        i = i + 1;
    }
    None
}

pub open spec fn key_int(k: Option<usize>) -> int {
    match k {
        Some(v) => v as int,
        None => -1,
    }
}

/// Puts the profiles in the order of `ordered_ids`.  Every listed id must
/// belong to a profile, and there must be as many ids as profiles.  The
/// profiles are stably sorted by the position of their id in `ordered_ids`,
/// those whose id is not listed coming first.
pub fn reorder(profiles: &mut Vec<Profile>, ordered_ids: &[String]) -> (r: Result<(), String>)
    ensures
        (exists|i: int| first_missing(old(profiles)@, string_views(ordered_ids@), i)) ==> (exists|i: int|
            first_missing(old(profiles)@, string_views(ordered_ids@), i) && (r matches Err(e) && e@
                == msg_missing(ordered_ids@[i]@)) && final(profiles)@ == old(profiles)@),
        (forall|i: int| 0 <= i < ordered_ids@.len() ==> has_id(old(profiles)@, #[trigger] ordered_ids@[i]@))
            && ordered_ids@.len() != old(profiles)@.len() ==> (r matches Err(e) && e@ == msg_length_mismatch()
            && final(profiles)@ == old(profiles)@),
        (forall|i: int| 0 <= i < ordered_ids@.len() ==> has_id(old(profiles)@, #[trigger] ordered_ids@[i]@))
            && ordered_ids@.len() == old(profiles)@.len() ==> (r is Ok && final(profiles)@ == reordered(
            old(profiles)@,
            string_views(ordered_ids@),
        )),
        profiles_wf(old(profiles)@) ==> profiles_wf(final(profiles)@),
{
    let ghost ordv = string_views(ordered_ids@);
    let ord = views_of(ordered_ids);
    let mut i: usize = 0;
    while i < ord.len()
        invariant
            i <= ord.len(),
            ord.len() == ordered_ids.len(),
            ordv == string_views(ordered_ids@),
            forall|k: int| 0 <= k < ord.len() ==> #[trigger] ord@[k]@ == ordered_ids@[k]@,
            forall|j: int| 0 <= j < i ==> has_id(profiles@, #[trigger] ordv[j]),
        decreases ord.len() - i,
    {
        if !any_with_id(profiles.as_slice(), &ord[i]) {
            let mut e = "Profile not found: ".to_owned();
            push_chars(&mut e, &ord[i]);
            proof {
                assert(first_missing(profiles@, ordv, i as int));
                assert forall|j: int| #![auto] first_missing(profiles@, ordv, j) implies j == i by {
                    if j < i {
                        assert(has_id(profiles@, ordv[j]));
                    } else if j > i {
                        assert(has_id(profiles@, ordv[i as int]));
                    }
                }
            }
            return Err(e);
        }
        i = i + 1;
    }
    proof {
        assert forall|i: int| #![auto] !first_missing(profiles@, ordv, i) by {
            if 0 <= i < ordv.len() {
                assert(has_id(profiles@, ordv[i]));
            }
        }
        assert forall|i: int| 0 <= i < ordered_ids@.len() implies has_id(profiles@, #[trigger] ordered_ids@[i]@) by {
            assert(has_id(profiles@, ordv[i]));
        }
    }
    if ordered_ids.len() != profiles.len() {
        return Err("Invalid reorder: length mismatch".to_owned());
    }
    proof {
        assert forall|k: int| 0 <= k < ord.len() implies #[trigger] ord@[k]@ == ordv[k] by {}
    }
    // The key of each profile: the position of its id among the ordered ids.
    let mut keys: Vec<Option<usize>> = Vec::new();
    let mut j: usize = 0;
    while j < profiles.len()
        invariant
            j <= profiles.len(),
            keys.len() == j,
            ord.len() == ordv.len(),
            forall|k: int| 0 <= k < ord.len() ==> #[trigger] ord@[k]@ == ordv[k],
            forall|q: int| 0 <= q < j ==> key_int(#[trigger] keys@[q]) == pos_in(ordv, profiles@[q].id@),
        decreases profiles.len() - j,
    {
        let pid = chars_of(profiles[j].id.as_str());
        keys.push(pos_exec(&ord, Ghost(ordv), &pid));
        j = j + 1;
    }
    let mut result: Vec<Profile> = Vec::new();
    let mut g: usize = 0;
    // Group -1 (ids not listed) first, then groups 0, 1, ...
    let mut j: usize = 0;
    while j < profiles.len()
        invariant
            j <= profiles.len(),
            keys.len() == profiles.len(),
            forall|q: int| 0 <= q < profiles.len() ==> key_int(#[trigger] keys@[q]) == pos_in(ordv, profiles@[q].id@),
            result@ == with_key(profiles@.subrange(0, j as int), ordv, -1),
        decreases profiles.len() - j,
    {
        assert(profiles@.subrange(0, j + 1).drop_last() =~= profiles@.subrange(0, j as int));
        if keys[j].is_none() {
            result.push(profiles[j].duplicate());
        }
        j = j + 1;
    }
    assert(profiles@.subrange(0, profiles.len() as int) =~= profiles@);
    assert(result@ == grouped(profiles@, ordv, 0));
    while g < ord.len()
        invariant
            g <= ord.len(),
            ord.len() == ordv.len(),
            keys.len() == profiles.len(),
            forall|q: int| 0 <= q < profiles.len() ==> key_int(#[trigger] keys@[q]) == pos_in(ordv, profiles@[q].id@),
            result@ == grouped(profiles@, ordv, g as nat),
        decreases ord.len() - g,
    {
        let ghost before = result@;
        let mut j: usize = 0;
        while j < profiles.len()
            invariant
                j <= profiles.len(),
                g < ord.len(),
                keys.len() == profiles.len(),
                forall|q: int| 0 <= q < profiles.len() ==> key_int(#[trigger] keys@[q]) == pos_in(ordv, profiles@[q].id@),
                result@ == before + with_key(profiles@.subrange(0, j as int), ordv, g as int),
            decreases profiles.len() - j,
        {
            assert(profiles@.subrange(0, j + 1).drop_last() =~= profiles@.subrange(0, j as int));
            let hit = match keys[j] {
                Some(k) => k == g,
                None => false,
            };
            if hit {
                result.push(profiles[j].duplicate());
            }
            j = j + 1;
        }
        assert(profiles@.subrange(0, profiles.len() as int) =~= profiles@);
        g = g + 1;
    }
    proof {
        if profiles_wf(profiles@) {
            lemma_grouped_wf(profiles@, ordv, ordv.len());
        }
    }
    *profiles = result;
    Ok(())
}

proof fn lemma_with_key_none(ps: Seq<Profile>, ordered: Seq<Seq<char>>, k: int)
    requires
        forall|i: int| 0 <= i < ps.len() ==> pos_in(ordered, #[trigger] ps[i].id@) != k,
    ensures
        with_key(ps, ordered, k) == Seq::<Profile>::empty(),
    decreases ps.len(),
{
    if ps.len() > 0 {
        assert(pos_in(ordered, ps[ps.len() - 1].id@) != k);
        lemma_with_key_none(ps.drop_last(), ordered, k);
    }
}

proof fn lemma_with_key_single(ps: Seq<Profile>, ordered: Seq<Seq<char>>, k: int, i: int)
    requires
        0 <= i < ps.len(),
        pos_in(ordered, ps[i].id@) == k,
        forall|j: int| 0 <= j < ps.len() && j != i ==> pos_in(ordered, #[trigger] ps[j].id@) != k,
    ensures
        with_key(ps, ordered, k) == seq![ps[i]],
    decreases ps.len(),
{
    let init = ps.drop_last();
    if i == ps.len() - 1 {
        assert forall|j: int| 0 <= j < init.len() implies pos_in(ordered, #[trigger] init[j].id@) != k by {
            assert(init[j] == ps[j]);
        }
        lemma_with_key_none(init, ordered, k);
        assert(with_key(ps, ordered, k) =~= seq![ps[i]]);
    } else {
        assert(pos_in(ordered, ps[ps.len() - 1].id@) != k);
        assert forall|j: int| 0 <= j < init.len() && j != i implies pos_in(ordered, #[trigger] init[j].id@) != k by {
            assert(init[j] == ps[j]);
        }
        lemma_with_key_single(init, ordered, k, i);
    }
}

proof fn lemma_grouped_ids(ps: Seq<Profile>, ordered: Seq<Seq<char>>, m: nat)
    requires
        m <= ordered.len(),
        profiles_wf(ps),
        ordered.no_duplicates(),
        forall|i: int| 0 <= i < ordered.len() ==> has_id(ps, #[trigger] ordered[i]),
        forall|j: int| 0 <= j < ps.len() ==> pos_in(ordered, #[trigger] ps[j].id@) != -1,
    ensures
        grouped(ps, ordered, m).map_values(|p: Profile| p.id@) == ordered.take(m as int),
    decreases m,
{
    if m == 0 {
        lemma_with_key_none(ps, ordered, -1);
        assert(grouped(ps, ordered, m).map_values(|p: Profile| p.id@) =~= ordered.take(0));
    } else {
        let k = m - 1;
        lemma_grouped_ids(ps, ordered, k as nat);
        let x = ordered[k];
        assert(has_id(ps, x));
        let i = choose|i: int| 0 <= i < ps.len() && ps[i].id@ == x;
        assert forall|j: int| 0 <= j < k implies ordered[j] != ordered[k] by {}
        lemma_pos_in_at(ordered, k);
        assert forall|j: int| 0 <= j < ps.len() && j != i implies pos_in(ordered, #[trigger] ps[j].id@) != k by {
            lemma_pos_in(ordered, ps[j].id@);
            if pos_in(ordered, ps[j].id@) == k {
                assert(ps[j].id@ == x);
                assert(ps[i] == ps[i] && ps[j] == ps[j]);
            }
        }
        lemma_with_key_single(ps, ordered, k, i);
        let a = grouped(ps, ordered, k as nat);
        let g = grouped(ps, ordered, m);
        assert(g == a + seq![ps[i]]);
        let ga = a.map_values(|p: Profile| p.id@);
        assert(ga == ordered.take(k));
        assert(ga.len() == a.len());
        assert(ordered.take(k).len() == k);
        assert(g.len() == m);
        let gm = g.map_values(|p: Profile| p.id@);
        assert forall|q: int| 0 <= q < m implies #[trigger] gm[q] == ordered.take(m as int)[q] by {
            if q < k {
                assert(g[q] == a[q]);
                assert(ga[q] == ordered.take(k)[q]);
            } else {
                assert(g[q] == ps[i]);
            }
        }
        assert(gm =~= ordered.take(m as int));
    }
}

/// Law: when the ordered ids list every profile's id exactly once, the
/// profiles come out in exactly that order.
pub proof fn law_reorder_follows_order(ps: Seq<Profile>, ordered: Seq<Seq<char>>)
    requires
        profiles_wf(ps),
        ordered.len() == ps.len(),
        ordered.no_duplicates(),
        forall|i: int| 0 <= i < ordered.len() ==> has_id(ps, #[trigger] ordered[i]),
        forall|j: int| 0 <= j < ps.len() ==> ordered.contains(#[trigger] ps[j].id@),
    ensures
        reordered(ps, ordered).map_values(|p: Profile| p.id@) == ordered,
{
    assert forall|j: int| 0 <= j < ps.len() implies pos_in(ordered, #[trigger] ps[j].id@) != -1 by {
        lemma_pos_in(ordered, ps[j].id@);
        assert(ordered.contains(ps[j].id@));
    }
    lemma_grouped_ids(ps, ordered, ordered.len());
    assert(ordered.take(ordered.len() as int) =~= ordered);
}


// ---------------------------------------------------------------------------
// Categories
// ---------------------------------------------------------------------------

/// The strings are in strictly increasing order.
pub open spec fn strictly_sorted(v: Seq<String>) -> bool {
    forall|i: int, j: int| #![trigger v[i], v[j]] 0 <= i < j < v.len() ==> lex_lt(v[i]@, v[j]@)
}

/// Some profile has category `x`.
pub open spec fn category_present(ps: Seq<Profile>, x: Seq<char>) -> bool {
    exists|j: int| 0 <= j < ps.len() && opt_view(#[trigger] ps[j].category) == Some(x)
}

pub open spec fn listed(v: Seq<String>, x: Seq<char>) -> bool {
    exists|i: int| 0 <= i < v.len() && #[trigger] v[i]@ == x
}

fn string_lt(a: &String, b: &[char]) -> (r: bool)
    ensures
        r == lex_lt(a@, b@),
{
    let ac = chars_of(a.as_str());
    lex_lt_exec(&ac, b)
}

fn insert_sorted(v: &mut Vec<String>, s: String)
    requires
        strictly_sorted(old(v)@),
    ensures
        strictly_sorted(final(v)@),
        forall|x: Seq<char>| listed(final(v)@, x) == (listed(old(v)@, x) || x == s@),
{
    let sc = chars_of(s.as_str());
    let mut i: usize = 0;
    while i < v.len() && string_lt(&v[i], &sc)
        invariant
            i <= v.len(),
            sc@ == s@,
            forall|j: int| 0 <= j < i ==> lex_lt(#[trigger] v@[j]@, s@),
        decreases v.len() - i,
    {
        i = i + 1;
    }
    if i < v.len() {
        let vc = chars_of(v[i].as_str());
        if chars_eq(&vc, &sc) {
            assert(listed(v@, s@));
            return;
        }
    }
    let ghost old_v = v@;
    proof {
        if i < old_v.len() {
            lemma_lex_total(old_v[i as int]@, s@);
            assert(lex_lt(s@, old_v[i as int]@));
        }
    }
    v.insert(i, s);
    proof {
        let w = v@;
        assert forall|a: int, b: int| 0 <= a < b < w.len() implies #[trigger] lex_lt(w[a]@, w[b]@) by {
            if b < i {
                assert(w[a] == old_v[a] && w[b] == old_v[b]);
            } else if b == i {
                assert(w[a] == old_v[a]);
            } else if a == i {
                assert(w[b] == old_v[b - 1]);
                if b - 1 > i {
                    assert(lex_lt(old_v[i as int]@, old_v[b - 1]@));
                    lemma_lex_transitive(s@, old_v[i as int]@, old_v[b - 1]@);
                }
            } else if a < i {
                assert(w[a] == old_v[a] && w[b] == old_v[b - 1]);
                assert(lex_lt(old_v[a]@, s@));
                assert(lex_lt(s@, old_v[i as int]@));
                if b - 1 > i {
                    assert(lex_lt(old_v[i as int]@, old_v[b - 1]@));
                    lemma_lex_transitive(s@, old_v[i as int]@, old_v[b - 1]@);
                }
                lemma_lex_transitive(old_v[a]@, s@, old_v[b - 1]@);
            } else {
                assert(w[a] == old_v[a - 1] && w[b] == old_v[b - 1]);
            }
        }
        assert forall|x: Seq<char>| listed(w, x) == (listed(old_v, x) || x == s@) by {
            if listed(w, x) {
                let k = choose|k: int| 0 <= k < w.len() && #[trigger] w[k]@ == x;
                if k < i {
                    assert(old_v[k] == w[k]);
                } else if k > i {
                    assert(old_v[k - 1] == w[k]);
                }
            }
            if listed(old_v, x) {
                let k = choose|k: int| 0 <= k < old_v.len() && #[trigger] old_v[k]@ == x;
                if k < i {
                    assert(old_v[k] == w[k]);
                } else {
                    assert(old_v[k] == w[k + 1]);
                }
            }
            if x == s@ {
                assert(w[i as int]@ == x);
            }
        }
    }
}

/// The distinct categories of the profiles, sorted.
pub fn list_categories(profiles: &[Profile]) -> (r: Vec<String>)
    ensures
        strictly_sorted(r@),
        forall|x: Seq<char>| listed(r@, x) == category_present(profiles@, x),
{
    let mut r: Vec<String> = Vec::new();
    let mut j: usize = 0;
    while j < profiles.len()
        invariant
            j <= profiles.len(),
            strictly_sorted(r@),
            forall|x: Seq<char>| listed(r@, x) == category_present(profiles@.subrange(0, j as int), x),
        decreases profiles.len() - j,
    {
        let ghost before = r@;
        let ghost pre = profiles@.subrange(0, j as int);
        let ghost cur = profiles@.subrange(0, j + 1);
        match &profiles[j].category {
            Some(c) => {
                insert_sorted(&mut r, c.clone());
            },
            None => {},
        }
        proof {
            assert forall|x: Seq<char>| category_present(cur, x) == (category_present(pre, x) || opt_view(
                profiles@[j as int].category,
            ) == Some(x)) by {
                if category_present(cur, x) {
                    let q = choose|q: int| 0 <= q < cur.len() && opt_view(#[trigger] cur[q].category) == Some(x);
                    if q < j {
                        assert(pre[q] == cur[q]);
                    }
                }
                if category_present(pre, x) {
                    let q = choose|q: int| 0 <= q < pre.len() && opt_view(#[trigger] pre[q].category) == Some(x);
                    assert(pre[q] == cur[q]);
                }
                if opt_view(profiles@[j as int].category) == Some(x) {
                    assert(cur[j as int] == profiles@[j as int]);
                }
            }
        }
        j = j + 1;
    }
    assert(profiles@.subrange(0, profiles.len() as int) =~= profiles@);
    r
}

} // verus!
