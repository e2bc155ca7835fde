//! Which window a window command acts on, and what opening a profile does.
use vstd::prelude::*;

use crate::profile::manager::{decimal, decimal_exec, lemma_decimal_injective};
use crate::text::{chars_eq, chars_of, push_chars, starts_with, starts_with_exec, string_views};

verus! {

/// The label of the window of the profile `id`.
pub open spec fn profile_label(id: Seq<char>) -> Seq<char> {
    "main-"@ + id
}

/// The label of the window of the profile `profile_id`.
pub fn profile_window_label(profile_id: &str) -> (r: String)
    ensures
        r@ == profile_label(profile_id@),
{
    let mut r = "main-".to_owned();
    push_chars(&mut r, &chars_of(profile_id));
    r
}

/// The label of the extra chat window numbered `n`.
pub open spec fn extra_label(n: u32) -> Seq<char> {
    "window-"@ + decimal(n as nat)
}

/// The number after `n` (numbers wrap around, as the atomic counter they
/// come from does).
pub open spec fn next_window_number(n: u32) -> u32 {
    if n == u32::MAX {
        0
    } else {
        (n + 1) as u32
    }
}

/// The number the extra window opened after `k` others gets.
pub open spec fn window_number_after(k: nat) -> u32
    decreases k,
{
    if k == 0 {
        1
    } else {
        next_window_number(window_number_after((k - 1) as nat))
    }
}

/// Numbers the extra chat windows opened with "new window": each gets the
/// label `window-<n>`, `n` counting up from 1.
pub struct WindowCounter {
    next: u32,
}

impl WindowCounter {
    /// The number the next window gets.
    pub closed spec fn upcoming(&self) -> u32 {
        self.next
    }

    /// No window opened yet: the first gets number 1.
    pub fn new() -> (r: Self)
        ensures
            r.upcoming() == 1,
    {
        WindowCounter { next: 1 }
    }

    /// The label of the next extra window; the counter moves on.
    pub fn next_label(&mut self) -> (r: String)
        ensures
            r@ == extra_label(old(self).upcoming()),
            final(self).upcoming() == next_window_number(old(self).upcoming()),
    {
        let n = self.next;
        self.next = if n == u32::MAX {
            0
        } else {
            n + 1
        };
        let mut r = "window-".to_owned();
        push_chars(&mut r, &decimal_exec(n as u128));
        r
    }
}

/// The extra window opened after `k` others on a fresh counter is numbered
/// `k + 1`.
pub proof fn law_window_number(k: nat)
    requires
        k < u32::MAX,
    ensures
        window_number_after(k) == k + 1,
    decreases k,
{
    if k > 0 {
        law_window_number((k - 1) as nat);
    }
}

/// Extra windows opened on a fresh counter get distinct labels, as long as
/// fewer than 2^32 - 1 are opened.
pub proof fn law_window_labels_distinct(i: nat, j: nat)
    requires
        i < j < u32::MAX,
    ensures
        extra_label(window_number_after(i)) != extra_label(window_number_after(j)),
{
    law_window_number(i);
    law_window_number(j);
    let a = extra_label(window_number_after(i));
    let b = extra_label(window_number_after(j));
    if a == b {
        reveal_strlit("window-");
        assert(a.subrange(7, a.len() as int) =~= decimal(window_number_after(i) as nat));
        assert(b.subrange(7, b.len() as int) =~= decimal(window_number_after(j) as nat));
        lemma_decimal_injective(window_number_after(i) as nat, window_number_after(j) as nat);
    }
}

/// A profile window's label.
pub open spec fn is_profile_label(l: Seq<char>) -> bool {
    starts_with(l, "main-"@)
}

/// Index of the first label satisfying `p`, or -1.
pub open spec fn first_where(s: Seq<Seq<char>>, p: spec_fn(Seq<char>) -> bool) -> int
    decreases s.len(),
{
    if s.len() == 0 {
        -1
    } else if p(s[0]) {
        0
    } else if first_where(s.drop_first(), p) < 0 {
        -1
    } else {
        first_where(s.drop_first(), p) + 1
    }
}

/// Number of labels satisfying `p`.
pub open spec fn count_where(s: Seq<Seq<char>>, p: spec_fn(Seq<char>) -> bool) -> nat
    decreases s.len(),
{
    if s.len() == 0 {
        0
    } else {
        (if p(s[0]) {
            1nat
        } else {
            0nat
        }) + count_where(s.drop_first(), p)
    }
}

/// Index of the first occurrence of `x`, or -1.
pub open spec fn index_of(s: Seq<Seq<char>>, x: Seq<char>) -> int {
    first_where(s, |l: Seq<char>| l == x)
}

/// Index of the first profile window, or -1.
pub open spec fn first_profile(s: Seq<Seq<char>>) -> int {
    first_where(s, |l: Seq<char>| is_profile_label(l))
}

/// Number of profile windows.
pub open spec fn profile_count(s: Seq<Seq<char>>) -> nat {
    count_where(s, |l: Seq<char>| is_profile_label(l))
}

fn index_of_exec(labels: &Vec<String>, x: &[char]) -> (r: Option<usize>)
    ensures
        match r {
            Some(i) => index_of(string_views(labels@), x@) == i,
            None => index_of(string_views(labels@), x@) == -1,
        },
{
    let ghost s = string_views(labels@);
    let ghost p = |l: Seq<char>| l == x@;
    let mut i: usize = 0;
    assert(s.skip(0) =~= s);
    while i < labels.len()
        invariant
            i <= labels.len(),
            s == string_views(labels@),
            p == (|l: Seq<char>| l == x@),
            first_where(s, p) == (if first_where(s.skip(i as int), p) < 0 {
                -1
            } else {
                first_where(s.skip(i as int), p) + i
            }),
        decreases labels.len() - i,
    {
        assert(s.skip(i as int)[0] == labels@[i as int]@);
        assert(s.skip(i as int).drop_first() =~= s.skip(i + 1));
        if chars_eq(&chars_of(labels[i].as_str()), x) {
            return Some(i);
        }
        i = i + 1;
    }
    None
}

fn first_profile_exec(labels: &Vec<String>) -> (r: Option<usize>)
    ensures
        match r {
            Some(i) => first_profile(string_views(labels@)) == i,
            None => first_profile(string_views(labels@)) == -1,
        },
{
    let ghost s = string_views(labels@);
    let ghost p = |l: Seq<char>| is_profile_label(l);
    let prefix = chars_of("main-");
    let mut i: usize = 0;
    assert(s.skip(0) =~= s);
    while i < labels.len()
        invariant
            i <= labels.len(),
            s == string_views(labels@),
            prefix@ == "main-"@,
            p == (|l: Seq<char>| is_profile_label(l)),
            first_where(s, p) == (if first_where(s.skip(i as int), p) < 0 {
                -1
            } else {
                first_where(s.skip(i as int), p) + i
            }),
        decreases labels.len() - i,
    {
        assert(s.skip(i as int)[0] == labels@[i as int]@);
        assert(s.skip(i as int).drop_first() =~= s.skip(i + 1));
        if starts_with_exec(&chars_of(labels[i].as_str()), &prefix) {
            return Some(i);
        }
        i = i + 1;
    }
    None
}

fn profile_count_exec(labels: &Vec<String>) -> (n: usize)
    ensures
        n == profile_count(string_views(labels@)),
{
    let ghost s = string_views(labels@);
    let ghost p = |l: Seq<char>| is_profile_label(l);
    let prefix = chars_of("main-");
    let mut n: usize = 0;
    let mut i: usize = 0;
    assert(s.skip(0) =~= s);
    while i < labels.len()
        invariant
            i <= labels.len(),
            n <= i,
            s == string_views(labels@),
            prefix@ == "main-"@,
            p == (|l: Seq<char>| is_profile_label(l)),
            count_where(s, p) == n + count_where(s.skip(i as int), p),
        decreases labels.len() - i,
    {
        assert(s.skip(i as int)[0] == labels@[i as int]@);
        assert(s.skip(i as int).drop_first() =~= s.skip(i + 1));
        if starts_with_exec(&chars_of(labels[i].as_str()), &prefix) {
            n = n + 1;
        }
        i = i + 1;
    }
    assert(s.skip(i as int).len() == 0);
    n
}

/// The window commands act on: the last focused window when it is still
/// open, else the first profile window, else the first window.
pub open spec fn active_window(labels: Seq<Seq<char>>, last_focused: Option<Seq<char>>) -> Option<int> {
    if last_focused is Some && index_of(labels, last_focused->0) >= 0 {
        Some(index_of(labels, last_focused->0))
    } else if first_profile(labels) >= 0 {
        Some(first_profile(labels))
    } else if labels.len() > 0 {
        Some(0)
    } else {
        None
    }
}

/// Picks the window that window commands act on, among the open windows'
/// `labels`, as an index into them.
pub fn pick_active_window(labels: &Vec<String>, last_focused: Option<&str>) -> (r: Option<usize>)
    ensures
        match r {
            Some(i) => active_window(string_views(labels@), crate::text::opt_str_text(last_focused)) == Some(i as int),
            None => active_window(string_views(labels@), crate::text::opt_str_text(last_focused)) is None,
        },
{
    if let Some(l) = last_focused {
        if let Some(i) = index_of_exec(labels, &chars_of(l)) {
            return Some(i);
        }
    }
    if let Some(i) = first_profile_exec(labels) {
        return Some(i);
    }
    if labels.len() > 0 {
        Some(0)
    } else {
        None
    }
}

/// At most this many profile windows are open at once.
pub const MAX_PROFILE_WINDOWS: usize = 4;

/// What opening a profile does.
#[derive(Debug, Clone, Copy, PartialEq, Eq, Structural)]
pub enum OpenProfile {
    /// Show and focus the window at this index.
    Focus(usize),
    /// Open a new window for the profile.
    Create,
    /// Too many windows and none to focus: nothing.
    Nothing,
}

/// Opening a profile focuses its window when it is open; when the limit of
/// profile windows is reached it focuses the last focused window, or the
/// first profile window, instead; otherwise it opens a new window.
pub open spec fn open_profile_for(labels: Seq<Seq<char>>, profile_id: Seq<char>, last_focused: Option<Seq<char>>) -> OpenProfile {
    if index_of(labels, profile_label(profile_id)) >= 0 {
        OpenProfile::Focus(index_of(labels, profile_label(profile_id)) as usize)
    } else if profile_count(labels) >= MAX_PROFILE_WINDOWS {
        if last_focused is Some && index_of(labels, last_focused->0) >= 0 {
            OpenProfile::Focus(index_of(labels, last_focused->0) as usize)
        } else if first_profile(labels) >= 0 {
            OpenProfile::Focus(first_profile(labels) as usize)
        } else {
            OpenProfile::Nothing
        }
    } else {
        OpenProfile::Create
    }
}

/// Decides what opening the profile `profile_id` does, given the open
/// windows' `labels` and the last focused window.
pub fn open_profile_decision(labels: &Vec<String>, profile_id: &str, last_focused: Option<&str>) -> (r: OpenProfile)
    ensures
        r == open_profile_for(string_views(labels@), profile_id@, crate::text::opt_str_text(last_focused)),
{
    let label = profile_window_label(profile_id);
    if let Some(i) = index_of_exec(labels, &chars_of(label.as_str())) {
        return OpenProfile::Focus(i);
    }
    if profile_count_exec(labels) >= MAX_PROFILE_WINDOWS {
        if let Some(l) = last_focused {
            if let Some(i) = index_of_exec(labels, &chars_of(l)) {
                return OpenProfile::Focus(i);
            }
        }
        return match first_profile_exec(labels) {
            Some(i) => OpenProfile::Focus(i),
            None => OpenProfile::Nothing,
        };
    }
    OpenProfile::Create
}


/// After the profile window `closing` closes, the profile picker is shown
/// when no other profile window remains.
pub open spec fn picker_after_close(labels: Seq<Seq<char>>, closing: Seq<char>) -> bool {
    !exists|i: int| 0 <= i < labels.len() && is_profile_label(#[trigger] labels[i]) && labels[i] != closing
}

/// Whether closing the window `closing` leaves no profile window, so that
/// the profile picker is shown again.
pub fn show_picker_after_close(labels: &Vec<String>, closing: &str) -> (b: bool)
    ensures
        b == picker_after_close(string_views(labels@), closing@),
{
    let ghost s = string_views(labels@);
    let cc = chars_of(closing);
    let prefix = chars_of("main-");
    let mut i: usize = 0;
    while i < labels.len()
        invariant
            i <= labels.len(),
            s == string_views(labels@),
            cc@ == closing@,
            prefix@ == "main-"@,
            forall|k: int| 0 <= k < i ==> !(is_profile_label(#[trigger] s[k]) && s[k] != closing@),
        decreases labels.len() - i,
    {
        let lc = chars_of(labels[i].as_str());
        if starts_with_exec(&lc, &prefix) && !chars_eq(&lc, &cc) {
            assert(is_profile_label(s[i as int]) && s[i as int] != closing@);
            return false;
        }
        i = i + 1;
    }
    true
}

/// The window whose session the periodic capture saves: the focused window
/// when it belongs to a profile and is still open; with no focused window,
/// the first profile window still open; otherwise none.
pub open spec fn capture_target(
    focused: Option<Seq<char>>,
    windows: Seq<(Seq<char>, Seq<char>)>,
    open: Seq<Seq<char>>,
) -> Option<int> {
    match focused {
        Some(f) => {
            let k = first_window_with(windows, |l: Seq<char>| l == f);
            if k >= 0 && open.contains(f) {
                Some(k)
            } else {
                None
            }
        },
        None => {
            let k = first_window_with(windows, |l: Seq<char>| open.contains(l));
            if k >= 0 {
                Some(k)
            } else {
                None
            }
        },
    }
}

/// Index of the first window (label and profile id) whose label satisfies
/// `p`, or -1.
pub open spec fn first_window_with(w: Seq<(Seq<char>, Seq<char>)>, p: spec_fn(Seq<char>) -> bool) -> int
    decreases w.len(),
{
    if w.len() == 0 {
        -1
    } else if p(w[0].0) {
        0
    } else if first_window_with(w.drop_first(), p) < 0 {
        -1
    } else {
        first_window_with(w.drop_first(), p) + 1
    }
}

/// The label and profile-id texts of profile windows.
pub open spec fn window_views(v: Seq<(String, String)>) -> Seq<(Seq<char>, Seq<char>)> {
    v.map_values(|e: (String, String)| (e.0@, e.1@))
}

fn first_window_exec(windows: &Vec<(String, String)>, open: &Vec<String>, only: Option<&str>) -> (r: Option<usize>)
    ensures
        ({
            let w = window_views(windows@);
            let k = match only {
                Some(f) => first_window_with(w, |l: Seq<char>| l == f@),
                None => first_window_with(w, |l: Seq<char>| string_views(open@).contains(l)),
            };
            match r {
                Some(i) => k == i,
                None => k == -1,
            }
        }),
{
    let ghost w = window_views(windows@);
    let ghost p = match only {
        Some(f) => |l: Seq<char>| l == f@,
        None => |l: Seq<char>| string_views(open@).contains(l),
    };
    let mut i: usize = 0;
    assert(w.skip(0) =~= w);
    while i < windows.len()
        invariant
            i <= windows.len(),
            w == window_views(windows@),
            p == (match only {
                Some(f) => |l: Seq<char>| l == f@,
                None => |l: Seq<char>| string_views(open@).contains(l),
            }),
            first_where_pairs_ok(w, p, i as int),
        decreases windows.len() - i,
    {
        assert(w.skip(i as int)[0] == (windows@[i as int].0@, windows@[i as int].1@));
        assert(w.skip(i as int).drop_first() =~= w.skip(i + 1));
        let lc = chars_of(windows[i].0.as_str());
        let hit = match only {
            Some(f) => chars_eq(&lc, &chars_of(f)),
            None => index_of_exec(open, &lc).is_some(),
        };
        proof {
            lemma_index_of_contains(string_views(open@), lc@);
        }
        if hit {
            return Some(i);
        }
        i = i + 1;
    }
    None
}

/// The relation kept while scanning windows: the first match in `w` is
/// found from position `i` on.
pub open spec fn first_where_pairs_ok(w: Seq<(Seq<char>, Seq<char>)>, p: spec_fn(Seq<char>) -> bool, i: int) -> bool {
    &&& 0 <= i <= w.len()
    &&& first_window_with(w, p) == (if first_window_with(w.skip(i), p) < 0 {
        -1
    } else {
        first_window_with(w.skip(i), p) + i
    })
}

/// `index_of` finds exactly the texts the sequence contains.
pub proof fn lemma_index_of_contains(s: Seq<Seq<char>>, x: Seq<char>)
    ensures
        (index_of(s, x) >= 0) == s.contains(x),
    decreases s.len(),
{
    if s.len() > 0 {
        lemma_index_of_contains(s.drop_first(), x);
        if s[0] != x {
            if s.contains(x) {
                let k = choose|k: int| 0 <= k < s.len() && s[k] == x;
                assert(s.drop_first()[k - 1] == x);
            }
            if s.drop_first().contains(x) {
                let k = choose|k: int| 0 <= k < s.len() - 1 && s.drop_first()[k] == x;
                assert(s[k + 1] == x);
            }
        } else {
            assert(s[0] == x);
        }
    }
}

/// Picks the window whose session the periodic capture saves, among the
/// profile windows (label and profile id) and the labels of the windows
/// still open.
pub fn session_capture_target(focused: Option<&str>, windows: &Vec<(String, String)>, open: &Vec<String>) -> (r: Option<usize>)
    ensures
        match r {
            Some(i) => capture_target(crate::text::opt_str_text(focused), window_views(windows@), string_views(open@))
                == Some(i as int),
            None => capture_target(crate::text::opt_str_text(focused), window_views(windows@), string_views(open@))
                is None,
        },
{
    match focused {
        Some(f) => {
            let k = first_window_exec(windows, open, Some(f));
            let is_open = index_of_exec(open, &chars_of(f)).is_some();
            proof {
                lemma_index_of_contains(string_views(open@), f@);
                let fv = f@;
                let w = window_views(windows@);
                assert((|l: Seq<char>| l == f@) =~= (|l: Seq<char>| l == fv));
                assert(first_window_with(w, |l: Seq<char>| l == fv) == first_window_with(w, |l: Seq<char>| l == f@));
            }
            match k {
                Some(i) => if is_open {
                    Some(i)
                } else {
                    None
                },
                None => None,
            }
        },
        None => first_window_exec(windows, open, None),
    }
}
} // verus!
