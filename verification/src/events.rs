//! Events the page sends to every window.
use vstd::prelude::*;

use crate::text::{chars_eq, chars_of, opt_str_text};

verus! {

/// The event types the page may broadcast.
pub open spec fn allowed_event_types() -> Seq<Seq<char>> {
    seq!["theme_changed"@, "language_changed"@, "system_theme_changed"@, "webview-loaded"@]
}

/// An event is passed on unless it names a type outside the allowed list
/// (events without a textual type pass).
pub open spec fn forwarded(event_type: Option<Seq<char>>) -> bool {
    match event_type {
        Some(t) => allowed_event_types().contains(t),
        None => true,
    }
}

/// Whether an event whose `type` field is `event_type` (when it is text) is
/// passed on to the windows.
pub fn forward_event(event_type: Option<&str>) -> (b: bool)
    ensures
        b == forwarded(opt_str_text(event_type)),
{
    match event_type {
        Some(t) => {
            let tc = chars_of(t);
            let allowed = vec!["theme_changed", "language_changed", "system_theme_changed", "webview-loaded"];
            let ghost a = allowed_event_types();
            assert(forall|k: int| 0 <= k < 4 ==> #[trigger] allowed@[k]@ == a[k]);
            let mut i: usize = 0;
            while i < allowed.len()
                invariant
                    i <= allowed.len(),
                    allowed.len() == 4,
                    a == allowed_event_types(),
                    tc@ == t@,
                    event_type == Some(t),
                    forall|k: int| 0 <= k < 4 ==> #[trigger] allowed@[k]@ == a[k],
                    forall|k: int| 0 <= k < i ==> #[trigger] a[k] != t@,
                decreases allowed.len() - i,
            {
                if chars_eq(&tc, &chars_of(allowed[i])) {
                    assert(a[i as int] == t@);
                    assert(a.contains(t@));
                    return true;
                }
                i = i + 1;
            }
            assert(!a.contains(t@));
            false
        },
        None => true,
    }
}

} // verus!
