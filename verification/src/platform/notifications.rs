//! Desktop notifications.
use vstd::prelude::*;

use crate::text::{chars_of, push_chars};

verus! {

/// The title of update notifications.
pub const UPDATE_TITLE: &'static str = "Qwem Studio Linux Update";

/// The text of the update notification: the version, then the release notes
/// after a blank line when there are any.
pub open spec fn update_message(version: Seq<char>, notes: Seq<char>) -> Seq<char> {
    if notes.len() == 0 {
        "Version "@ + version + " is available"@
    } else {
        "Version "@ + version + " is available\n\n"@ + notes
    }
}

/// The notification announcing version `version`, as title and message.
pub fn show_update(version: &str, notes: &str) -> (r: (String, String))
    ensures
        r.0@ == UPDATE_TITLE@,
        r.1@ == update_message(version@, notes@),
{
    let mut message = "Version ".to_owned();
    push_chars(&mut message, &chars_of(version));
    push_chars(&mut message, &chars_of(" is available"));
    let nc = chars_of(notes);
    if nc.len() > 0 {
        push_chars(&mut message, &chars_of("\n\n"));
        push_chars(&mut message, &nc);
    }
    proof {
        reveal_strlit(" is available");
        reveal_strlit("\n\n");
        reveal_strlit(" is available\n\n");
        assert(" is available"@ + "\n\n"@ =~= " is available\n\n"@);
        if notes@.len() != 0 {
            assert("Version "@ + version@ + " is available"@ + "\n\n"@ + notes@ =~= "Version "@ + version@ + " is available\n\n"@ + notes@);
        }
    }
    (UPDATE_TITLE.to_owned(), message)
}

} // verus!
