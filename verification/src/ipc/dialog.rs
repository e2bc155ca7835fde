//! Native message dialogs.
use vstd::prelude::*;

use crate::text::{chars_eq, chars_of, str_to_lowercase, unicode_lowercase};

verus! {

/// The look of a message dialog.
#[derive(Debug, Clone, Copy, PartialEq, Eq, Structural)]
pub enum DialogKind {
    Error,
    Warning,
    Info,
}

/// A dialog titled `error` or `warning` (in any case) gets that look;
/// every other dialog is informational.
pub open spec fn kind_for_title(title: Seq<char>) -> DialogKind {
    if unicode_lowercase(title) == "error"@ {
        DialogKind::Error
    } else if unicode_lowercase(title) == "warning"@ {
        DialogKind::Warning
    } else {
        DialogKind::Info
    }
}

/// The look of a dialog with the title `title`.
pub fn dialog_kind(title: &str) -> (k: DialogKind)
    ensures
        k == kind_for_title(title@),
{
    let lower = chars_of(str_to_lowercase(title).as_str());
    if chars_eq(&lower, &chars_of("error")) {
        DialogKind::Error
    } else if chars_eq(&lower, &chars_of("warning")) {
        DialogKind::Warning
    } else {
        DialogKind::Info
    }
}

/// The answer a dialog gives back: `ok` when confirmed, else `cancel`.
pub fn dialog_answer(confirmed: bool) -> (r: &'static str)
    ensures
        r@ == (if confirmed {
            "ok"@
        } else {
            "cancel"@
        }),
{
    if confirmed {
        "ok"
    } else {
        "cancel"
    }
}

} // verus!
