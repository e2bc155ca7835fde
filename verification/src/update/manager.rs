//! What the application remembers between update checks.
use vstd::prelude::*;

use crate::config::schema::UpdateInfo;

verus! {

/// `std::time::Instant`, carried through as an opaque value.
#[verifier::external_type_specification]
#[verifier::external_body]
pub struct ExInstant(std::time::Instant);

/// Calls `std::time::Instant::now`.  Trusted; nothing is stated of the
/// result, which is the current time.
#[verifier::external_body]
fn instant_now() -> (r: std::time::Instant) {
    std::time::Instant::now()
}

/// The time of the last update check and the last result found.
pub struct UpdateManager {
    last_check: Option<std::time::Instant>,
    cached_info: Option<UpdateInfo>,
}

impl UpdateManager {
    /// An update check has been made.
    pub closed spec fn checked(&self) -> bool {
        self.last_check is Some
    }

    /// The last update result recorded, if any.
    pub closed spec fn cached(&self) -> Option<UpdateInfo> {
        self.cached_info
    }

    /// No check made and nothing cached.
    pub fn new() -> (r: Self)
        ensures
            !r.checked(),
            r.cached() is None,
    {
        UpdateManager { last_check: None, cached_info: None }
    }

    /// Records that a check was made now; the cached result is kept.
    pub fn set_last_check(&mut self)
        ensures
            check_step(*old(self), *final(self)),
    {
        self.last_check = Some(instant_now());
    }

    /// Records `info` as the latest result; the check time is kept.
    pub fn cache_info(&mut self, info: UpdateInfo)
        ensures
            cache_step(*old(self), *final(self), info),
    {
        self.cached_info = Some(info);
    }

    /// The latest recorded result.
    pub fn get_cached(&self) -> (r: Option<&UpdateInfo>)
        ensures
            r is Some == self.cached() is Some,
            r matches Some(i) ==> *i == self.cached()->0,
    {
        match &self.cached_info {
            Some(i) => Some(i),
            None => None,
        }
    }
}

/// `after` is `before` once a check was recorded: checked, with the same
/// cached result.
pub open spec fn check_step(before: UpdateManager, after: UpdateManager) -> bool {
    after.checked() && after.cached() == before.cached()
}

/// `after` is `before` once `info` was cached: `info` is the cached result,
/// and whether a check was made is unchanged.
pub open spec fn cache_step(before: UpdateManager, after: UpdateManager, info: UpdateInfo) -> bool {
    after.cached() == Some(info) && after.checked() == before.checked()
}

/// The last result cached stays what `get_cached` gives through any number
/// of later recorded checks: `states` runs from caching `info` through
/// recorded checks only.
pub proof fn law_cached_survives_checks(states: Seq<UpdateManager>, info: UpdateInfo)
    requires
        states.len() >= 2,
        cache_step(states[0], states[1], info),
        forall|i: int| 1 <= i < states.len() - 1 ==> check_step(#[trigger] states[i], states[i + 1]),
    ensures
        states.last().cached() == Some(info),
    decreases states.len(),
{
    if states.len() > 2 {
        let shorter = states.drop_last();
        assert forall|i: int| 1 <= i < shorter.len() - 1 implies check_step(#[trigger] shorter[i], shorter[i + 1]) by {
            assert(shorter[i] == states[i] && shorter[i + 1] == states[i + 1]);
        }
        law_cached_survives_checks(shorter, info);
        let n = states.len() - 2;
        assert(check_step(states[n], states[n + 1]));
    }
}

} // verus!
