//! Profiles: isolated chat sessions, each with its own id, name and data.
pub mod manager;
pub mod paths;
pub mod session;

use vstd::prelude::*;

verus! {

/// A user profile.  `id` names the profile's data directory and window.
#[derive(Debug, PartialEq)]
pub struct Profile {
    pub id: String,
    pub name: String,
    pub category: Option<String>,
    pub icon: Option<String>,
}

/// Copies an optional string.
pub fn copy_opt_string(o: &Option<String>) -> (r: Option<String>)
    ensures
        r == *o,
{
    match o {
        Some(s) => Some(s.clone()),
        None => None,
    }
}

impl Profile {
    /// A field-by-field copy of the profile.
    pub fn duplicate(&self) -> (r: Profile)
        ensures
            r == *self,
    {
        Profile {
            id: self.id.clone(),
            name: self.name.clone(),
            category: copy_opt_string(&self.category),
            icon: copy_opt_string(&self.icon),
        }
    }
}

impl Clone for Profile {
    fn clone(&self) -> (r: Self)
        ensures
            r == *self,
    {
        self.duplicate()
    }
}

} // verus!
