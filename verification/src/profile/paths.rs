//! Where each profile keeps its list entry, its browsing data and its saved
//! session, under the application's configuration directory.
use vstd::prelude::*;

use crate::config::paths::{join, join_path};
use crate::text::{chars_of, push_chars, starts_with};

verus! {

/// The directory that holds all profile data.
pub open spec fn profiles_root_path(config_dir: Seq<char>) -> Seq<char> {
    join(config_dir, "profiles"@)
}

/// The file that lists the profiles.
pub open spec fn profiles_file_path(config_dir: Seq<char>) -> Seq<char> {
    join(profiles_root_path(config_dir), "profiles.json"@)
}

/// The browsing-data directory of a profile.
pub open spec fn data_dir_path(config_dir: Seq<char>, profile_id: Seq<char>) -> Seq<char> {
    join(profiles_root_path(config_dir), profile_id)
}

/// The saved session of a profile.
pub open spec fn session_file_path(config_dir: Seq<char>, profile_id: Seq<char>) -> Seq<char> {
    join(profiles_root_path(config_dir), profile_id + ".session.json"@)
}

/// The directory that holds all profile data.
pub fn profiles_root(config_dir: &str) -> (r: String)
    ensures
        r@ == profiles_root_path(config_dir@),
{
    join_path(config_dir, "profiles")
}

/// The file that lists the profiles.
pub fn profiles_file(config_dir: &str) -> (r: String)
    ensures
        r@ == profiles_file_path(config_dir@),
{
    let root = profiles_root(config_dir);
    join_path(root.as_str(), "profiles.json")
}

/// The browsing-data directory of the profile `profile_id`.
pub fn data_dir_for(config_dir: &str, profile_id: &str) -> (r: String)
    ensures
        r@ == data_dir_path(config_dir@, profile_id@),
{
    let root = profiles_root(config_dir);
    join_path(root.as_str(), profile_id)
}

/// The saved session of the profile `profile_id`.
pub fn session_file(config_dir: &str, profile_id: &str) -> (r: String)
    ensures
        r@ == session_file_path(config_dir@, profile_id@),
{
    let root = profiles_root(config_dir);
    let mut name = profile_id.to_owned();
    push_chars(&mut name, &chars_of(".session.json"));
    join_path(root.as_str(), name.as_str())
}


/// Each profile has its own data directory inside the profiles directory:
/// for ids that are not absolute paths, the data directory lies under the
/// profiles root, and different ids get different directories.
pub proof fn law_profile_dirs_isolated(config_dir: Seq<char>, a: Seq<char>, b: Seq<char>)
    requires
        !starts_with(a, "/"@),
        !starts_with(b, "/"@),
    ensures
        starts_with(data_dir_path(config_dir, a), profiles_root_path(config_dir) + "/"@),
        data_dir_path(config_dir, a) == data_dir_path(config_dir, b) ==> a == b,
{
    reveal_strlit("profiles");
    reveal_strlit("/");
    let root = profiles_root_path(config_dir);
    assert(!starts_with("profiles"@, "/"@)) by {
        assert("profiles"@.subrange(0, 1)[0] == 'p');
    }
    assert(root.len() > 0 && root.last() == 's') by {
        if config_dir.len() == 0 || config_dir.last() == '/' {
            assert(root == config_dir + "profiles"@);
        } else {
            assert(root == config_dir + "/"@ + "profiles"@);
        }
    }
    assert(data_dir_path(config_dir, a) == root + "/"@ + a);
    assert(data_dir_path(config_dir, b) == root + "/"@ + b);
    let pa = root + "/"@ + a;
    assert(pa.subrange(0, root.len() + 1 as int) =~= root + "/"@);
    if data_dir_path(config_dir, a) == data_dir_path(config_dir, b) {
        let pb = root + "/"@ + b;
        assert(a =~= pa.subrange(root.len() + 1 as int, pa.len() as int));
        assert(b =~= pb.subrange(root.len() + 1 as int, pb.len() as int));
    }
}

/// Profiles created through the profile list each get their own data
/// directory under the profiles root.
pub proof fn law_created_profiles_isolated(
    config_dir: Seq<char>,
    a: Seq<char>,
    b: Seq<char>,
    name_a: Seq<char>,
    name_b: Seq<char>,
    ps_a: Seq<crate::profile::Profile>,
    ps_b: Seq<crate::profile::Profile>,
)
    requires
        crate::profile::manager::is_unique_id_for(a, crate::profile::manager::id_base(name_a), ps_a),
        crate::profile::manager::is_unique_id_for(b, crate::profile::manager::id_base(name_b), ps_b),
    ensures
        starts_with(data_dir_path(config_dir, a), profiles_root_path(config_dir) + "/"@),
        data_dir_path(config_dir, a) == data_dir_path(config_dir, b) ==> a == b,
{
    crate::profile::manager::law_generated_ids_plain(a, name_a, ps_a);
    crate::profile::manager::law_generated_ids_plain(b, name_b, ps_b);
    reveal_strlit("/");
    if starts_with(a, "/"@) {
        assert(a.subrange(0, 1)[0] == a[0]);
        assert(crate::text::has_char(a, '/'));
    }
    if starts_with(b, "/"@) {
        assert(b.subrange(0, 1)[0] == b[0]);
        assert(crate::text::has_char(b, '/'));
    }
    law_profile_dirs_isolated(config_dir, a, b);
}
} // verus!
