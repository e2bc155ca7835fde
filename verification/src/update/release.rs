//! What the application takes from the latest release published on GitHub.
use vstd::prelude::*;

use crate::platform::menu::{strip_all, strip_all_exec};
use crate::text::{
    chars_of, contains_exec, contains_str, ends_with, ends_with_exec, opt_str_text, opt_view, str_to_lowercase,
    string_of, unicode_lowercase,
};

verus! {

/// The version a release tag names: the tag without its leading `v`s;
/// `0.0.0` when the release has no tag.
pub open spec fn release_version(tag: Option<Seq<char>>) -> Seq<char> {
    match tag {
        Some(t) => strip_all(t, seq!['v']),
        None => "0.0.0"@,
    }
}

/// An AppImage asset (by its name, in any case).
pub open spec fn appimage_asset(name: Seq<char>) -> bool {
    ends_with(unicode_lowercase(name), ".appimage"@)
}

/// An AppImage asset for this machine's architecture: x86_64 or amd64 in
/// its name, or at least no `arm`.
pub open spec fn preferred_asset(name: Seq<char>) -> bool {
    let n = unicode_lowercase(name);
    appimage_asset(name) && (contains_str(n, "x86_64"@) || contains_str(n, "amd64"@) || !contains_str(n, "arm"@))
}

/// The index of the first asset whose name satisfies `p`, or -1.
pub open spec fn first_asset(assets: Seq<(Seq<char>, Seq<char>)>, p: spec_fn(Seq<char>) -> bool) -> int
    decreases assets.len(),
{
    if assets.len() == 0 {
        -1
    } else if p(assets[0].0) {
        0
    } else {
        let k = first_asset(assets.drop_first(), p);
        if k < 0 {
            -1
        } else {
            k + 1
        }
    }
}

/// The download URL of the release: that of the first preferred AppImage,
/// else of the first AppImage, else none.
pub open spec fn release_download(assets: Seq<(Seq<char>, Seq<char>)>) -> Option<Seq<char>> {
    let i = first_asset(assets, |n: Seq<char>| preferred_asset(n));
    let j = first_asset(assets, |n: Seq<char>| appimage_asset(n));
    if i >= 0 {
        Some(assets[i].1)
    } else if j >= 0 {
        Some(assets[j].1)
    } else {
        None
    }
}

/// Asset names and URLs as plain values.
pub open spec fn asset_views(v: Seq<(String, String)>) -> Seq<(Seq<char>, Seq<char>)> {
    v.map_values(|a: (String, String)| (a.0@, a.1@))
}

proof fn lemma_first_asset(assets: Seq<(Seq<char>, Seq<char>)>, p: spec_fn(Seq<char>) -> bool, i: int)
    requires
        0 <= i <= assets.len(),
        forall|k: int| 0 <= k < i ==> !p(#[trigger] assets[k].0),
    ensures
        i < assets.len() && p(assets[i].0) ==> first_asset(assets, p) == i,
        i == assets.len() ==> first_asset(assets, p) == -1,
    decreases i,
{
    if i > 0 {
        assert(!p(assets[0].0));
        assert forall|k: int| 0 <= k < i - 1 implies !p(#[trigger] assets.drop_first()[k].0) by {
            assert(assets.drop_first()[k] == assets[k + 1]);
        }
        lemma_first_asset(assets.drop_first(), p, i - 1);
    }
}

/// Whether the asset named `name` is an AppImage, and whether it is a
/// preferred one.
fn asset_kind(name: &str) -> (r: (bool, bool))
    ensures
        r.0 == appimage_asset(name@),
        r.1 == preferred_asset(name@),
{
    let n = chars_of(str_to_lowercase(name).as_str());
    let app = ends_with_exec(&n, &chars_of(".appimage"));
    let pref = app && (contains_exec(&n, &chars_of("x86_64")) || contains_exec(&n, &chars_of("amd64"))
        || !contains_exec(&n, &chars_of("arm")));
    (app, pref)
}

/// The version, release notes and download URL of the latest release, from
/// its `tag_name` and `body` (when they are text) and its assets (name and
/// download URL of each asset that has both as text).
pub fn release_summary(tag: Option<&str>, body: Option<&str>, assets: &Vec<(String, String)>) -> (r: (
    String,
    String,
    Option<String>,
))
    ensures
        r.0@ == release_version(opt_str_text(tag)),
        r.1@ == (match body {
            Some(b) => b@,
            None => Seq::<char>::empty(),
        }),
        opt_view(r.2) == release_download(asset_views(assets@)),
{
    let version = match tag {
        Some(t) => {
            let v = vec!['v'];
            proof {
                assert(v@ =~= seq!['v']);
            }
            string_of(&strip_all_exec(&chars_of(t), &v))
        },
        None => "0.0.0".to_owned(),
    };
    let notes = match body {
        Some(b) => b.to_owned(),
        None => String::new(),
    };
    let ghost av = asset_views(assets@);
    let ghost pp = |n: Seq<char>| preferred_asset(n);
    let ghost pa = |n: Seq<char>| appimage_asset(n);
    let mut pref: Option<usize> = None;
    let mut any: Option<usize> = None;
    let mut i: usize = 0;
    while i < assets.len()
        invariant
            i <= assets.len(),
            av == asset_views(assets@),
            match pref {
                Some(k) => k < i && preferred_asset(av[k as int].0) && forall|m: int|
                    0 <= m < k ==> !preferred_asset(#[trigger] av[m].0),
                None => forall|m: int| 0 <= m < i ==> !preferred_asset(#[trigger] av[m].0),
            },
            match any {
                Some(k) => k < i && appimage_asset(av[k as int].0) && forall|m: int|
                    0 <= m < k ==> !appimage_asset(#[trigger] av[m].0),
                None => forall|m: int| 0 <= m < i ==> !appimage_asset(#[trigger] av[m].0),
            },
        decreases assets.len() - i,
    {
        let (is_app, is_pref) = asset_kind(assets[i].0.as_str());
        assert(av[i as int].0 == assets@[i as int].0@);
        if pref.is_none() && is_pref {
            pref = Some(i);
        }
        if any.is_none() && is_app {
            any = Some(i);
        }
        i = i + 1;
    }
    let url = match pref {
        Some(k) => {
            proof {
                lemma_first_asset(av, pp, k as int);
            }
            Some(assets[k].1.clone())
        },
        None => {
            proof {
                lemma_first_asset(av, pp, av.len() as int);
            }
            match any {
                Some(k) => {
                    proof {
                        lemma_first_asset(av, pa, k as int);
                    }
                    Some(assets[k].1.clone())
                },
                None => {
                    proof {
                        lemma_first_asset(av, pa, av.len() as int);
                    }
                    None
                },
            }
        },
    };
    (version, notes, url)
}

} // verus!
