//! How the running copy was installed, and how an update is installed.
use vstd::prelude::*;

use crate::text::{chars_of, contains_exec, contains_str, str_to_lowercase, unicode_lowercase};

verus! {

/// The ways the application can be installed.
#[derive(Debug, Clone, Copy, PartialEq, Eq, Structural)]
pub enum BundleType {
    AppImage,
    Deb,
    Rpm,
    Unknown,
}

/// The bundle type: an AppImage when the executable's path (lowercased)
/// mentions `appimage` or `APPIMAGE` is set; else a Debian package when
/// `dpkg` knows the package; else an RPM package when `rpm` knows it.
pub open spec fn bundle_type(exe_path: Option<Seq<char>>, appimage_env: bool, deb_installed: bool, rpm_installed: bool) -> BundleType {
    if exe_path is Some && (contains_str(unicode_lowercase(exe_path->0), "appimage"@) || appimage_env) {
        BundleType::AppImage
    } else if deb_installed {
        BundleType::Deb
    } else if rpm_installed {
        BundleType::Rpm
    } else {
        BundleType::Unknown
    }
}

/// Decides the bundle type.  `exe_path` is the running executable (when it
/// could be found), `appimage_env` whether `APPIMAGE` is set, and
/// `deb_installed` and `rpm_installed` whether `dpkg --status` and `rpm -q`
/// succeed for the package.
pub fn detect_bundle_type(exe_path: Option<&str>, appimage_env: bool, deb_installed: bool, rpm_installed: bool) -> (b: BundleType)
    ensures
        b == bundle_type(
            match exe_path {
                Some(p) => Some(p@),
                None => None,
            },
            appimage_env,
            deb_installed,
            rpm_installed,
        ),
{
    if let Some(p) = exe_path {
        let lower = str_to_lowercase(p);
        if contains_exec(&chars_of(lower.as_str()), &chars_of("appimage")) || appimage_env {
            return BundleType::AppImage;
        }
    }
    if deb_installed {
        return BundleType::Deb;
    }
    if rpm_installed {
        return BundleType::Rpm;
    }
    BundleType::Unknown
}

/// How an update file is installed.
#[derive(Debug, Clone, PartialEq)]
pub enum InstallPlan {
    /// Run `program` with `args` and report whether it succeeded.
    Command { program: String, args: Vec<String> },
    /// Move the running executable aside (extension `old`), copy the update
    /// over it and make it executable.
    ReplaceAppImage,
}

/// The message for a bundle type that cannot be updated in place.
pub open spec fn msg_unknown_bundle() -> Seq<char> {
    "Unknown bundle type. Please install manually."@
}

/// The install step for each bundle type: `pkexec dpkg -i FILE` for Debian
/// packages, `pkexec rpm -Uvh FILE` for RPM packages, replacing the file for
/// AppImages, and an error otherwise.
pub open spec fn plan_for(bundle: BundleType, file: Seq<char>, r: Result<InstallPlan, String>) -> bool {
    match bundle {
        BundleType::Deb => r matches Ok(InstallPlan::Command { program, args }) && program@ == "pkexec"@
            && crate::text::string_views(args@) == seq!["dpkg"@, "-i"@, file],
        BundleType::Rpm => r matches Ok(InstallPlan::Command { program, args }) && program@ == "pkexec"@
            && crate::text::string_views(args@) == seq!["rpm"@, "-Uvh"@, file],
        BundleType::AppImage => r matches Ok(InstallPlan::ReplaceAppImage),
        BundleType::Unknown => r matches Err(e) && e@ == msg_unknown_bundle(),
    }
}

/// The install step for an update file at `file_path`.
pub fn install_plan(bundle: BundleType, file_path: &str) -> (r: Result<InstallPlan, String>)
    ensures
        plan_for(bundle, file_path@, r),
{
    match bundle {
        BundleType::Deb => {
            let args = vec!["dpkg".to_owned(), "-i".to_owned(), file_path.to_owned()];
            assert(crate::text::string_views(args@) =~= seq!["dpkg"@, "-i"@, file_path@]);
            Ok(InstallPlan::Command { program: "pkexec".to_owned(), args })
        },
        BundleType::Rpm => {
            let args = vec!["rpm".to_owned(), "-Uvh".to_owned(), file_path.to_owned()];
            assert(crate::text::string_views(args@) =~= seq!["rpm"@, "-Uvh"@, file_path@]);
            Ok(InstallPlan::Command { program: "pkexec".to_owned(), args })
        },
        BundleType::AppImage => Ok(InstallPlan::ReplaceAppImage),
        BundleType::Unknown => Err("Unknown bundle type. Please install manually.".to_owned()),
    }
}

/// The result reported after a package command ran.
pub fn command_outcome(success: bool) -> (r: Result<String, String>)
    ensures
        success ==> (r matches Ok(m) && m@ == "Installation complete"@),
        !success ==> (r matches Err(e) && e@ == "Installation failed"@),
{
    if success {
        Ok("Installation complete".to_owned())
    } else {
        Err("Installation failed".to_owned())
    }
}

/// The result reported after an AppImage was replaced.
pub fn appimage_outcome() -> (r: Result<String, String>)
    ensures
        r matches Ok(m) && m@ == "AppImage updated. Please restart."@,
{
    Ok("AppImage updated. Please restart.".to_owned())
}

} // verus!
