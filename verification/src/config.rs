//! Application identifiers and the runtime resolution of installation paths.
//!
//! SuperShot ships through channels that each place data files somewhere
//! different (distribution packages, Flatpak, Snap, AppImage), so the locale
//! catalogs are located at runtime from what the process can observe.

use crate::text::{join, join_path, opt_view, views};
use vstd::prelude::*;
use vstd::string::*;

verus! {

/// Reverse-DNS application identifier, used for GSettings, D-Bus, and desktop integration.
pub const APP_ID: &'static str = "com.github.axpnet.SuperShot";

/// Gettext domain name for translation lookup.
pub const GETTEXT_PACKAGE: &'static str = "supershot";

/// Last-resort locale directory when no installation prefix can be determined.
pub const FALLBACK_LOCALEDIR: &'static str = "/usr/share/locale";

/// True when running inside any sandbox that blocks execution of host
/// binaries, given whether the process runs under Flatpak and under Snap.
///
/// The command-line screenshot fallbacks live on the host and are unreachable
/// from strict confinement, so suggesting that the user install them would
/// be misleading advice.
pub fn is_sandboxed(flatpak: bool, snap: bool) -> (b: bool)
    ensures
        b == (flatpak || snap),
{
    flatpak || snap
}

/// Which packaging channel this build is running from.
pub fn channel(flatpak: bool, snap: bool, appimage: bool) -> (s: &'static str)
    ensures
        s@ == if flatpak {
            "Flatpak"@
        } else if snap {
            "Snap"@
        } else if appimage {
            "AppImage"@
        } else {
            "native"@
        },
{
    if flatpak {
        "Flatpak"
    } else if snap {
        "Snap"
    } else if appimage {
        "AppImage"
    } else {
        "native"
    }
}

/// The locale directories to probe, most specific first: an explicit
/// override, the Flatpak location, the Snap location, `share/locale` under
/// the installation prefix, the catalogs of the build tree, and the fallback.
pub open spec fn spec_locale_candidates(
    override_dir: Option<Seq<char>>,
    flatpak: bool,
    snap: Option<Seq<char>>,
    prefix: Option<Seq<char>>,
    build_dir: Seq<char>,
) -> Seq<Seq<char>> {
    (match override_dir {
        Some(d) => seq![d],
        None => seq![],
    }) + (if flatpak { seq!["/app/share/locale"@] } else { seq![] }) + (match snap {
        Some(s) => seq![join_path(s, "usr/share/locale"@)],
        None => seq![],
    }) + (match prefix {
        Some(p) => seq![join_path(p, "share/locale"@)],
        None => seq![],
    }) + seq![build_dir, "/usr/share/locale"@]
}


/// The locale directories to probe, in order. `override_dir` is
/// `SUPERSHOT_LOCALEDIR`, `snap` is `SNAP`, `prefix` the installation prefix
/// derived from the running executable, and `build_dir` the catalogs compiled
/// into the build tree.
pub fn locale_candidates(
    override_dir: Option<&str>,
    flatpak: bool,
    snap: Option<&str>,
    prefix: Option<&str>,
    build_dir: &str,
) -> (out: Vec<String>)
    ensures
        views(out@) == spec_locale_candidates(opt_view(override_dir), flatpak, opt_view(snap), opt_view(prefix), build_dir@),
{
    let mut out: Vec<String> = Vec::new();
    if let Some(d) = override_dir {
        out.push(String::from_str(d));
    }
    if flatpak {
        out.push(String::from_str("/app/share/locale"));
    }
    if let Some(s) = snap {
        out.push(join(s, "usr/share/locale"));
    }
    if let Some(p) = prefix {
        out.push(join(p, "share/locale"));
    }
    out.push(String::from_str(build_dir));
    out.push(String::from_str(FALLBACK_LOCALEDIR));
    proof {
        assert(views(out@) =~= spec_locale_candidates(
            opt_view(override_dir),
            flatpak,
            opt_view(snap),
            opt_view(prefix),
            build_dir@,
        ));
    }
    out
}

/// Index of the first candidate that exists on disk, if any.
pub open spec fn first_present(present: Seq<bool>, n: int) -> Option<int>
    decreases n,
{
    if n <= 0 {
        None
    } else {
        match first_present(present, n - 1) {
            Some(i) => Some(i),
            None => if present[n - 1] {
                Some(n - 1)
            } else {
                None
            },
        }
    }
}

/// The directory holding the compiled catalogs: the first candidate that
/// exists (`present[i]` for `candidates[i]`), or the fallback when none does.
pub fn localedir(candidates: &Vec<String>, present: &Vec<bool>) -> (dir: String)
    requires
        candidates@.len() == present@.len(),
    ensures
        dir@ == match first_present(present@, present@.len() as int) {
            Some(i) => candidates@[i]@,
            None => FALLBACK_LOCALEDIR@,
        },
{
    let n = candidates.len();
    let mut i: usize = 0;
    while i < n
        invariant
            n == candidates@.len(),
            candidates@.len() == present@.len(),
            i <= n,
            first_present(present@, i as int) is None,
        decreases n - i,
    {
        if present[i] {
            proof {
                lemma_first_present_stable(present@, i as int + 1, present@.len() as int);
            }
            return candidates[i].clone();
        }
        i = i + 1;
    }
    String::from_str(FALLBACK_LOCALEDIR)
}

proof fn lemma_first_present_stable(present: Seq<bool>, k: int, n: int)
    requires
        0 < k <= n,
        first_present(present, k) is Some,
    ensures
        first_present(present, n) == first_present(present, k),
    decreases n - k,
{
    if n > k {
        lemma_first_present_stable(present, k, n - 1);
    }
}

} // verus!
