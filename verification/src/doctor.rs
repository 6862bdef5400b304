//! The troubleshooting summary shown in the About dialog and printed by
//! `supershot --doctor`: everything that decides how SuperShot behaves on a
//! machine, in a form that can be pasted into a bug report.

use crate::advice::backend_word;
use crate::capture::DisplayBackend;
use crate::text::{decimal, decimal_string, join_strings, join_with, views};
use vstd::prelude::*;
use vstd::string::*;

verus! {

/// What the report is made from, as observed on the running system.
pub struct SessionFacts {
    /// The application version.
    pub version: String,
    /// The packaging channel (`native`, `Flatpak`, `Snap` or `AppImage`).
    pub channel: String,
    /// GTK's major, minor and micro version.
    pub gtk_version: (u32, u32, u32),
    /// Libadwaita's major, minor and micro version.
    pub adw_version: (u32, u32, u32),
    /// The display backend in use.
    pub backend: DisplayBackend,
    /// `XDG_SESSION_TYPE`, if set.
    pub session_type: Option<String>,
    /// `XDG_CURRENT_DESKTOP`, if set.
    pub desktop: Option<String>,
    /// `GDK_BACKEND`, if set.
    pub gdk_backend: Option<String>,
    /// `LANG`, if set.
    pub lang: Option<String>,
    /// The directory translations are read from.
    pub catalogs: String,
    /// Whether a screenshot portal owns its name on the session bus.
    pub portal: bool,
    /// The fallback tools found on the session.
    pub tools: Vec<String>,
}

/// A version triple as `major.minor.micro`.
pub open spec fn version_text(v: (u32, u32, u32)) -> Seq<char> {
    decimal(v.0 as nat) + "."@ + decimal(v.1 as nat) + "."@ + decimal(v.2 as nat)
}

/// An environment value, or `(unset)`.
pub open spec fn env_text(v: Option<String>) -> Seq<char> {
    match v {
        Some(s) => s@,
        None => "(unset)"@,
    }
}

/// The fallback tools as a list, or `(none)`.
pub open spec fn tools_text(tools: Seq<String>) -> Seq<char> {
    if tools.len() == 0 {
        "(none)"@
    } else {
        join_with(views(tools), ", "@)
    }
}

/// The report, one `name: value` line per fact, in groups separated by a
/// blank line.
pub open spec fn spec_session_report(f: SessionFacts) -> Seq<char> {
    "SuperShot "@ + f.version@
        + "\nPackaging: "@ + f.channel@
        + "\nGTK: "@ + version_text(f.gtk_version)
        + "\nLibadwaita: "@ + version_text(f.adw_version)
        + "\n\nDisplay server: "@ + backend_word(f.backend)
        + "\nXDG_SESSION_TYPE: "@ + env_text(f.session_type)
        + "\nXDG_CURRENT_DESKTOP: "@ + env_text(f.desktop)
        + "\nGDK_BACKEND: "@ + env_text(f.gdk_backend)
        + "\n\nLocale: "@ + env_text(f.lang)
        + "\nCatalogs: "@ + f.catalogs@
        + "\n\nScreenshot portal: "@ + (if f.portal { "available"@ } else { "not detected"@ })
        + "\nFallback tools found: "@ + tools_text(f.tools@)
        + "\n"@
}

fn version_string(v: (u32, u32, u32)) -> (out: String)
    ensures
        out@ == version_text(v),
{
    let mut out = decimal_string(v.0 as u64);
    out.append(".");
    out.append(decimal_string(v.1 as u64).as_str());
    out.append(".");
    out.append(decimal_string(v.2 as u64).as_str());
    out
}

fn env_string(v: &Option<String>) -> (out: &str)
    ensures
        out@ == env_text(*v),
{
    match v {
        Some(s) => s.as_str(),
        None => "(unset)",
    }
}

/// The troubleshooting report for the facts observed.
pub fn session_report(f: &SessionFacts) -> (out: String)
    ensures
        out@ == spec_session_report(*f),
{
    let mut out = String::from_str("SuperShot ");
    out.append(f.version.as_str());
    out.append("\nPackaging: ");
    out.append(f.channel.as_str());
    out.append("\nGTK: ");
    out.append(version_string(f.gtk_version).as_str());
    out.append("\nLibadwaita: ");
    out.append(version_string(f.adw_version).as_str());
    out.append("\n\nDisplay server: ");
    out.append(f.backend.name());
    out.append("\nXDG_SESSION_TYPE: ");
    out.append(env_string(&f.session_type));
    out.append("\nXDG_CURRENT_DESKTOP: ");
    out.append(env_string(&f.desktop));
    out.append("\nGDK_BACKEND: ");
    out.append(env_string(&f.gdk_backend));
    out.append("\n\nLocale: ");
    out.append(env_string(&f.lang));
    out.append("\nCatalogs: ");
    out.append(f.catalogs.as_str());
    out.append("\n\nScreenshot portal: ");
    out.append(if f.portal { "available" } else { "not detected" });
    out.append("\nFallback tools found: ");
    if f.tools.len() == 0 {
        out.append("(none)");
    } else {
        out.append(join_strings(&f.tools, ", ").as_str());
    }
    out.append("\n");
    out
}

} // verus!
