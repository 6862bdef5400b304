//! What to tell the user when no capture path produced an image.
//!
//! A fixed `apt install` line is wrong advice on most distributions, and
//! wrong everywhere inside Flatpak or Snap, where host binaries are
//! unreachable whatever the user installs. The report is therefore built
//! from the session: the sandbox, the display backend, the capture mode and
//! the distribution's package manager.

use crate::capture::{spec_suggested_tools, suggested_tools, CaptureMode, DisplayBackend};
use crate::i18n::translate;
use crate::os_release::{first_segment, install_command, spec_install_command};
use crate::text::{join_strs, join_with, opt_view, replace, replace_all};
use vstd::prelude::*;
use vstd::string::*;

verus! {

/// The name of the sandbox the process runs in: Flatpak, or else Snap.
pub open spec fn channel_name(flatpak: bool) -> Seq<char> {
    if flatpak {
        "Flatpak"@
    } else {
        "Snap"@
    }
}

/// The report inside a sandbox: the portal is the only way to capture, so
/// the advice is to install a portal backend.
pub open spec fn spec_sandbox_message(portal_silent: Seq<char>, advice: Seq<char>, flatpak: bool) -> Seq<char> {
    portal_silent + "\n\n"@ + replace_all(advice, "__CHANNEL__"@, channel_name(flatpak))
}

/// The name of the display backend in a report.
pub open spec fn backend_word(backend: DisplayBackend) -> Seq<char> {
    match backend {
        DisplayBackend::Wayland => "Wayland"@,
        DisplayBackend::X11 => "X11"@,
        DisplayBackend::Unknown => "unknown"@,
    }
}

/// The report outside a sandbox: the lead sentence, the session line with
/// the mode and the backend filled in, the tools to install, and the install
/// command line when there is one.
pub open spec fn spec_missing_tool_message(
    lead: Seq<char>,
    session_line: Seq<char>,
    mode_label: Seq<char>,
    backend: DisplayBackend,
    install_line: Seq<char>,
    hint: Option<Seq<char>>,
) -> Seq<char> {
    let session = replace_all(
        replace_all(session_line, "__MODE__"@, mode_label),
        "__BACKEND__"@,
        backend_word(backend),
    );
    let tools = replace_all(install_line, "__TOOLS__"@, join_with(spec_suggested_tools(backend), ", "@));
    let body = lead + "\n\n"@ + session + "\n\n"@ + tools;
    match hint {
        Some(h) => body + "\n\n"@ + h,
        None => body,
    }
}

/// The install command to suggest: for the first of `tools`, on the
/// distribution described by the `os-release` text, when there is one.
pub open spec fn spec_hint_command(release: Option<Seq<char>>, tools: Seq<Seq<char>>) -> Option<Seq<char>> {
    match release {
        Some(r) => if tools.len() == 0 {
            None
        } else {
            spec_install_command(r, first_segment(tools[0], " + "@))
        },
        None => None,
    }
}

/// The hint line built from the example sentence and the command.
pub open spec fn example_line(example: Seq<char>, cmd: Option<Seq<char>>) -> Option<Seq<char>> {
    match cmd {
        Some(c) => Some(replace_all(example, "__CMD__"@, c)),
        None => None,
    }
}

/// The character sequences of a list of strings.
pub open spec fn str_views(v: Seq<&str>) -> Seq<Seq<char>> {
    v.map_values(|t: &str| t@)
}

/// The untranslated lead sentence of the report outside a sandbox: whether
/// tools were tried and all failed, or none could be tried at all.
pub open spec fn spec_lead_msgid(attempted: bool) -> Seq<char> {
    if attempted {
        "Every available screenshot tool failed to produce an image."@
    } else {
        "No screenshot tool is available for this session."@
    }
}

/// The message id of the report's lead sentence, for translation.
pub fn lead_msgid(attempted: bool) -> (s: &'static str)
    ensures
        s@ == spec_lead_msgid(attempted),
{
    if attempted {
        "Every available screenshot tool failed to produce an image."
    } else {
        "No screenshot tool is available for this session."
    }
}

/// The report inside a sandbox, from its two translated sentences.
pub fn sandbox_message(portal_silent: &str, advice: &str, flatpak: bool) -> (out: String)
    ensures
        out@ == spec_sandbox_message(portal_silent@, advice@, flatpak),
{
    proof {
        reveal_strlit("__CHANNEL__");
    }
    let channel = if flatpak {
        "Flatpak"
    } else {
        "Snap"
    };
    let body = replace(advice, "__CHANNEL__", channel);
    let mut out = String::from_str(portal_silent);
    out.append("\n\n");
    out.append(body.as_str());
    out
}

/// The report outside a sandbox, from its translated sentences and the
/// translated mode label; `hint` is the install-command line, if any.
pub fn missing_tool_message(
    lead: &str,
    session_line: &str,
    mode_label: &str,
    backend: DisplayBackend,
    install_line: &str,
    hint: Option<&str>,
) -> (out: String)
    ensures
        out@ == spec_missing_tool_message(
            lead@,
            session_line@,
            mode_label@,
            backend,
            install_line@,
            opt_view(hint),
        ),
{
    proof {
        reveal_strlit("__MODE__");
        reveal_strlit("__BACKEND__");
        reveal_strlit("__TOOLS__");
    }
    let with_mode = replace(session_line, "__MODE__", mode_label);
    let session = replace(with_mode.as_str(), "__BACKEND__", backend.name());
    let tools = suggested_tools(backend);
    let list = join_strs(&tools, ", ");
    let tools_line = replace(install_line, "__TOOLS__", list.as_str());
    let mut out = String::from_str(lead);
    out.append("\n\n");
    out.append(session.as_str());
    out.append("\n\n");
    out.append(tools_line.as_str());
    if let Some(h) = hint {
        out.append("\n\n");
        out.append(h);
    }
    out
}

/// A package-manager command line for the first of `tools`, derived from the
/// `os-release` text `release`, in a translated sentence; `None` when the
/// text is missing, the distribution unknown or there is no tool.
pub fn install_hint(release: Option<&str>, tools: &Vec<&str>) -> (out: Option<String>)
    ensures
        match out {
            Some(s) => spec_hint_command(opt_view(release), str_views(tools@)) is Some
                && exists|example: Seq<char>|
                #![trigger example_line(example, spec_hint_command(opt_view(release), str_views(tools@)))]
                Some(s@) == example_line(
                    example,
                    spec_hint_command(opt_view(release), str_views(tools@)),
                ),
            None => spec_hint_command(opt_view(release), str_views(tools@)) is None,
        },
{
    let ghost views = str_views(tools@);
    let r = match release {
        Some(r) => r,
        None => return None,
    };
    let cmd = match install_command(r, tools) {
        Some(c) => c,
        None => return None,
    };
    proof {
        reveal_strlit("For example: __CMD__");
        reveal_strlit("__CMD__");
        assert(views[0] == tools@[0]@);
    }
    let example = translate("For example: __CMD__");
    let line = replace(example.as_str(), "__CMD__", cmd.as_str());
    proof {
        assert(example_line(example@, spec_hint_command(opt_view(release), views)) == Some(line@));
    }
    Some(line)
}

/// The report shown when no screenshot tool produced an image: inside a
/// sandbox, advice to install a desktop portal backend; elsewhere, what was
/// tried, on which session, what to install and, where the `os-release`
/// text names a known distribution, the command that installs it. The
/// sentences are translated, so only the report's structure is stated.
pub fn no_tool_message(
    backend: DisplayBackend,
    mode: CaptureMode,
    attempted: bool,
    sandboxed: bool,
    flatpak: bool,
    release: Option<&str>,
) -> (out: String)
    ensures
        sandboxed ==> exists|portal_silent: Seq<char>, advice: Seq<char>|
            out@ == #[trigger] spec_sandbox_message(portal_silent, advice, flatpak),
        !sandboxed ==> exists|
            lead: Seq<char>,
            session_line: Seq<char>,
            mode_label: Seq<char>,
            install_line: Seq<char>,
            example: Seq<char>,
        |
            out@ == #[trigger] spec_missing_tool_message(
                lead,
                session_line,
                mode_label,
                backend,
                install_line,
                example_line(example, spec_hint_command(opt_view(release), spec_suggested_tools(backend))),
            ),
{
    if sandboxed {
        proof {
            reveal_strlit("The desktop screenshot portal is not responding.");
            reveal_strlit(
                "SuperShot is running inside a __CHANNEL__ sandbox, so it cannot use \
                 command-line screenshot tools installed on the host. Install an XDG desktop \
                 portal backend for your desktop environment (xdg-desktop-portal-gnome, \
                 xdg-desktop-portal-kde, xdg-desktop-portal-wlr or xdg-desktop-portal-gtk) \
                 and restart your session.",
            );
        }
        let portal_silent = translate("The desktop screenshot portal is not responding.");
        let advice = translate(
            "SuperShot is running inside a __CHANNEL__ sandbox, so it cannot use \
             command-line screenshot tools installed on the host. Install an XDG desktop \
             portal backend for your desktop environment (xdg-desktop-portal-gnome, \
             xdg-desktop-portal-kde, xdg-desktop-portal-wlr or xdg-desktop-portal-gtk) \
             and restart your session.",
        );
        return sandbox_message(portal_silent.as_str(), advice.as_str(), flatpak);
    }
    proof {
        reveal_strlit("Every available screenshot tool failed to produce an image.");
        reveal_strlit("No screenshot tool is available for this session.");
        reveal_strlit("Mode: __MODE__ · Display server: __BACKEND__");
        reveal_strlit("Install a desktop portal backend, or one of: __TOOLS__");
    }
    let lead = translate(lead_msgid(attempted));
    let session_line = translate("Mode: __MODE__ · Display server: __BACKEND__");
    let mode_label = mode.label();
    let install_line = translate("Install a desktop portal backend, or one of: __TOOLS__");
    let tools = suggested_tools(backend);
    let hint = install_hint(release, &tools);
    let ghost cmd = spec_hint_command(opt_view(release), spec_suggested_tools(backend));
    let out = match &hint {
        Some(h) => missing_tool_message(
            lead.as_str(),
            session_line.as_str(),
            mode_label.as_str(),
            backend,
            install_line.as_str(),
            Some(h.as_str()),
        ),
        None => missing_tool_message(
            lead.as_str(),
            session_line.as_str(),
            mode_label.as_str(),
            backend,
            install_line.as_str(),
            None,
        ),
    };
    proof {
        let hv: Option<Seq<char>> = match &hint {
            Some(h) => Some(h@),
            None => None,
        };
        let example = match &hint {
            Some(h) => choose|example: Seq<char>| Some(h@) == example_line(example, cmd),
            None => seq![],
        };
        assert(example_line(example, cmd) == hv);
        assert(out@ == spec_missing_tool_message(
            lead@,
            session_line@,
            mode_label@,
            backend,
            install_line@,
            example_line(example, cmd),
        ));
    }
    out
}

} // verus!
