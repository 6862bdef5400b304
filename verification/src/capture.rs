//! The rules of the capture pipeline: which windowing backend is active,
//! what the user asked to capture, which command-line screenshot tool to fall
//! back on and with which arguments, and how the capture options translate
//! into the saved file.

use crate::codec::{encode_jpeg, encode_png, jpeg_bytes, png_bytes};
use crate::i18n::translate;
use crate::raster::{flatten_pixel, flatten_to_rgb, rgb_bytes, rgba_bytes, Raster, Rgba, RgbaImage};
use crate::text::{contains, seq_contains, views, ci_contains, contains_ignoring_ascii_case, join, join_path, str_eq};
use vstd::prelude::*;
use vstd::string::*;

verus! {

/// The windowing backend GDK connected to.
#[derive(Clone, Copy, PartialEq, Eq, Debug, Structural)]
pub enum DisplayBackend {
    Wayland,
    X11,
    Unknown,
}

/// The backend the environment selects: an explicit GDK_BACKEND request wins,
/// then a Wayland display or session, then an X11 display or session.
pub open spec fn spec_backend_from_values(
    gdk_backend: Seq<char>,
    has_wayland_display: bool,
    has_x11_display: bool,
    session_type: Seq<char>,
) -> DisplayBackend {
    if ci_contains(gdk_backend, "x11"@) {
        DisplayBackend::X11
    } else if ci_contains(gdk_backend, "wayland"@) {
        DisplayBackend::Wayland
    } else if has_wayland_display || session_type == "wayland"@ {
        DisplayBackend::Wayland
    } else if has_x11_display || session_type == "x11"@ {
        DisplayBackend::X11
    } else {
        DisplayBackend::Unknown
    }
}

/// The environment-inspection rules, with the environment passed in.
///
/// Running with `GDK_BACKEND=x11` inside a Wayland session gives a process
/// that talks X11 through XWayland while `WAYLAND_DISPLAY` is still set, so
/// the explicit request is consulted first.
pub fn backend_from_values(
    gdk_backend: &str,
    wayland_display: Option<&str>,
    x11_display: Option<&str>,
    session_type: &str,
) -> (b: DisplayBackend)
    ensures
        b == spec_backend_from_values(
            gdk_backend@,
            wayland_display is Some,
            x11_display is Some,
            session_type@,
        ),
{
    if contains_ignoring_ascii_case(gdk_backend, "x11") {
        return DisplayBackend::X11;
    }
    if contains_ignoring_ascii_case(gdk_backend, "wayland") {
        return DisplayBackend::Wayland;
    }
    if wayland_display.is_some() || str_eq(session_type, "wayland") {
        return DisplayBackend::Wayland;
    }
    if x11_display.is_some() || str_eq(session_type, "x11") {
        return DisplayBackend::X11;
    }
    DisplayBackend::Unknown
}

/// Without an explicit GDK_BACKEND request, a Wayland display or a Wayland
/// session selects Wayland whatever DISPLAY holds (XWayland sets both), and an
/// X11 display or session selects X11 only when nothing points to Wayland.
pub proof fn law_wayland_session_wins_over_x11_display(
    gdk_backend: Seq<char>,
    has_wayland_display: bool,
    has_x11_display: bool,
    session_type: Seq<char>,
)
    requires
        !ci_contains(gdk_backend, "x11"@),
        !ci_contains(gdk_backend, "wayland"@),
    ensures
        (has_wayland_display || session_type == "wayland"@) ==> spec_backend_from_values(
            gdk_backend,
            has_wayland_display,
            has_x11_display,
            session_type,
        ) == DisplayBackend::Wayland,
        (!has_wayland_display && session_type != "wayland"@ && has_x11_display)
            ==> spec_backend_from_values(gdk_backend, has_wayland_display, has_x11_display, session_type)
            == DisplayBackend::X11,
{
}

/// The backend a GDK display's type name reveals, if it names one.
pub open spec fn spec_backend_from_type_name(name: Seq<char>) -> Option<DisplayBackend> {
    if seq_contains(name, "Wayland"@) {
        Some(DisplayBackend::Wayland)
    } else if seq_contains(name, "X11"@) {
        Some(DisplayBackend::X11)
    } else {
        None
    }
}

/// The backend a GDK display's type name (`GdkWaylandDisplay`,
/// `GdkX11Display`) reveals; `None` for any other display type.
pub fn backend_from_type_name(name: &str) -> (b: Option<DisplayBackend>)
    ensures
        b == spec_backend_from_type_name(name@),
{
    if contains(name, "Wayland") {
        Some(DisplayBackend::Wayland)
    } else if contains(name, "X11") {
        Some(DisplayBackend::X11)
    } else {
        None
    }
}

impl DisplayBackend {
    /// The name shown in diagnostics and error messages.
    pub fn name(self) -> (s: &'static str)
        ensures
            s@ == match self {
                DisplayBackend::Wayland => "Wayland"@,
                DisplayBackend::X11 => "X11"@,
                DisplayBackend::Unknown => "unknown"@,
            },
    {
        match self {
            DisplayBackend::Wayland => "Wayland",
            DisplayBackend::X11 => "X11",
            DisplayBackend::Unknown => "unknown",
        }
    }
}

/// What the user asked to capture.
#[derive(Clone, Copy, PartialEq, Eq, Debug, Structural)]
pub enum CaptureMode {
    /// Let the capture backend present its own area/window/screen chooser.
    Interactive,
    /// Drag-select a rectangular region.
    Area,
    /// Pick a single window.
    Window,
    /// The entire screen.
    Screen,
}

impl Default for CaptureMode {
    fn default() -> (m: CaptureMode)
        ensures
            m == CaptureMode::Interactive,
    {
        CaptureMode::Interactive
    }
}

impl CaptureMode {
    /// Map the combo-row index used by the Shot tab; out-of-range values from
    /// a corrupted setting fall back to `Interactive`.
    pub fn from_index(idx: u32) -> (m: CaptureMode)
        ensures
            m == if idx == 1 {
                CaptureMode::Area
            } else if idx == 2 {
                CaptureMode::Window
            } else if idx == 3 {
                CaptureMode::Screen
            } else {
                CaptureMode::Interactive
            },
    {
        match idx {
            1 => CaptureMode::Area,
            2 => CaptureMode::Window,
            3 => CaptureMode::Screen,
            _ => CaptureMode::Interactive,
        }
    }

    /// The untranslated label of the mode, the message id for translation.
    pub fn label_msgid(self) -> (s: &'static str)
        ensures
            s@ == match self {
                CaptureMode::Interactive => "Interactive"@,
                CaptureMode::Area => "Area"@,
                CaptureMode::Window => "Window"@,
                CaptureMode::Screen => "Screen"@,
            },
    {
        match self {
            CaptureMode::Interactive => "Interactive",
            CaptureMode::Area => "Area",
            CaptureMode::Window => "Window",
            CaptureMode::Screen => "Screen",
        }
    }

    /// The mode's name in the user's language.
    pub(crate) fn label(self) -> String {
        let id = self.label_msgid();
        proof {
            reveal_strlit("Interactive");
            reveal_strlit("Area");
            reveal_strlit("Window");
            reveal_strlit("Screen");
        }
        translate(id)
    }

    /// Whether the portal should show its own chooser: every mode but a
    /// whole-screen capture goes through it.
    pub fn portal_interactive(self) -> (b: bool)
        ensures
            b <==> self != CaptureMode::Screen,
    {
        self != CaptureMode::Screen
    }
}


/// Where a fallback tool writes its output.
#[derive(Clone, Copy, PartialEq, Eq, Debug, Structural)]
pub enum Sink {
    /// The tool writes to the path given in its arguments.
    File,
    /// The tool writes PNG bytes to stdout.
    Stdout,
}

/// A command-line screenshot helper the capture can fall back on.
#[derive(Clone, Copy, PartialEq, Eq, Debug, Structural)]
pub enum FallbackTool {
    Grim,
    Hyprshot,
    Wayshot,
    Spectacle,
    GnomeScreenshot,
    Flameshot,
    Xfce4Screenshooter,
    Scrot,
    Maim,
    Import,
}

/// The fallback tools in the order they are tried: the desktop-native tool
/// for each environment comes before the generic ones.
pub open spec fn tool_order() -> Seq<FallbackTool> {
    seq![
        FallbackTool::Grim,
        FallbackTool::Hyprshot,
        FallbackTool::Wayshot,
        FallbackTool::Spectacle,
        FallbackTool::GnomeScreenshot,
        FallbackTool::Flameshot,
        FallbackTool::Xfce4Screenshooter,
        FallbackTool::Scrot,
        FallbackTool::Maim,
        FallbackTool::Import,
    ]
}

pub open spec fn spec_tool_name(t: FallbackTool) -> Seq<char> {
    match t {
        FallbackTool::Grim => "grim"@,
        FallbackTool::Hyprshot => "hyprshot"@,
        FallbackTool::Wayshot => "wayshot"@,
        FallbackTool::Spectacle => "spectacle"@,
        FallbackTool::GnomeScreenshot => "gnome-screenshot"@,
        FallbackTool::Flameshot => "flameshot"@,
        FallbackTool::Xfce4Screenshooter => "xfce4-screenshooter"@,
        FallbackTool::Scrot => "scrot"@,
        FallbackTool::Maim => "maim"@,
        FallbackTool::Import => "import"@,
    }
}

/// Whether a tool can capture from a backend.
pub open spec fn spec_supports(t: FallbackTool, b: DisplayBackend) -> bool {
    match t {
        FallbackTool::Grim | FallbackTool::Hyprshot | FallbackTool::Wayshot => b == DisplayBackend::Wayland,
        FallbackTool::Spectacle | FallbackTool::GnomeScreenshot | FallbackTool::Flameshot => b
            == DisplayBackend::Wayland || b == DisplayBackend::X11,
        _ => b == DisplayBackend::X11,
    }
}

/// The argument vector a tool needs for a mode, writing to `out`, or `None`
/// when the tool cannot serve the mode.
pub open spec fn spec_tool_args(t: FallbackTool, mode: CaptureMode, out: Seq<char>) -> Option<
    Seq<Seq<char>>,
> {
    match t {
        FallbackTool::Grim => match mode {
            CaptureMode::Screen | CaptureMode::Interactive => Some(seq![out]),
            _ => None,
        },
        FallbackTool::Hyprshot => {
            let m = match mode {
                CaptureMode::Area | CaptureMode::Interactive => "region"@,
                CaptureMode::Window => "window"@,
                CaptureMode::Screen => "output"@,
            };
            Some(seq!["-m"@, m, "--raw"@, "-o"@, "-"@, "-f"@, out])
        },
        FallbackTool::Wayshot => match mode {
            CaptureMode::Screen | CaptureMode::Interactive => Some(seq!["-f"@, out]),
            _ => None,
        },
        FallbackTool::Spectacle => {
            let flag = match mode {
                CaptureMode::Area => "-r"@,
                CaptureMode::Window => "-a"@,
                CaptureMode::Screen => "-f"@,
                CaptureMode::Interactive => "-r"@,
            };
            Some(seq![flag, "-b"@, "-n"@, "-o"@, out])
        },
        FallbackTool::GnomeScreenshot => match mode {
            CaptureMode::Area | CaptureMode::Interactive => Some(seq!["-a"@, "-f"@, out]),
            CaptureMode::Window => Some(seq!["-w"@, "-f"@, out]),
            CaptureMode::Screen => Some(seq!["-f"@, out]),
        },
        FallbackTool::Flameshot => match mode {
            CaptureMode::Area | CaptureMode::Interactive => Some(seq!["gui"@, "--raw"@]),
            CaptureMode::Screen => Some(seq!["full"@, "--raw"@]),
            CaptureMode::Window => None,
        },
        FallbackTool::Xfce4Screenshooter => {
            let flag = match mode {
                CaptureMode::Area | CaptureMode::Interactive => "-r"@,
                CaptureMode::Window => "-w"@,
                CaptureMode::Screen => "-f"@,
            };
            Some(seq![flag, "-s"@, out])
        },
        FallbackTool::Scrot => match mode {
            CaptureMode::Area | CaptureMode::Interactive => Some(seq!["-s"@, out]),
            CaptureMode::Window => Some(seq!["-u"@, out]),
            CaptureMode::Screen => Some(seq![out]),
        },
        FallbackTool::Maim => match mode {
            CaptureMode::Area | CaptureMode::Interactive => Some(seq!["-s"@, out]),
            CaptureMode::Window => Some(seq!["-st"@, "9999999"@, out]),
            CaptureMode::Screen => Some(seq![out]),
        },
        FallbackTool::Import => match mode {
            CaptureMode::Screen => Some(seq!["-window"@, "root"@, out]),
            _ => Some(seq![out]),
        },
    }
}

/// A window capture asks each tool for its window mode: the argument vector
/// opens with the tool's window flag (spectacle `-a`, gnome-screenshot `-w`,
/// xfce4-screenshooter `-w`, scrot `-u`, maim `-st`, hyprshot `-m window`),
/// and a tool with a window mode of its own that serves both window and area
/// captures is handed different arguments for the two (ImageMagick's `import`
/// has none: it lets the user click a window or drag an area alike).
pub proof fn law_window_captures_use_the_window_flag(t: FallbackTool, out: Seq<char>)
    ensures
        spec_tool_args(FallbackTool::Spectacle, CaptureMode::Window, out) is Some,
        spec_tool_args(FallbackTool::Spectacle, CaptureMode::Window, out).unwrap()[0] == "-a"@,
        spec_tool_args(FallbackTool::GnomeScreenshot, CaptureMode::Window, out) is Some,
        spec_tool_args(FallbackTool::GnomeScreenshot, CaptureMode::Window, out).unwrap()[0] == "-w"@,
        spec_tool_args(FallbackTool::Xfce4Screenshooter, CaptureMode::Window, out) is Some,
        spec_tool_args(FallbackTool::Xfce4Screenshooter, CaptureMode::Window, out).unwrap()[0] == "-w"@,
        spec_tool_args(FallbackTool::Scrot, CaptureMode::Window, out) is Some,
        spec_tool_args(FallbackTool::Scrot, CaptureMode::Window, out).unwrap()[0] == "-u"@,
        spec_tool_args(FallbackTool::Maim, CaptureMode::Window, out) is Some,
        spec_tool_args(FallbackTool::Maim, CaptureMode::Window, out).unwrap()[0] == "-st"@,
        spec_tool_args(FallbackTool::Hyprshot, CaptureMode::Window, out) is Some,
        spec_tool_args(FallbackTool::Hyprshot, CaptureMode::Window, out).unwrap()[1] == "window"@,
        (t != FallbackTool::Import && spec_tool_args(t, CaptureMode::Window, out) is Some
            && spec_tool_args(t, CaptureMode::Area, out) is Some) ==> spec_tool_args(t, CaptureMode::Window, out) != spec_tool_args(t, CaptureMode::Area, out),
{
    reveal_strlit("-a");
    reveal_strlit("-r");
    reveal_strlit("-w");
    reveal_strlit("-u");
    reveal_strlit("-s");
    reveal_strlit("-st");
    reveal_strlit("window");
    reveal_strlit("region");
    let win = spec_tool_args(t, CaptureMode::Window, out);
    let area = spec_tool_args(t, CaptureMode::Area, out);
    match t {
        FallbackTool::Spectacle => {
            assert(win.unwrap()[0][1] != area.unwrap()[0][1]);
        },
        FallbackTool::GnomeScreenshot => {
            assert(win.unwrap()[0][1] != area.unwrap()[0][1]);
        },
        FallbackTool::Xfce4Screenshooter => {
            assert(win.unwrap()[0][1] != area.unwrap()[0][1]);
        },
        FallbackTool::Scrot => {
            assert(win.unwrap()[0][1] != area.unwrap()[0][1]);
        },
        FallbackTool::Maim => {
            assert(win.unwrap()[0].len() != area.unwrap()[0].len());
        },
        FallbackTool::Hyprshot => {
            assert(win.unwrap()[1][0] != area.unwrap()[1][0]);
        },
        _ => {},
    }
}

/// Owned copies of string slices.
fn v(parts: &[&str]) -> (out: Vec<String>)
    ensures
        views(out@) == parts@.map_values(|s: &str| s@),
{
    let n = parts.len();
    let mut out: Vec<String> = Vec::new();
    let mut i: usize = 0;
    while i < n
        invariant
            n == parts@.len(),
            i <= n,
            out@.len() == i,
            forall|j: int| 0 <= j < i ==> #[trigger] out@[j]@ == parts@[j]@,
        decreases n - i,
    {
        out.push(String::from_str(parts[i]));
        i = i + 1;
    }
    proof {
        assert(views(out@) =~= parts@.map_values(|s: &str| s@));
    }
    out
}

impl FallbackTool {
    /// The executable name, looked up on PATH.
    pub fn name(self) -> (s: &'static str)
        ensures
            s@ == spec_tool_name(self),
    {
        match self {
            FallbackTool::Grim => "grim",
            FallbackTool::Hyprshot => "hyprshot",
            FallbackTool::Wayshot => "wayshot",
            FallbackTool::Spectacle => "spectacle",
            FallbackTool::GnomeScreenshot => "gnome-screenshot",
            FallbackTool::Flameshot => "flameshot",
            FallbackTool::Xfce4Screenshooter => "xfce4-screenshooter",
            FallbackTool::Scrot => "scrot",
            FallbackTool::Maim => "maim",
            FallbackTool::Import => "import",
        }
    }

    /// Whether the tool can capture from `backend`.
    pub fn supports(self, backend: DisplayBackend) -> (b: bool)
        ensures
            b == spec_supports(self, backend),
    {
        match self {
            FallbackTool::Grim | FallbackTool::Hyprshot | FallbackTool::Wayshot => backend
                == DisplayBackend::Wayland,
            FallbackTool::Spectacle | FallbackTool::GnomeScreenshot | FallbackTool::Flameshot => backend
                == DisplayBackend::Wayland || backend == DisplayBackend::X11,
            _ => backend == DisplayBackend::X11,
        }
    }

    /// Where the tool writes its image.
    pub fn sink(self) -> (s: Sink)
        ensures
            s == (if self == FallbackTool::Flameshot { Sink::Stdout } else { Sink::File }),
    {
        match self {
            FallbackTool::Flameshot => Sink::Stdout,
            _ => Sink::File,
        }
    }

    /// The argument vector for `mode` writing to `out`, or `None` when the
    /// tool cannot serve the mode.
    pub fn args(self, mode: CaptureMode, out: &str) -> (a: Option<Vec<String>>)
        ensures
            match a {
                Some(v) => spec_tool_args(self, mode, out@) == Some(views(v@)),
                None => spec_tool_args(self, mode, out@) is None,
            },
    {
        let parts: Option<Vec<String>> = match self {
            FallbackTool::Grim => match mode {
                CaptureMode::Screen | CaptureMode::Interactive => Some(v(&[out])),
                _ => None,
            },
            FallbackTool::Hyprshot => {
                let m = match mode {
                    CaptureMode::Area | CaptureMode::Interactive => "region",
                    CaptureMode::Window => "window",
                    CaptureMode::Screen => "output",
                };
                Some(v(&["-m", m, "--raw", "-o", "-", "-f", out]))
            },
            FallbackTool::Wayshot => match mode {
                CaptureMode::Screen | CaptureMode::Interactive => Some(v(&["-f", out])),
                _ => None,
            },
            FallbackTool::Spectacle => {
                let flag = match mode {
                    CaptureMode::Area => "-r",
                    CaptureMode::Window => "-a",
                    CaptureMode::Screen => "-f",
                    CaptureMode::Interactive => "-r",
                };
                Some(v(&[flag, "-b", "-n", "-o", out]))
            },
            FallbackTool::GnomeScreenshot => match mode {
                CaptureMode::Area | CaptureMode::Interactive => Some(v(&["-a", "-f", out])),
                CaptureMode::Window => Some(v(&["-w", "-f", out])),
                CaptureMode::Screen => Some(v(&["-f", out])),
            },
            FallbackTool::Flameshot => match mode {
                CaptureMode::Area | CaptureMode::Interactive => Some(v(&["gui", "--raw"])),
                CaptureMode::Screen => Some(v(&["full", "--raw"])),
                CaptureMode::Window => None,
            },
            FallbackTool::Xfce4Screenshooter => {
                let flag = match mode {
                    CaptureMode::Area | CaptureMode::Interactive => "-r",
                    CaptureMode::Window => "-w",
                    CaptureMode::Screen => "-f",
                };
                Some(v(&[flag, "-s", out]))
            },
            FallbackTool::Scrot => match mode {
                CaptureMode::Area | CaptureMode::Interactive => Some(v(&["-s", out])),
                CaptureMode::Window => Some(v(&["-u", out])),
                CaptureMode::Screen => Some(v(&[out])),
            },
            FallbackTool::Maim => match mode {
                CaptureMode::Area | CaptureMode::Interactive => Some(v(&["-s", out])),
                CaptureMode::Window => Some(v(&["-st", "9999999", out])),
                CaptureMode::Screen => Some(v(&[out])),
            },
            FallbackTool::Import => match mode {
                CaptureMode::Screen => Some(v(&["-window", "root", out])),
                _ => Some(v(&[out])),
            },
        };
        parts
    }
}

/// The fallback tools in the order they are tried.
pub fn fallback_tools() -> (t: Vec<FallbackTool>)
    ensures
        t@ == tool_order(),
{
    let t = vec![
        FallbackTool::Grim,
        FallbackTool::Hyprshot,
        FallbackTool::Wayshot,
        FallbackTool::Spectacle,
        FallbackTool::GnomeScreenshot,
        FallbackTool::Flameshot,
        FallbackTool::Xfce4Screenshooter,
        FallbackTool::Scrot,
        FallbackTool::Maim,
        FallbackTool::Import,
    ];
    proof {
        assert(t@ =~= tool_order());
    }
    t
}


/// The tools among the first `n` of the order that a capture in `mode` on
/// `backend` tries: those that support the backend, can serve the mode and
/// are installed (`installed[i]` for the `i`-th tool of the order).
pub open spec fn attempt_tools(backend: DisplayBackend, mode: CaptureMode, installed: Seq<bool>, n: int) -> Seq<
    FallbackTool,
>
    decreases n,
{
    if n <= 0 {
        seq![]
    } else {
        let prev = attempt_tools(backend, mode, installed, n - 1);
        let t = tool_order()[n - 1];
        if spec_supports(t, backend) && spec_tool_args(t, mode, seq![]) is Some && installed[n - 1] {
            prev.push(t)
        } else {
            prev
        }
    }
}

/// One planned fallback attempt: the tool and its argument vector.
pub struct Attempt {
    pub tool: FallbackTool,
    pub args: Vec<String>,
}

proof fn lemma_args_some_independent(t: FallbackTool, mode: CaptureMode, a: Seq<char>, b: Seq<char>)
    ensures
        spec_tool_args(t, mode, a) is Some <==> spec_tool_args(t, mode, b) is Some,
{
}

/// The fallback tools to run, in order, for a capture in `mode` on `backend`
/// writing to `out`. `installed` says, for each tool of the order, whether its
/// executable is on PATH.
pub fn fallback_attempts(backend: DisplayBackend, mode: CaptureMode, out: &str, installed: &Vec<bool>) -> (a: Vec<
    Attempt,
>)
    requires
        installed@.len() == 10,
    ensures
        a@.len() == attempt_tools(backend, mode, installed@, 10).len(),
        forall|j: int|
            0 <= j < a@.len() ==> {
                &&& #[trigger] a@[j].tool == attempt_tools(backend, mode, installed@, 10)[j]
                &&& spec_tool_args(a@[j].tool, mode, out@) == Some(views(a@[j].args@))
            },
{
    let tools = fallback_tools();
    let mut a: Vec<Attempt> = Vec::new();
    let mut i: usize = 0;
    while i < 10
        invariant
            tools@ == tool_order(),
            installed@.len() == 10,
            i <= 10,
            a@.len() == attempt_tools(backend, mode, installed@, i as int).len(),
            forall|j: int|
                0 <= j < a@.len() ==> {
                    &&& #[trigger] a@[j].tool == attempt_tools(backend, mode, installed@, i as int)[j]
                    &&& spec_tool_args(a@[j].tool, mode, out@) == Some(views(a@[j].args@))
                },
        decreases 10 - i,
    {
        let t = tools[i];
        proof {
            lemma_args_some_independent(t, mode, out@, seq![]);
        }
        if t.supports(backend) && installed[i] {
            match t.args(mode, out) {
                Some(args) => {
                    a.push(Attempt { tool: t, args });
                },
                None => {},
            }
        }
        i = i + 1;
    }
    a
}

/// Whether the two-step grim + slurp region pipeline is tried before the
/// generic tools: on Wayland, for a region or interactive capture, with both
/// installed.
pub fn wants_grim_area(backend: DisplayBackend, mode: CaptureMode, grim: bool, slurp: bool) -> (b: bool)
    ensures
        b <==> (backend == DisplayBackend::Wayland && (mode == CaptureMode::Area || mode
            == CaptureMode::Interactive) && grim && slurp),
{
    backend == DisplayBackend::Wayland && (mode == CaptureMode::Area || mode == CaptureMode::Interactive)
        && grim && slurp
}

/// Names of the tools among the first `n` of the order listed as available:
/// installed and supporting the backend, with plain `grim` left out once
/// the grim + slurp pair has been listed.
pub open spec fn listed_tools(backend: DisplayBackend, pair_listed: bool, installed: Seq<bool>, n: int) -> Seq<
    Seq<char>,
>
    decreases n,
{
    if n <= 0 {
        seq![]
    } else {
        let prev = listed_tools(backend, pair_listed, installed, n - 1);
        let t = tool_order()[n - 1];
        if spec_supports(t, backend) && installed[n - 1] && !(t == FallbackTool::Grim && pair_listed) {
            prev.push(spec_tool_name(t))
        } else {
            prev
        }
    }
}

/// The fallback tools usable on `backend`, as listed in diagnostics.
pub open spec fn spec_available_tools(backend: DisplayBackend, slurp: bool, installed: Seq<bool>) -> Seq<
    Seq<char>,
> {
    let pair = backend == DisplayBackend::Wayland && installed[0] && slurp;
    (if pair { seq!["grim+slurp"@] } else { seq![] }) + listed_tools(backend, pair, installed, 10)
}

/// Names of the fallback tools usable on `backend`; `installed` says, for
/// each tool of the order, whether it is on PATH, and `slurp` whether the
/// region selector is.
pub fn available_fallback_tools(backend: DisplayBackend, slurp: bool, installed: &Vec<bool>) -> (found: Vec<
    String,
>)
    requires
        installed@.len() == 10,
    ensures
        views(found@) == spec_available_tools(backend, slurp, installed@),
{
    let tools = fallback_tools();
    let mut found: Vec<String> = Vec::new();
    let pair = backend == DisplayBackend::Wayland && installed[0] && slurp;
    if pair {
        found.push(String::from_str("grim+slurp"));
    }
    let ghost head = views(found@);
    let mut i: usize = 0;
    while i < 10
        invariant
            tools@ == tool_order(),
            installed@.len() == 10,
            i <= 10,
            pair == (backend == DisplayBackend::Wayland && installed@[0] && slurp),
            head == (if pair { seq!["grim+slurp"@] } else { seq![] }),
            views(found@) == head + listed_tools(backend, pair, installed@, i as int),
        decreases 10 - i,
    {
        let t = tools[i];
        if t.supports(backend) && installed[i] && !(t == FallbackTool::Grim && pair) {
            let ghost before = views(found@);
            found.push(String::from_str(t.name()));
            proof {
                assert(views(found@) =~= before.push(spec_tool_name(t)));
                assert(head + listed_tools(backend, pair, installed@, i + 1) =~= (head + listed_tools(
                    backend,
                    pair,
                    installed@,
                    i as int,
                )).push(spec_tool_name(t)));
            }
        }
        i = i + 1;
    }
    found
}

/// The tools an error message suggests installing on `backend`, best fit
/// first; `a + b` names a tool and the companion it needs.
pub open spec fn spec_suggested_tools(backend: DisplayBackend) -> Seq<Seq<char>> {
    match backend {
        DisplayBackend::Wayland => seq!["grim + slurp"@, "spectacle"@, "gnome-screenshot"@],
        DisplayBackend::X11 => seq!["gnome-screenshot"@, "spectacle"@, "scrot"@, "maim"@],
        DisplayBackend::Unknown => seq!["grim + slurp"@, "gnome-screenshot"@, "scrot"@],
    }
}

/// The tools an error message suggests installing on `backend`, best fit first.
pub fn suggested_tools(backend: DisplayBackend) -> (s: Vec<&'static str>)
    ensures
        s@.map_values(|t: &str| t@) == spec_suggested_tools(backend),
{
    let s = match backend {
        DisplayBackend::Wayland => vec!["grim + slurp", "spectacle", "gnome-screenshot"],
        DisplayBackend::X11 => vec!["gnome-screenshot", "spectacle", "scrot", "maim"],
        DisplayBackend::Unknown => vec!["grim + slurp", "gnome-screenshot", "scrot"],
    };
    proof {
        assert(s@.map_values(|t: &str| t@) =~= match backend {
            DisplayBackend::Wayland => seq!["grim + slurp"@, "spectacle"@, "gnome-screenshot"@],
            DisplayBackend::X11 => seq!["gnome-screenshot"@, "spectacle"@, "scrot"@, "maim"@],
            DisplayBackend::Unknown => seq!["grim + slurp"@, "gnome-screenshot"@, "scrot"@],
        });
    }
    s
}


/// The date format presets for the watermark, by index.
pub open spec fn spec_watermark_pattern(idx: u32) -> Seq<char> {
    if idx == 1 {
        "%d/%m/%Y %H:%M"@
    } else if idx == 2 {
        "%b %d, %Y %H:%M"@
    } else if idx == 3 {
        "%Y-%m-%d"@
    } else if idx == 4 {
        "%H:%M:%S"@
    } else {
        "%Y-%m-%d %H:%M:%S"@
    }
}

/// The timestamp format of saved file names.
pub open spec fn file_stamp_pattern() -> Seq<char> {
    "%Y-%m-%d_%H-%M-%S%.3f"@
}

/// Every timestamp pattern that shows the year also shows the month (as a
/// number or an abbreviation) and the day of the month.
pub proof fn law_dated_patterns_show_month_and_day(idx: u32)
    ensures
        seq_contains(spec_watermark_pattern(idx), "%Y"@) ==> {
            &&& seq_contains(spec_watermark_pattern(idx), "%d"@)
            &&& (seq_contains(spec_watermark_pattern(idx), "%m"@) || seq_contains(
                spec_watermark_pattern(idx),
                "%b"@,
            ))
        },
        seq_contains(file_stamp_pattern(), "%Y"@),
        seq_contains(file_stamp_pattern(), "%m"@),
        seq_contains(file_stamp_pattern(), "%d"@),
{
    reveal_strlit("%d/%m/%Y %H:%M");
    reveal_strlit("%b %d, %Y %H:%M");
    reveal_strlit("%Y-%m-%d");
    reveal_strlit("%H:%M:%S");
    reveal_strlit("%Y-%m-%d %H:%M:%S");
    reveal_strlit("%Y-%m-%d_%H-%M-%S%.3f");
    reveal_strlit("%Y");
    reveal_strlit("%m");
    reveal_strlit("%d");
    reveal_strlit("%b");
    let f = file_stamp_pattern();
    assert(f.subrange(0, 0int + "%Y"@.len()) =~= "%Y"@);
    assert(f.subrange(3, 3int + "%m"@.len()) =~= "%m"@);
    assert(f.subrange(6, 6int + "%d"@.len()) =~= "%d"@);
    let p = spec_watermark_pattern(idx);
    if idx == 1 {
        assert(p.subrange(0, 0int + "%d"@.len()) =~= "%d"@);
        assert(p.subrange(3, 3int + "%m"@.len()) =~= "%m"@);
    } else if idx == 2 {
        assert(p.subrange(3, 3int + "%d"@.len()) =~= "%d"@);
        assert(p.subrange(0, 0int + "%b"@.len()) =~= "%b"@);
    } else if idx == 4 {
        assert forall|i: int| 0 <= i && i + 2 <= p.len() implies #[trigger] p.subrange(i, i + "%Y"@.len()) != "%Y"@ by {
            assert(p.subrange(i, i + "%Y"@.len())[1] == p[i + 1]);
        }
    } else {
        assert(p.subrange(6, 6int + "%d"@.len()) =~= "%d"@);
        assert(p.subrange(3, 3int + "%m"@.len()) =~= "%m"@);
    }
}

/// The strftime patterns this crate formats timestamps with.
pub open spec fn is_known_pattern(p: Seq<char>) -> bool {
    p == file_stamp_pattern() || exists|i: u32| i < 5 && p == #[trigger] spec_watermark_pattern(i)
}

/// Milliseconds since the Unix epoch of the first instant chrono represents,
/// `DateTime::<Utc>::MIN_UTC`.
pub const MIN_INSTANT_MILLIS: i64 = -8334601228800000i64;

/// Milliseconds since the Unix epoch of the last whole millisecond chrono
/// represents, +262142-12-31T23:59:59.999Z, that of `DateTime::<Utc>::MAX_UTC`.
pub const MAX_INSTANT_MILLIS: i64 = 8210266876799999i64;

/// Calls `chrono::Local::now` and takes its `timestamp_millis`: the current
/// time in milliseconds since the Unix epoch. Which instant comes back rests
/// on the clock; what is promised is what every `chrono::DateTime` made from
/// the clock holds: it lies in chrono's range.
#[verifier::external_body]
fn now_millis() -> (out: i64)
    ensures
        MIN_INSTANT_MILLIS <= out <= MAX_INSTANT_MILLIS,
{
    chrono::Local::now().timestamp_millis()
}

/// What `chrono` writes for the instant `millis` milliseconds after the Unix
/// epoch, seen at a UTC offset of `offset` seconds, formatted with the
/// strftime `pattern`; `None` where chrono has no such instant.
pub uninterp spec fn formatted_instant(millis: i64, offset: i32, pattern: Seq<char>) -> Option<Seq<char>>;

/// Calls `chrono::DateTime::from_timestamp_millis` and, for the instant it
/// gives, `chrono::TimeZone::offset_from_utc_datetime` on `chrono::Local`,
/// handing out the offset's `local_minus_utc`: the machine's UTC offset at
/// that instant, in seconds; `None` for an instant chrono cannot represent,
/// which chrono then formats at no offset at all; every instant in chrono's
/// range is representable. The offset depends on the
/// machine's time zone, so all that is promised of it is what every
/// `chrono::FixedOffset` holds: it is less than a day either way.
#[verifier::external_body]
fn local_offset_seconds(millis: i64) -> (out: Option<i32>)
    ensures
        out matches Some(o) ==> -86400 < o < 86400,
        MIN_INSTANT_MILLIS <= millis <= MAX_INSTANT_MILLIS ==> out is Some,
        out is None ==> forall|offset: i32, pattern: Seq<char>| #[trigger] formatted_instant(millis, offset, pattern) is None,
{
    match chrono::DateTime::from_timestamp_millis(millis) {
        Some(utc) => Some(chrono::TimeZone::offset_from_utc_datetime(&chrono::Local, &utc.naive_utc()).local_minus_utc()),
        None => None,
    }
}

/// Calls `chrono::FixedOffset::east_opt` with `offset` and, for the offset it
/// gives, `chrono::TimeZone::timestamp_millis_opt` with `millis`, then
/// `DateTime::format` with `pattern` rendered by `to_string`. The result is
/// the one named `formatted_instant`; `east_opt` refuses an offset of a day
/// or more either way, which gives `None`, and accepts every smaller one, at
/// which every instant in chrono's range has its one local time. `pattern` is limited to the
/// crate's own valid patterns, on which rendering cannot fail.
#[verifier::external_body]
fn format_at_offset(millis: i64, offset: i32, pattern: &str) -> (out: Option<String>)
    requires
        is_known_pattern(pattern@),
    ensures
        match out {
            Some(text) => formatted_instant(millis, offset, pattern@) == Some(text@),
            None => formatted_instant(millis, offset, pattern@) is None,
        },
        (offset <= -86400 || offset >= 86400) ==> out is None,
        (-86400 < offset < 86400 && MIN_INSTANT_MILLIS <= millis <= MAX_INSTANT_MILLIS) ==> out is Some,
{
    match chrono::FixedOffset::east_opt(offset) {
        Some(zone) => match chrono::TimeZone::timestamp_millis_opt(&zone, millis) {
            chrono::LocalResult::Single(t) => Some(t.format(pattern).to_string()),
            _ => None,
        },
        None => None,
    }
}

/// The text of an instant seen at a UTC offset, empty where chrono has none.
pub open spec fn stamp_text(millis: i64, offset: i32, pattern: Seq<char>) -> Seq<char> {
    match formatted_instant(millis, offset, pattern) {
        Some(text) => text,
        None => seq![],
    }
}

/// An instant, in milliseconds since the Unix epoch, and the UTC offset, in
/// seconds, at which it is shown.
#[derive(Clone, Copy, PartialEq, Eq, Debug, Structural)]
pub struct CaptureInstant {
    pub millis: i64,
    pub offset: i32,
}

/// The current instant and the machine's UTC offset at it, to record as the
/// capture instant.
pub fn capture_instant() -> (out: CaptureInstant)
    ensures
        MIN_INSTANT_MILLIS <= out.millis <= MAX_INSTANT_MILLIS,
        -86400 < out.offset < 86400,
{
    let millis = now_millis();
    match local_offset_seconds(millis) {
        Some(offset) => CaptureInstant { millis, offset },
        None => {
            // Every instant of the clock lies in chrono's range, which has an
            // offset throughout.
            proof {
                assert(false);
            }
            CaptureInstant { millis, offset: 0 }
        },
    }
}

/// User-configurable capture settings, threaded through the pipeline so each
/// stage can consult them without reaching back into window state.
#[derive(Clone, Debug)]
pub struct CaptureOptions {
    /// Output format: 0 = PNG, 1 = JPEG.
    pub format_idx: u32,
    /// JPEG encoder quality, 1-100. Ignored for PNG output.
    pub jpeg_quality: u8,
    /// Whether to overlay a date/time watermark.
    pub watermark: bool,
    /// Watermark date format preset index (0-4).
    pub watermark_format: u32,
    /// Optional custom text prepended to the watermark date.
    pub watermark_text: String,
    /// Watermark corner: 0 = bottom-right, 1 = bottom-left, 2 = top-right, 3 = top-left.
    pub watermark_position: u32,
    /// Watermark text colour: 0 = white (dark shadow), 1 = black (light shadow).
    pub watermark_color: u32,
    /// Custom save directory, or `None` for the default.
    pub save_dir: Option<String>,
    /// Whether to show the preview window before saving.
    pub show_preview: bool,
    /// What to capture.
    pub mode: CaptureMode,
    /// Instant the screenshot was taken, with the UTC offset in force then,
    /// captured once so that the preview and the saved file show the same
    /// timestamp.
    pub captured_at: Option<CaptureInstant>,
}

impl Default for CaptureOptions {
    fn default() -> (o: CaptureOptions)
        ensures
            o.format_idx == 0,
            o.jpeg_quality == 0,
            !o.watermark,
            o.watermark_format == 0,
            o.watermark_text@ == Seq::<char>::empty(),
            o.watermark_position == 0,
            o.watermark_color == 0,
            o.save_dir is None,
            !o.show_preview,
            o.mode == CaptureMode::Interactive,
            o.captured_at is None,
    {
        CaptureOptions {
            format_idx: 0,
            jpeg_quality: 0,
            watermark: false,
            watermark_format: 0,
            watermark_text: String::new(),
            watermark_position: 0,
            watermark_color: 0,
            save_dir: None,
            show_preview: false,
            mode: CaptureMode::Interactive,
            captured_at: None,
        }
    }
}

/// The watermark string for a label and a formatted date.
pub open spec fn spec_watermark(label: Seq<char>, date: Seq<char>) -> Seq<char> {
    if label.len() == 0 {
        date
    } else {
        label + " | "@ + date
    }
}

/// The file name of a capture stamped `stamp`, with the extension of the
/// output format.
pub open spec fn spec_file_name(stamp: Seq<char>, format_idx: u32) -> Seq<char> {
    "Screenshot_"@ + stamp + "_supershot."@ + (if format_idx == 1 { "jpg"@ } else { "png"@ })
}

/// The watermark string: the custom label, if any, then the date.
pub fn compose_watermark(label: &str, date: &str) -> (out: String)
    ensures
        out@ == spec_watermark(label@, date@),
{
    if label.unicode_len() == 0 {
        return String::from_str(date);
    }
    let mut out = String::from_str(label);
    out.append(" | ");
    out.append(date);
    out
}

/// The file name of a capture stamped `stamp`.
pub fn file_name_for(stamp: &str, format_idx: u32) -> (out: String)
    ensures
        out@ == spec_file_name(stamp@, format_idx),
{
    let mut out = String::from_str("Screenshot_");
    out.append(stamp);
    out.append("_supershot.");
    out.append(if format_idx == 1 { "jpg" } else { "png" });
    out
}

/// The date format preset for `idx`; out-of-range values fall back to the first.
pub fn watermark_pattern(idx: u32) -> (p: &'static str)
    ensures
        p@ == spec_watermark_pattern(idx),
{
    match idx {
        1 => "%d/%m/%Y %H:%M",
        2 => "%b %d, %Y %H:%M",
        3 => "%Y-%m-%d",
        4 => "%H:%M:%S",
        _ => "%Y-%m-%d %H:%M:%S",
    }
}

/// The JPEG quality used for a configured value: 90 when unset, at most 100.
pub open spec fn effective_quality(q: u8) -> u8 {
    if q == 0 {
        90
    } else if q > 100 {
        100
    } else {
        q
    }
}

impl CaptureOptions {
    /// Effective JPEG quality, guarding against an unset or out-of-range value.
    pub fn quality(&self) -> (q: u8)
        ensures
            q == effective_quality(self.jpeg_quality),
    {
        if self.jpeg_quality == 0 {
            90
        } else if self.jpeg_quality > 100 {
            100
        } else {
            self.jpeg_quality
        }
    }

    /// Whether the output is JPEG rather than PNG.
    pub fn is_jpeg(&self) -> (b: bool)
        ensures
            b <==> self.format_idx == 1,
    {
        self.format_idx == 1
    }

    /// The recorded capture instant formatted with `pattern` at its recorded
    /// offset; with none recorded, the current time at the machine's offset.
    /// Empty for an instant chrono cannot represent.
    fn stamp(&self, pattern: &str) -> (out: String)
        requires
            is_known_pattern(pattern@),
        ensures
            self.captured_at matches Some(c) ==> out@ == stamp_text(c.millis, c.offset, pattern@),
            self.captured_at is None ==> exists|millis: i64, offset: i32|
                {
                    &&& MIN_INSTANT_MILLIS <= millis <= MAX_INSTANT_MILLIS
                    &&& -86400 < offset < 86400
                    &&& formatted_instant(millis, offset, pattern@) is Some
                    &&& out@ == #[trigger] stamp_text(millis, offset, pattern@)
                },
    {
        let at = match self.captured_at {
            Some(c) => c,
            None => capture_instant(),
        };
        let out = match format_at_offset(at.millis, at.offset, pattern) {
            Some(text) => text,
            None => String::new(),
        };
        assert(out@ == stamp_text(at.millis, at.offset, pattern@));
        out
    }

    /// The file name the capture is saved under: its timestamp and the
    /// extension of the output format.
    pub fn file_name(&self) -> (out: String)
        ensures
            self.captured_at matches Some(c) ==> out@ == spec_file_name(
                stamp_text(c.millis, c.offset, file_stamp_pattern()),
                self.format_idx,
            ),
            self.captured_at is None ==> exists|millis: i64, offset: i32|
                {
                    &&& MIN_INSTANT_MILLIS <= millis <= MAX_INSTANT_MILLIS
                    &&& -86400 < offset < 86400
                    &&& formatted_instant(millis, offset, file_stamp_pattern()) is Some
                    &&& out@ == spec_file_name(#[trigger] stamp_text(millis, offset, file_stamp_pattern()), self.format_idx)
                },
    {
        let stamp = self.stamp("%Y-%m-%d_%H-%M-%S%.3f");
        file_name_for(stamp.as_str(), self.format_idx)
    }
}

/// The watermark string for `options`: the custom text, if any, then the
/// capture date in the configured preset (the current time when no capture
/// instant was recorded).
pub fn watermark_text(options: &CaptureOptions) -> (out: String)
    ensures
        options.captured_at matches Some(c) ==> out@ == spec_watermark(
            options.watermark_text@,
            stamp_text(c.millis, c.offset, spec_watermark_pattern(options.watermark_format)),
        ),
        options.captured_at is None ==> exists|millis: i64, offset: i32|
            {
                &&& MIN_INSTANT_MILLIS <= millis <= MAX_INSTANT_MILLIS
                &&& -86400 < offset < 86400
                &&& formatted_instant(millis, offset, spec_watermark_pattern(options.watermark_format)) is Some
                &&& out@ == spec_watermark(
                    options.watermark_text@,
                    #[trigger] stamp_text(millis, offset, spec_watermark_pattern(options.watermark_format)),
                )
            },
{
    let pattern = watermark_pattern(options.watermark_format);
    proof {
        if options.watermark_format < 5 {
            assert(pattern@ == spec_watermark_pattern(options.watermark_format));
        } else {
            assert(pattern@ == spec_watermark_pattern(0));
        }
    }
    let date = options.stamp(pattern);
    compose_watermark(options.watermark_text.as_str(), date.as_str())
}

/// The directories a capture may be saved to, most preferred first: the
/// configured one, the pictures directory's `Screenshots`, `Pictures/Screenshots`
/// under home, and as a last resort a directory under the temporary one so a
/// capture already taken is never lost.
pub open spec fn spec_save_dir_candidates(
    configured: Option<Seq<char>>,
    pictures: Option<Seq<char>>,
    home: Option<Seq<char>>,
    temp: Seq<char>,
) -> Seq<Seq<char>> {
    (match configured {
        Some(c) => seq![c],
        None => seq![],
    }) + (match pictures {
        Some(p) => seq![join_path(p, "Screenshots"@)],
        None => seq![],
    }) + (match home {
        Some(h) => seq![join_path(join_path(h, "Pictures"@), "Screenshots"@)],
        None => seq![],
    }) + seq![join_path(temp, "supershot"@)]
}

/// The save directories to try, in order.
pub fn save_dir_candidates(
    configured: Option<&str>,
    pictures: Option<&str>,
    home: Option<&str>,
    temp: &str,
) -> (out: Vec<String>)
    ensures
        views(out@) == spec_save_dir_candidates(
            match configured {
                Some(c) => Some(c@),
                None => None,
            },
            match pictures {
                Some(p) => Some(p@),
                None => None,
            },
            match home {
                Some(h) => Some(h@),
                None => None,
            },
            temp@,
        ),
{
    let mut out: Vec<String> = Vec::new();
    if let Some(c) = configured {
        out.push(String::from_str(c));
    }
    let ghost a = views(out@);
    if let Some(p) = pictures {
        out.push(join(p, "Screenshots"));
    }
    let ghost b = views(out@);
    if let Some(h) = home {
        let pics = join(h, "Pictures");
        out.push(join(pics.as_str(), "Screenshots"));
    }
    let ghost c = views(out@);
    out.push(join(temp, "supershot"));
    proof {
        let cfg = match configured {
            Some(c) => Some(c@),
            None => None,
        };
        let pic = match pictures {
            Some(p) => Some(p@),
            None => None,
        };
        let hm = match home {
            Some(h) => Some(h@),
            None => None,
        };
        assert(views(out@) =~= spec_save_dir_candidates(cfg, pic, hm, temp@));
    }
    out
}

/// What the encoder makes of an image: PNG keeps the alpha channel, JPEG
/// has none, so the image is first composited over white.
pub open spec fn spec_encoded(img: Raster, jpeg: bool, quality: u8) -> Result<Seq<u8>, Seq<char>> {
    if jpeg {
        jpeg_bytes(
            img.width as u32,
            img.height as u32,
            rgb_bytes(img.pixels.map_values(|p: Rgba| flatten_pixel(p))),
            quality,
        )
    } else {
        png_bytes(img.width as u32, img.height as u32, rgba_bytes(img.pixels))
    }
}

/// The file bytes of `img` as JPEG at `quality`, or as PNG; the encoder's
/// error text on failure.
pub fn encode_image(img: &RgbaImage, jpeg: bool, quality: u8) -> (out: Result<Vec<u8>, String>)
    ensures
        match (spec_encoded(img@, jpeg, quality), out) {
            (Ok(b), Ok(v)) => v@ == b,
            (Err(e), Err(m)) => m@ == e,
            _ => false,
        },
{
    proof {
        use_type_invariant(img);
    }
    let w = img.width();
    let h = img.height();
    if jpeg {
        let rgb = flatten_to_rgb(img);
        let raw = rgb.to_raw();
        encode_jpeg(w, h, raw.as_slice(), quality)
    } else {
        let raw = img.to_raw();
        encode_png(w, h, raw.as_slice())
    }
}

/// Encode the finished image in the configured format: JPEG at the
/// effective quality when `format_idx` selects it, PNG otherwise. A failure
/// is reported as a translated "Encoding failed" and the encoder's text.
pub fn encode(img: &RgbaImage, options: &CaptureOptions) -> (out: Result<Vec<u8>, String>)
    ensures
        match (spec_encoded(img@, options.format_idx == 1, effective_quality(options.jpeg_quality)), out) {
            (Ok(b), Ok(v)) => v@ == b,
            (Err(e), Err(m)) => exists|prefix: Seq<char>| m@ == prefix + ": "@ + e,
            _ => false,
        },
{
    proof {
        use_type_invariant(img);
    }
    match encode_image(img, options.is_jpeg(), options.quality()) {
        Ok(bytes) => Ok(bytes),
        Err(e) => {
            proof {
                reveal_strlit("Encoding failed");
            }
            let mut msg = translate("Encoding failed");
            let ghost prefix = msg@;
            msg.append(": ");
            msg.append(e.as_str());
            assert(msg@ == prefix + ": "@ + e@);
            Err(msg)
        },
    }
}

} // verus!
