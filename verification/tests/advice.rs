use supershot::advice::{install_hint, missing_tool_message, no_tool_message, sandbox_message};
use supershot::capture::{CaptureMode, DisplayBackend};
use supershot::os_release::{
    first_segment_str, install_command, os_release_field, os_release_value, trim_quotes_str,
};

const FEDORA: &str = "NAME=\"Fedora Linux\"\nVERSION=\"40 (Workstation Edition)\"\nID=fedora\nVERSION_ID=40\n";
const MINT: &str = "NAME=\"Linux Mint\"\r\nID=linuxmint\r\nID_LIKE=\"ubuntu debian\"\r\n";

#[test]
fn os_release_fields_are_read_from_the_first_assigning_line() {
    assert_eq!(os_release_field(FEDORA, "ID"), Some("fedora".to_string()));
    assert_eq!(os_release_field(FEDORA, "NAME"), Some("\"Fedora Linux\"".to_string()));
    assert_eq!(os_release_field(FEDORA, "ID_LIKE"), None);
    assert_eq!(os_release_field("ID=a\nID=b\n", "ID"), Some("a".to_string()));
    // `ID_LIKE=` does not assign `ID`.
    assert_eq!(os_release_field("ID_LIKE=arch\n", "ID"), None);
    // A carriage return before a line feed belongs to the terminator.
    assert_eq!(os_release_field(MINT, "ID"), Some("linuxmint".to_string()));
    // The last line needs no terminator.
    assert_eq!(os_release_field("ID=nixos", "ID"), Some("nixos".to_string()));
    assert_eq!(os_release_field("", "ID"), None);
}

#[test]
fn quotes_are_trimmed_from_both_ends() {
    assert_eq!(trim_quotes_str("\"ubuntu debian\""), "ubuntu debian");
    assert_eq!(trim_quotes_str("'arch'"), "arch");
    assert_eq!(trim_quotes_str("\"'x'\""), "x");
    assert_eq!(trim_quotes_str("\"\""), "");
    assert_eq!(trim_quotes_str("a\"b"), "a\"b");
    assert_eq!(os_release_value(MINT, "ID_LIKE"), "ubuntu debian");
    assert_eq!(os_release_value(FEDORA, "ID_LIKE"), "");
}

#[test]
fn the_package_is_the_tool_before_its_companion() {
    assert_eq!(first_segment_str("grim + slurp", " + "), "grim");
    assert_eq!(first_segment_str("spectacle", " + "), "spectacle");
    assert_eq!(first_segment_str("", " + "), "");
}

#[test]
fn the_install_command_follows_the_distribution_family() {
    let grim = vec!["grim + slurp", "spectacle"];
    assert_eq!(install_command(FEDORA, &grim), Some("sudo dnf install grim".to_string()));
    assert_eq!(install_command(MINT, &grim), Some("sudo apt install grim".to_string()));
    assert_eq!(install_command("ID=arch\n", &grim), Some("sudo pacman -S grim".to_string()));
    assert_eq!(
        install_command("ID=\"opensuse-tumbleweed\"\nID_LIKE=\"opensuse suse\"\n", &grim),
        Some("sudo zypper install grim".to_string())
    );
    assert_eq!(install_command("ID=alpine\n", &grim), Some("sudo apk add grim".to_string()));
    assert_eq!(install_command("ID=nixos\n", &grim), Some("nix-env -iA nixpkgs.grim".to_string()));
    // Identifiers are compared without regard to case.
    assert_eq!(install_command("ID=Ubuntu\n", &grim), Some("sudo apt install grim".to_string()));
    // Arch-based distributions come first even when they also name another family.
    assert_eq!(install_command("ID=manjaro\nID_LIKE=\"arch debian\"\n", &grim), Some("sudo pacman -S grim".to_string()));
    assert_eq!(install_command("ID=gentoo\n", &grim), None);
    assert_eq!(install_command(FEDORA, &vec![]), None);
}

#[test]
fn the_install_hint_needs_release_text_and_a_known_distribution() {
    let tools = vec!["gnome-screenshot", "scrot"];
    let hint = install_hint(Some("ID=debian\n"), &tools).expect("debian is a known family");
    assert!(hint.contains("sudo apt install gnome-screenshot"), "unexpected hint: {hint}");
    assert!(!hint.contains("__CMD__"), "placeholder left in: {hint}");
    assert_eq!(install_hint(None, &tools), None);
    assert_eq!(install_hint(Some("ID=gentoo\n"), &tools), None);
}

#[test]
fn the_sandbox_report_names_the_channel() {
    assert_eq!(
        sandbox_message("Portal down.", "Inside __CHANNEL__, use a portal.", true),
        "Portal down.\n\nInside Flatpak, use a portal."
    );
    assert_eq!(
        sandbox_message("Portal down.", "Inside __CHANNEL__, use a portal.", false),
        "Portal down.\n\nInside Snap, use a portal."
    );
}

#[test]
fn the_missing_tool_report_is_assembled_from_its_parts() {
    let report = missing_tool_message(
        "Nothing worked.",
        "Mode: __MODE__ · Display server: __BACKEND__",
        "Area",
        DisplayBackend::Wayland,
        "Install one of: __TOOLS__",
        Some("For example: sudo dnf install grim"),
    );
    assert_eq!(
        report,
        "Nothing worked.\n\nMode: Area · Display server: Wayland\n\n\
         Install one of: grim + slurp, spectacle, gnome-screenshot\n\n\
         For example: sudo dnf install grim"
    );
    let report = missing_tool_message("Lead.", "__BACKEND__", "x", DisplayBackend::X11, "__TOOLS__", None);
    assert_eq!(report, "Lead.\n\nX11\n\ngnome-screenshot, spectacle, scrot, maim");
}

#[test]
fn the_no_tool_report_depends_on_the_sandbox() {
    let sandboxed = no_tool_message(DisplayBackend::Wayland, CaptureMode::Area, false, true, true, None);
    assert!(sandboxed.contains("Flatpak"), "unexpected report: {sandboxed}");
    assert!(!sandboxed.contains("grim"), "host tools suggested inside a sandbox: {sandboxed}");

    let host = no_tool_message(DisplayBackend::X11, CaptureMode::Screen, true, false, false, Some(FEDORA));
    assert!(host.contains("Display server: X11"), "unexpected report: {host}");
    assert!(host.contains("gnome-screenshot, spectacle, scrot, maim"), "unexpected report: {host}");
    assert!(host.ends_with("sudo dnf install gnome-screenshot"), "unexpected report: {host}");
}

#[test]
fn the_lead_sentence_says_whether_tools_were_tried() {
    assert_eq!(
        supershot::advice::lead_msgid(true),
        "Every available screenshot tool failed to produce an image."
    );
    assert_eq!(supershot::advice::lead_msgid(false), "No screenshot tool is available for this session.");
}
