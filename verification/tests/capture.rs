use chrono::{Local, TimeZone};
use supershot::capture::{
    available_fallback_tools, backend_from_values, capture_instant, CaptureInstant, compose_watermark, fallback_attempts, file_name_for,
    save_dir_candidates, suggested_tools, wants_grim_area, watermark_pattern, watermark_text, CaptureMode, CaptureOptions,
    DisplayBackend, FallbackTool, Sink,
};

fn options() -> CaptureOptions {
    CaptureOptions {
        captured_at: Some({
            let at = Local.with_ymd_and_hms(2026, 8, 26, 12, 0, 0).single().expect("a valid local timestamp");
            CaptureInstant { millis: at.timestamp_millis(), offset: at.offset().local_minus_utc() }
        }),
        ..CaptureOptions::default()
    }
}

#[test]
fn the_watermark_timestamp_is_frozen_at_capture() {
    let opts = options();
    let first = watermark_text(&opts);
    let start = std::time::Instant::now();
    while start.elapsed() < std::time::Duration::from_millis(5) {}
    let second = watermark_text(&opts);
    assert_eq!(first, second);
    assert!(first.contains("2026-08-26"), "unexpected watermark text: {first}");
}

#[test]
fn watermark_text_prefixes_the_custom_label() {
    let opts = CaptureOptions {
        watermark_text: "Acme".to_string(),
        watermark_format: 3, // date only
        ..options()
    };
    assert_eq!(watermark_text(&opts), "Acme | 2026-08-26");
}

#[test]
fn an_out_of_range_watermark_format_falls_back_to_the_first_preset() {
    let opts = CaptureOptions { watermark_format: 99, ..options() };
    assert_eq!(watermark_text(&opts), "2026-08-26 12:00:00");
}

#[test]
fn watermark_presets_and_composition() {
    assert_eq!(watermark_pattern(1), "%d/%m/%Y %H:%M");
    assert_eq!(watermark_pattern(4), "%H:%M:%S");
    assert_eq!(watermark_pattern(5), "%Y-%m-%d %H:%M:%S");
    assert_eq!(compose_watermark("", "14:30:25"), "14:30:25");
    assert_eq!(compose_watermark("Acme", "14:30:25"), "Acme | 14:30:25");
}

#[test]
fn jpeg_quality_is_clamped_to_a_valid_range() {
    assert_eq!(CaptureOptions { jpeg_quality: 0, ..options() }.quality(), 90);
    assert_eq!(CaptureOptions { jpeg_quality: 50, ..options() }.quality(), 50);
    assert_eq!(CaptureOptions { jpeg_quality: 200, ..options() }.quality(), 100);
}

#[test]
fn capture_mode_maps_every_combo_index() {
    assert_eq!(CaptureMode::from_index(0), CaptureMode::Interactive);
    assert_eq!(CaptureMode::from_index(1), CaptureMode::Area);
    assert_eq!(CaptureMode::from_index(2), CaptureMode::Window);
    assert_eq!(CaptureMode::from_index(3), CaptureMode::Screen);
    // Out-of-range values from a corrupted GSettings key must not panic.
    assert_eq!(CaptureMode::from_index(99), CaptureMode::Interactive);
    assert!(!CaptureMode::Screen.portal_interactive());
    assert!(CaptureMode::Area.portal_interactive());
    assert_eq!(CaptureMode::Window.label_msgid(), "Window");
}

#[test]
fn the_backend_is_taken_from_gdk_backend_when_the_environment_disagrees() {
    assert_eq!(
        backend_from_values("x11", Some("wayland-0"), None, "wayland"),
        DisplayBackend::X11,
        "an explicit GDK_BACKEND request must win over WAYLAND_DISPLAY"
    );
    assert_eq!(backend_from_values("", Some("wayland-0"), None, "wayland"), DisplayBackend::Wayland);
    assert_eq!(backend_from_values("", None, Some(":0"), "x11"), DisplayBackend::X11);
    assert_eq!(backend_from_values("", None, None, ""), DisplayBackend::Unknown);
}

#[test]
fn the_gdk_backend_request_is_matched_without_regard_to_case() {
    assert_eq!(backend_from_values("Wayland,X11", None, None, ""), DisplayBackend::X11);
    assert_eq!(backend_from_values("WAYLAND", None, Some(":0"), "x11"), DisplayBackend::Wayland);
    assert_eq!(backend_from_values("broadway", None, None, "wayland"), DisplayBackend::Wayland);
    assert_eq!(DisplayBackend::Unknown.name(), "unknown");
}

#[test]
fn the_destination_filename_carries_the_capture_timestamp_and_extension() {
    for (format_idx, ext) in [(0u32, "png"), (1, "jpg")] {
        let opts = CaptureOptions { format_idx, ..options() };
        let name = opts.file_name();

        assert!(name.starts_with("Screenshot_2026-08-26_12-00-00"), "unexpected name: {name}");
        assert!(name.ends_with(&format!("_supershot.{ext}")), "unexpected name: {name}");
    }
    assert_eq!(file_name_for("X", 1), "Screenshot_X_supershot.jpg");
    assert_eq!(file_name_for("X", 7), "Screenshot_X_supershot.png");
}

#[test]
fn fallback_arguments_follow_the_mode() {
    let args = FallbackTool::Hyprshot.args(CaptureMode::Window, "/tmp/o.png").expect("hyprshot serves windows");
    assert_eq!(args, vec!["-m", "window", "--raw", "-o", "-", "-f", "/tmp/o.png"]);
    assert!(FallbackTool::Grim.args(CaptureMode::Window, "/tmp/o.png").is_none());
    assert!(FallbackTool::Flameshot.args(CaptureMode::Window, "/tmp/o.png").is_none());
    assert_eq!(FallbackTool::Flameshot.args(CaptureMode::Screen, "x").unwrap(), vec!["full", "--raw"]);
    assert_eq!(FallbackTool::Maim.args(CaptureMode::Window, "o").unwrap(), vec!["-st", "9999999", "o"]);
    assert_eq!(FallbackTool::Flameshot.sink(), Sink::Stdout);
    assert_eq!(FallbackTool::Scrot.sink(), Sink::File);
}

#[test]
fn fallback_attempts_keep_the_order_and_skip_what_cannot_run() {
    // Everything installed, X11, window capture: flameshot has no window mode.
    let all = vec![true; 10];
    let plan = fallback_attempts(DisplayBackend::X11, CaptureMode::Window, "o", &all);
    let names: Vec<&str> = plan.iter().map(|a| a.tool.name()).collect();
    assert_eq!(names, vec!["spectacle", "gnome-screenshot", "xfce4-screenshooter", "scrot", "maim", "import"]);
    assert_eq!(plan[3].args, vec!["-u", "o"]);

    let mut only_scrot = vec![false; 10];
    only_scrot[7] = true;
    let plan = fallback_attempts(DisplayBackend::Wayland, CaptureMode::Area, "o", &only_scrot);
    assert!(plan.is_empty());

    assert!(wants_grim_area(DisplayBackend::Wayland, CaptureMode::Interactive, true, true));
    assert!(!wants_grim_area(DisplayBackend::Wayland, CaptureMode::Screen, true, true));
    assert!(!wants_grim_area(DisplayBackend::X11, CaptureMode::Area, true, true));
}

#[test]
fn available_tools_list_the_grim_pair_once() {
    let mut installed = vec![false; 10];
    installed[0] = true; // grim
    installed[3] = true; // spectacle
    installed[7] = true; // scrot (X11 only)
    assert_eq!(
        available_fallback_tools(DisplayBackend::Wayland, true, &installed),
        vec!["grim+slurp", "spectacle"]
    );
    assert_eq!(available_fallback_tools(DisplayBackend::Wayland, false, &installed), vec!["grim", "spectacle"]);
    assert_eq!(available_fallback_tools(DisplayBackend::X11, true, &installed), vec!["spectacle", "scrot"]);
    assert!(available_fallback_tools(DisplayBackend::Unknown, true, &installed).is_empty());
}

#[test]
fn suggestions_depend_on_the_backend() {
    assert_eq!(suggested_tools(DisplayBackend::X11), vec!["gnome-screenshot", "spectacle", "scrot", "maim"]);
    assert_eq!(suggested_tools(DisplayBackend::Wayland)[0], "grim + slurp");
}

#[test]
fn save_directories_fall_back_in_order() {
    assert_eq!(
        save_dir_candidates(Some("/data/shots"), Some("/home/u/Pictures"), Some("/home/u/"), "/tmp"),
        vec![
            "/data/shots",
            "/home/u/Pictures/Screenshots",
            "/home/u/Pictures/Screenshots",
            "/tmp/supershot"
        ]
    );
    assert_eq!(save_dir_candidates(None, None, None, "/tmp/"), vec!["/tmp/supershot"]);
}

#[test]
fn the_display_type_name_reveals_the_backend() {
    assert_eq!(supershot::capture::backend_from_type_name("GdkWaylandDisplay"), Some(DisplayBackend::Wayland));
    assert_eq!(supershot::capture::backend_from_type_name("GdkX11Display"), Some(DisplayBackend::X11));
    assert_eq!(supershot::capture::backend_from_type_name("GdkBroadwayDisplay"), None);
    // The comparison is exact: a lower-case name names no backend.
    assert_eq!(supershot::capture::backend_from_type_name("wayland"), None);
}

#[test]
fn substring_search_is_exact() {
    assert!(supershot::text::contains("GdkWaylandDisplay", "Wayland"));
    assert!(supershot::text::contains("abc", ""));
    assert!(!supershot::text::contains("abc", "abcd"));
    assert!(!supershot::text::contains("abc", "B"));
}

#[test]
fn a_recorded_instant_is_shown_at_its_recorded_offset() {
    // 2026-08-26 12:00:00 UTC shown two hours east.
    let at = CaptureInstant { millis: 1_787_745_600_000, offset: 7200 };
    let opts = CaptureOptions { captured_at: Some(at), watermark_format: 4, ..CaptureOptions::default() };
    assert_eq!(watermark_text(&opts), "14:00:00");
    let opts = CaptureOptions { format_idx: 1, ..opts };
    assert_eq!(opts.file_name(), "Screenshot_2026-08-26_14-00-00.000_supershot.jpg");
    // An offset of a day or more has no text.
    let opts = CaptureOptions { captured_at: Some(CaptureInstant { offset: 86400, ..at }), ..opts };
    assert_eq!(opts.file_name(), "Screenshot__supershot.jpg");
}

#[test]
fn the_capture_instant_is_taken_now_at_the_local_offset() {
    let before = Local::now().timestamp_millis();
    let at = capture_instant();
    let after = Local::now().timestamp_millis();
    assert!(before <= at.millis && at.millis <= after);
    assert!(at.offset > -86400 && at.offset < 86400);
}

#[test]
fn the_instant_range_is_chronos() {
    use_range(
        chrono::DateTime::<chrono::Utc>::MIN_UTC.timestamp_millis(),
        chrono::DateTime::<chrono::Utc>::MAX_UTC.timestamp_millis(),
    );
}

fn use_range(min: i64, max: i64) {
    assert_eq!(min, supershot::capture::MIN_INSTANT_MILLIS);
    assert_eq!(max, supershot::capture::MAX_INSTANT_MILLIS);
    assert!(chrono::DateTime::from_timestamp_millis(min).is_some());
    assert!(chrono::DateTime::from_timestamp_millis(max).is_some());
}

#[test]
fn without_a_recorded_instant_the_current_time_is_stamped() {
    let opts = CaptureOptions { watermark_text: "Acme".to_string(), watermark_format: 3, ..CaptureOptions::default() };
    let text = watermark_text(&opts);
    assert!(text.starts_with("Acme | ") && text.len() == "Acme | ".len() + 10, "unexpected watermark: {text}");
    assert!(!opts.file_name().starts_with("Screenshot__"));
}
