use supershot::config::{channel, is_sandboxed, locale_candidates, localedir, APP_ID, FALLBACK_LOCALEDIR};
use supershot::window::{clamp_watermark_text, delay_for_index, MAX_WATERMARK_CHARS};

#[test]
fn any_confinement_counts_as_sandboxed() {
    assert!(!is_sandboxed(false, false));
    assert!(is_sandboxed(true, false));
    assert!(is_sandboxed(false, true));
    assert_eq!(channel(true, true, true), "Flatpak");
    assert_eq!(channel(false, true, true), "Snap");
    assert_eq!(channel(false, false, true), "AppImage");
    assert_eq!(channel(false, false, false), "native");
    assert_eq!(APP_ID, "com.github.axpnet.SuperShot");
}

#[test]
fn locale_candidates_run_from_most_to_least_specific() {
    let c = locale_candidates(Some("/dev/locale"), true, Some("/snap/supershot/7"), Some("/usr"), "/build/locale");
    assert_eq!(
        c,
        vec![
            "/dev/locale",
            "/app/share/locale",
            "/snap/supershot/7/usr/share/locale",
            "/usr/share/locale",
            "/build/locale",
            "/usr/share/locale"
        ]
    );
    let c = locale_candidates(None, false, None, None, "/build/locale");
    assert_eq!(c, vec!["/build/locale", "/usr/share/locale"]);
}

#[test]
fn the_first_existing_locale_directory_wins() {
    let c = locale_candidates(None, false, None, Some("/opt/ss"), "/build/locale");
    assert_eq!(localedir(&c, &vec![false, true, true]), "/build/locale");
    assert_eq!(localedir(&c, &vec![true, true, true]), "/opt/ss/share/locale");
    assert_eq!(localedir(&c, &vec![false, false, false]), FALLBACK_LOCALEDIR);
}

#[test]
fn delay_and_watermark_settings() {
    assert_eq!(delay_for_index(0), 0);
    assert_eq!(delay_for_index(1), 3);
    assert_eq!(delay_for_index(2), 5);
    assert_eq!(delay_for_index(3), 10);
    assert_eq!(delay_for_index(42), 0);

    let long: String = "é".repeat(300);
    let kept = clamp_watermark_text(&long);
    assert_eq!(kept.chars().count(), MAX_WATERMARK_CHARS);
    assert_eq!(clamp_watermark_text("Acme"), "Acme");
}
