use supershot::capture::DisplayBackend;
use supershot::doctor::{session_report, SessionFacts};
use supershot::flow::{after_fallback, after_portal, CaptureAction, FallbackOutcome, PortalOutcome};
use supershot::text::decimal_string;

#[test]
fn numbers_are_written_in_decimal() {
    assert_eq!(decimal_string(0), "0");
    assert_eq!(decimal_string(7), "7");
    assert_eq!(decimal_string(14), "14");
    assert_eq!(decimal_string(4294967295), "4294967295");
}

#[test]
fn the_session_report_lists_every_fact() {
    let facts = SessionFacts {
        version: "1.3.0".to_string(),
        channel: "Flatpak".to_string(),
        gtk_version: (4, 14, 2),
        adw_version: (1, 5, 0),
        backend: DisplayBackend::Wayland,
        session_type: Some("wayland".to_string()),
        desktop: None,
        gdk_backend: None,
        lang: Some("it_IT.UTF-8".to_string()),
        catalogs: "/app/share/locale".to_string(),
        portal: false,
        tools: vec![],
    };
    assert_eq!(
        session_report(&facts),
        "SuperShot 1.3.0\nPackaging: Flatpak\nGTK: 4.14.2\nLibadwaita: 1.5.0\n\n\
         Display server: Wayland\nXDG_SESSION_TYPE: wayland\nXDG_CURRENT_DESKTOP: (unset)\n\
         GDK_BACKEND: (unset)\n\nLocale: it_IT.UTF-8\nCatalogs: /app/share/locale\n\n\
         Screenshot portal: not detected\nFallback tools found: (none)\n"
    );
    let facts = SessionFacts {
        portal: true,
        tools: vec!["grim+slurp".to_string(), "spectacle".to_string()],
        ..facts
    };
    let report = session_report(&facts);
    assert!(report.ends_with("Screenshot portal: available\nFallback tools found: grim+slurp, spectacle\n"));
}

#[test]
fn a_dismissed_capture_ends_quietly() {
    assert!(matches!(after_portal(PortalOutcome::Cancelled), CaptureAction::Stop));
    assert!(matches!(after_fallback(FallbackOutcome::Cancelled), CaptureAction::Stop));
}

#[test]
fn the_fallback_runs_only_when_no_portal_answers() {
    assert!(matches!(after_portal(PortalOutcome::Unavailable), CaptureAction::TryFallback));
    match after_portal(PortalOutcome::Captured("file:///tmp/a.png".to_string())) {
        CaptureAction::Deliver { uri, temporary } => {
            assert_eq!(uri, "file:///tmp/a.png");
            assert!(!temporary);
        }
        _ => panic!("a portal capture must be delivered"),
    }
    match after_portal(PortalOutcome::Failed("denied".to_string())) {
        CaptureAction::ReportPortalError(m) => assert_eq!(m, "denied"),
        _ => panic!("a portal failure must be reported"),
    }
    match after_fallback(FallbackOutcome::Captured("file:///run/x.png".to_string())) {
        CaptureAction::Deliver { uri, temporary } => {
            assert_eq!(uri, "file:///run/x.png");
            assert!(temporary);
        }
        _ => panic!("a fallback capture must be delivered"),
    }
    match after_fallback(FallbackOutcome::Failed("no tool".to_string())) {
        CaptureAction::ReportFallbackError(m) => assert_eq!(m, "no tool"),
        _ => panic!("a fallback failure must be reported"),
    }
}
