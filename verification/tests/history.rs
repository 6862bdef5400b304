use supershot::history::{History, Snapshot, MAX_IMAGE_SNAPSHOTS};

fn snap(state: u32, image: Option<&'static str>) -> Snapshot<u32, &'static str> {
    Snapshot { state, image }
}

#[test]
fn undo_returns_the_recorded_state_and_redo_returns_the_one_left() {
    let mut h: History<u32, &str> = History::new();
    assert!(!h.can_undo());
    h.push(snap(1, None));
    h.push(snap(2, Some("crop")));
    assert!(h.can_undo());
    assert!(!h.can_redo());

    assert_eq!(h.undo_restores_image(), Some(true));
    let restored = h.undo(snap(3, Some("now"))).expect("there is an entry to undo");
    assert_eq!((restored.state, restored.image), (2, Some("crop")));
    assert!(h.can_redo());

    assert_eq!(h.redo_restores_image(), Some(true));
    let again = h.redo(snap(2, Some("crop"))).expect("there is an entry to redo");
    assert_eq!((again.state, again.image), (3, Some("now")));
    assert!(!h.can_redo());
}

#[test]
fn recording_discards_the_redo_history() {
    let mut h: History<u32, ()> = History::new();
    h.push(snap_unit(1));
    h.undo(snap_unit(2));
    assert!(h.can_redo());
    h.push(snap_unit(3));
    assert!(!h.can_redo());
    assert!(h.redo(snap_unit(4)).is_none());
}

fn snap_unit(state: u32) -> Snapshot<u32, ()> {
    Snapshot { state, image: None }
}

#[test]
fn only_the_newest_images_are_kept() {
    let mut h: History<u32, u32> = History::new();
    for i in 0..6u32 {
        h.push(Snapshot { state: i, image: Some(i * 10) });
        h.push(Snapshot { state: 100 + i, image: None });
    }
    let mut kept = Vec::new();
    while let Some(s) = h.undo(Snapshot { state: 999, image: None }) {
        kept.push((s.state, s.image));
    }
    // Most recent first: every state survives, only the last four images do.
    assert_eq!(kept.len(), 12);
    let images: Vec<u32> = kept.iter().filter_map(|(_, i)| *i).collect();
    assert_eq!(images, vec![50, 40, 30, 20]);
    assert_eq!(images.len(), MAX_IMAGE_SNAPSHOTS);
    assert_eq!(kept[11], (0, None));
    assert_eq!(kept[10], (100, None));
}

#[test]
fn undo_on_an_empty_history_does_nothing() {
    let mut h: History<u32, u32> = History::new();
    assert_eq!(h.undo_restores_image(), None);
    assert!(h.undo(Snapshot { state: 1, image: None }).is_none());
    assert!(!h.can_redo());
}
