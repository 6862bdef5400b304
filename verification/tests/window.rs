use supershot::window::status_text;

#[test]
fn the_status_line_lists_size_selection_and_count() {
    let plain = status_text("__W__ × __H__ px", "Selection __W__ × __H__", "__N__ annotations", (1920, 1080), None, 0);
    assert_eq!(plain, "1920 × 1080 px");
    let full = status_text(
        "__W__ × __H__ px",
        "Selection __W__ × __H__",
        "__N__ annotations",
        (800, 600),
        Some((120, 45)),
        3,
    );
    assert_eq!(full, "800 × 600 px  ·  Selection 120 × 45  ·  3 annotations");
    let counted = status_text("__W__x__H__", "", "__N__", (1, 2), None, 7);
    assert_eq!(counted, "1x2  ·  7");
}
