# SuperShot

A GTK4 screenshot tool for GNOME and other Linux desktops: capture through
the XDG Screenshot portal or the session's command-line tools, annotate and
redact in a preview window, and save with an optional date watermark.

## Layout

- `src/` is the verified core, checked by Verus:
  - `raster.rs`: owned RGBA images and the pixel operations on them (crop,
    quarter turns and flips, tone adjustments, redactions, flattening for
    JPEG, conversion to and from Cairo's premultiplied layout);
  - `editing.rs`: the preview's geometry edits, loading and resampling;
  - `history.rs`: the bounded undo/redo history;
  - `capture.rs`, `flow.rs`, `advice.rs`, `os_release.rs`: backend detection,
    the fallback tool table, the capture flow's decisions, what to tell the
    user when nothing can capture, and the capture options;
  - `codec.rs`, `i18n.rs`: the calls into the `image` crate and gettext;
  - `config.rs`, `doctor.rs`, `window.rs`, `text.rs`: path resolution, the
    troubleshooting report, settings rules and string helpers.
- `app/` is the GTK application around it: windows, the portal request,
  process and file I/O, and the floating-point annotation geometry.
- `tests/` exercises the library.
