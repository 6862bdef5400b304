//! Rules of the main window's settings.

use crate::text::{decimal, decimal_string, replace, replace_all, take_chars};
use vstd::string::*;
use vstd::prelude::*;

verus! {

/// Longest custom watermark text kept, in characters; unbounded text would
/// make the watermark layout pathological.
pub const MAX_WATERMARK_CHARS: usize = 256;

/// The capture delay, in seconds, for the Delay combo row's index.
pub fn delay_for_index(idx: u32) -> (secs: u32)
    ensures
        secs == if idx == 1 {
            3u32
        } else if idx == 2 {
            5u32
        } else if idx == 3 {
            10u32
        } else {
            0u32
        },
{
    match idx {
        1 => 3,
        2 => 5,
        3 => 10,
        _ => 0,
    }
}

/// The custom watermark text as persisted: at most `MAX_WATERMARK_CHARS` characters.
pub fn clamp_watermark_text(text: &str) -> (out: String)
    ensures
        out@ == if text@.len() <= MAX_WATERMARK_CHARS { text@ } else { text@.subrange(0, MAX_WATERMARK_CHARS as int) },
{
    take_chars(text, MAX_WATERMARK_CHARS)
}

/// The status line under the preview canvas: the output size, the pending
/// selection's size when there is one, and the annotation count when any.
pub open spec fn spec_status_text(
    size_line: Seq<char>,
    selection_line: Seq<char>,
    count_line: Seq<char>,
    size: (u32, u32),
    selection: Option<(u32, u32)>,
    count: u64,
) -> Seq<char> {
    let base = replace_all(
        replace_all(size_line, "__W__"@, decimal(size.0 as nat)),
        "__H__"@,
        decimal(size.1 as nat),
    );
    let with_selection = match selection {
        Some((w, h)) => base + "  ·  "@ + replace_all(
            replace_all(selection_line, "__W__"@, decimal(w as nat)),
            "__H__"@,
            decimal(h as nat),
        ),
        None => base,
    };
    if count > 0 {
        with_selection + "  ·  "@ + replace_all(count_line, "__N__"@, decimal(count as nat))
    } else {
        with_selection
    }
}

/// The preview's status line, from its translated templates: `size_line`
/// with `__W__` and `__H__`, `selection_line` likewise, `count_line` with
/// `__N__`.
pub fn status_text(
    size_line: &str,
    selection_line: &str,
    count_line: &str,
    size: (u32, u32),
    selection: Option<(u32, u32)>,
    count: u64,
) -> (out: String)
    ensures
        out@ == spec_status_text(size_line@, selection_line@, count_line@, size, selection, count),
{
    proof {
        reveal_strlit("__W__");
        reveal_strlit("__H__");
        reveal_strlit("__N__");
    }
    let width = replace(size_line, "__W__", decimal_string(size.0 as u64).as_str());
    let mut out = replace(width.as_str(), "__H__", decimal_string(size.1 as u64).as_str());
    if let Some((w, h)) = selection {
        let sel_w = replace(selection_line, "__W__", decimal_string(w as u64).as_str());
        let sel = replace(sel_w.as_str(), "__H__", decimal_string(h as u64).as_str());
        out.append("  ·  ");
        out.append(sel.as_str());
    }
    if count > 0 {
        let n = replace(count_line, "__N__", decimal_string(count).as_str());
        out.append("  ·  ");
        out.append(n.as_str());
    }
    out
}

} // verus!
