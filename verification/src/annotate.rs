//! Annotation tools and the integer core of the redaction tools.
//!
//! Redactions must replace the underlying pixels rather than cover them, so
//! they are applied to the image buffer itself: pixelate averages each mosaic
//! block, blackout writes a solid opaque colour. Vector marks and the
//! watermark are rendered into a transparent layer that is then blended over
//! the image.

pub use crate::raster::{fill_rect, mean_pixel, pixelate_rect};

use crate::codec::{overlaid_rgba, overlay_rgba};
use crate::raster::{raster_from_rgba, rgba_bytes, RgbaImage};
use vstd::prelude::*;

verus! {

/// The annotation tool the user currently has selected.
#[derive(Clone, Copy, PartialEq, Eq, Debug, Structural)]
pub enum Tool {
    /// Drag to define a crop rectangle. Not an annotation; handled by the
    /// preview window, but it shares the toolbar and the drag gesture.
    Crop,
    Arrow,
    Rectangle,
    Ellipse,
    Highlighter,
    FreeDraw,
    Text,
    Number,
    Pixelate,
    Blackout,
}

impl Tool {
    /// True when a single click places the mark, with no drag required.
    pub fn is_click_placed(self) -> (b: bool)
        ensures
            b <==> (self == Tool::Text || self == Tool::Number),
    {
        match self {
            Tool::Text | Tool::Number => true,
            _ => false,
        }
    }
}

impl Default for Tool {
    fn default() -> (t: Tool)
        ensures
            t == Tool::Crop,
    {
        Tool::Crop
    }
}

/// How the image frame changed under a geometry edit.
///
/// Annotations are stored in the coordinates of the displayed image, so a
/// rotation or flip moves the frame out from under them; they are carried
/// into the new frame rather than discarded.
#[derive(Clone, Copy, PartialEq, Eq, Debug, Structural)]
pub enum Reframe {
    /// Quarter turn clockwise.
    Rot90,
    /// Quarter turn counter-clockwise.
    Rot270,
    FlipH,
    FlipV,
}

/// Blend a rendered layer over `img`, anchored at the top-left corner, with
/// the `image` crate's alpha compositing; `img` keeps its size.
pub fn composite(img: &mut RgbaImage, layer: &RgbaImage)
    ensures
        final(img)@ == raster_from_rgba(
            old(img)@.width as u32,
            old(img)@.height as u32,
            overlaid_rgba(
                old(img)@.width as u32,
                old(img)@.height as u32,
                rgba_bytes(old(img)@.pixels),
                layer@.width as u32,
                layer@.height as u32,
                rgba_bytes(layer@.pixels),
            ),
        ),
{
    proof {
        use_type_invariant(&*img);
        use_type_invariant(layer);
    }
    let w = img.width();
    let h = img.height();
    let blended = overlay_rgba(w, h, img.to_raw(), layer.width(), layer.height(), layer.to_raw());
    match RgbaImage::from_raw(w, h, &blended) {
        Some(out) => {
            *img = out;
        },
        None => {},
    }
}

} // verus!
