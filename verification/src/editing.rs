//! The non-destructive geometry edits of the preview window and the pixel
//! operations that realise them.

pub use crate::raster::crop_rgba;

use crate::annotate::Reframe;
use crate::codec::{decode_rgba, decoded_rgba, resize_triangle, resized_rgba};
use crate::raster::{is_remap, raster_from_rgba, remap_dims, remap_source, rgba_bytes, Raster, Remap, RgbaImage};
use vstd::prelude::*;
use vstd::string::*;

verus! {

/// Longest edge of the image used for live preview rendering.
pub const PREVIEW_MAX_EDGE: u32 = 1600;

/// The orientation part of the edit state: a clockwise rotation in degrees
/// (0, 90, 180 or 270) followed by optional mirroring.
#[derive(Clone, Copy, PartialEq, Eq, Debug, Structural)]
pub struct Geometry {
    pub rotation: u32,
    pub flip_h: bool,
    pub flip_v: bool,
}

/// The remap that realises a rotation value; other values leave the image as is.
pub open spec fn rotation_remap(rotation: u32) -> Option<Remap> {
    if rotation == 90 {
        Some(Remap::Rot90)
    } else if rotation == 180 {
        Some(Remap::Rot180)
    } else if rotation == 270 {
        Some(Remap::Rot270)
    } else {
        None
    }
}

/// `out` is `src` remapped by `kind` when there is one, else `src` itself.
pub open spec fn is_step(kind: Option<Remap>, src: Raster, out: Raster) -> bool {
    match kind {
        Some(k) => is_remap(k, src, out),
        None => out == src,
    }
}

pub open spec fn flip_h_step(g: Geometry) -> Option<Remap> {
    if g.flip_h {
        Some(Remap::FlipH)
    } else {
        None
    }
}

pub open spec fn flip_v_step(g: Geometry) -> Option<Remap> {
    if g.flip_v {
        Some(Remap::FlipV)
    } else {
        None
    }
}

/// `out` is `src` rotated, then mirrored left to right, then top to bottom, as `g` says.
pub open spec fn is_oriented(g: Geometry, src: Raster, out: Raster) -> bool {
    exists|r: Raster, h: Raster|
        #![trigger is_step(rotation_remap(g.rotation), src, r), is_step(flip_h_step(g), r, h)]
        is_step(rotation_remap(g.rotation), src, r) && is_step(flip_h_step(g), r, h) && is_step(
            flip_v_step(g),
            h,
            out,
        )
}

/// Rotation after turning by `degrees`, reduced into `[0, 360)`.
pub open spec fn turned(rotation: int, degrees: int) -> int {
    (rotation + degrees) % 360
}

/// The way annotations must move when the displayed image turns by `degrees`.
///
/// The image is rotated first and mirrored afterwards, so when exactly one
/// flip is active the reflection reverses the apparent direction of the turn.
pub open spec fn turn_reframe(g: Geometry, degrees: int) -> Reframe {
    let clockwise = degrees > 0;
    let apparent = if g.flip_h == g.flip_v { clockwise } else { !clockwise };
    if apparent {
        Reframe::Rot90
    } else {
        Reframe::Rot270
    }
}

impl Geometry {
    /// No rotation and no mirroring.
    pub fn identity() -> (g: Geometry)
        ensures
            g == (Geometry { rotation: 0, flip_h: false, flip_v: false }),
    {
        Geometry { rotation: 0, flip_h: false, flip_v: false }
    }

    /// True when the edit leaves the image as it is.
    pub fn is_identity(&self) -> (b: bool)
        ensures
            b <==> (self.rotation == 0 && !self.flip_h && !self.flip_v),
    {
        self.rotation == 0 && !self.flip_h && !self.flip_v
    }

    /// True when the edit swaps the image's width and height.
    ///
    /// Annotation coordinates are stored against the geometry-corrected image,
    /// so the preview has to know when a change invalidates them.
    pub fn changes_geometry(&self) -> (b: bool)
        ensures
            b <==> (self.rotation == 90 || self.rotation == 270),
    {
        self.rotation == 90 || self.rotation == 270
    }

    /// Dimensions of a `w` x `h` image once this edit is applied.
    pub fn output_size(&self, w: u32, h: u32) -> (out: (u32, u32))
        ensures
            out == if self.rotation == 90 || self.rotation == 270 { (h, w) } else { (w, h) },
    {
        if self.changes_geometry() {
            (h, w)
        } else {
            (w, h)
        }
    }

    /// Turn by a quarter (`degrees` = 90 or -90), returning how the
    /// annotations have to move to follow what the user sees.
    pub fn rotate(&mut self, degrees: i32) -> (how: Reframe)
        ensures
            final(self).rotation == turned(old(self).rotation as int, degrees as int),
            final(self).flip_h == old(self).flip_h,
            final(self).flip_v == old(self).flip_v,
            how == turn_reframe(*old(self), degrees as int),
    {
        let clockwise = degrees > 0;
        let apparent_clockwise = if self.flip_h == self.flip_v {
            clockwise
        } else {
            !clockwise
        };
        let how = if apparent_clockwise {
            Reframe::Rot90
        } else {
            Reframe::Rot270
        };
        let sum: i64 = self.rotation as i64 + degrees as i64;
        let r = sum % 360;
        let r = if r < 0 {
            r + 360
        } else {
            r
        };
        proof {
            let s = sum as int;
            assert(0 <= s % 360 < 360);
            if s >= 0 {
                assert(r == s % 360);
            } else {
                vstd::arithmetic::div_mod::lemma_fundamental_div_mod(s, 360);
                assert(r == s % 360) by {
                    vstd::arithmetic::div_mod::lemma_fundamental_div_mod_converse_mod(
                        s,
                        360,
                        s / 360,
                        r as int,
                    );
                }
            }
        }
        self.rotation = r as u32;
        how
    }

    /// Toggle mirroring along one axis, returning how the annotations move.
    ///
    /// The reflection applies to the displayed frame whatever the rotation,
    /// because the two flips commute and the rotation cancels out between the
    /// old and new frames.
    pub fn toggle_flip(&mut self, horizontal: bool) -> (how: Reframe)
        ensures
            final(self).rotation == old(self).rotation,
            final(self).flip_h == (if horizontal { !old(self).flip_h } else { old(self).flip_h }),
            final(self).flip_v == (if horizontal { old(self).flip_v } else { !old(self).flip_v }),
            how == (if horizontal { Reframe::FlipH } else { Reframe::FlipV }),
    {
        if horizontal {
            self.flip_h = !self.flip_h;
            Reframe::FlipH
        } else {
            self.flip_v = !self.flip_v;
            Reframe::FlipV
        }
    }

    /// Rotate, then mirror, an image as this edit says.
    pub fn apply(&self, img: &RgbaImage) -> (out: RgbaImage)
        ensures
            out@.wf(),
            is_oriented(*self, img@, out@),
            (out@.width, out@.height) == (if self.rotation == 90 || self.rotation == 270 {
                (img@.height, img@.width)
            } else {
                (img@.width, img@.height)
            }),
    {
        proof {
            use_type_invariant(img);
        }
        let rotated = match self.rotation {
            90 => img.remap(Remap::Rot90),
            180 => img.remap(Remap::Rot180),
            270 => img.remap(Remap::Rot270),
            _ => img.duplicate(),
        };
        let ghost r = rotated@;
        let mirrored = if self.flip_h {
            rotated.remap(Remap::FlipH)
        } else {
            rotated
        };
        let ghost m = mirrored@;
        let out = if self.flip_v {
            mirrored.remap(Remap::FlipV)
        } else {
            mirrored
        };
        proof {
            assert(is_step(rotation_remap(self.rotation), img@, r));
            assert(is_step(flip_h_step(*self), r, m));
            assert(is_step(flip_v_step(*self), m, out@));
        }
        out
    }
}


/// Turning a quarter one way and then back restores the edit, and the two
/// turns move the annotations by inverse quarter turns.
pub proof fn law_turning_back_restores_the_geometry(g: Geometry, degrees: int)
    requires
        g.rotation < 360,
        degrees == 90 || degrees == -90,
    ensures
        ({
            let g1 = Geometry { rotation: turned(g.rotation as int, degrees) as u32, ..g };
            &&& turned(g1.rotation as int, -degrees) == g.rotation
            &&& turn_reframe(g, degrees) != turn_reframe(g1, -degrees)
        }),
{
    let t = turned(g.rotation as int, degrees);
    assert(0 <= t < 360);
    if degrees == 90 {
        if g.rotation + 90 < 360 {
            assert(t == g.rotation + 90);
        } else {
            assert(t == g.rotation + 90 - 360);
        }
    } else {
        if g.rotation >= 90 {
            assert(t == g.rotation - 90);
        } else {
            assert(t == g.rotation - 90 + 360);
        }
    }
}

/// Toggling the same flip twice restores the edit; both toggles move the
/// annotations by the same reflection.
pub proof fn law_flipping_twice_restores_the_geometry(g: Geometry, horizontal: bool)
    ensures
        ({
            let g1 = if horizontal { Geometry { flip_h: !g.flip_h, ..g } } else { Geometry { flip_v: !g.flip_v, ..g } };
            let g2 = if horizontal { Geometry { flip_h: !g1.flip_h, ..g1 } } else { Geometry { flip_v: !g1.flip_v, ..g1 } };
            g2 == g
        }),
{
}

/// A quarter turn swaps the output's width and height; a half turn keeps them.
pub proof fn law_quarter_turns_swap_the_axes(g: Geometry, src: Raster, out: Raster)
    requires
        src.wf(),
        is_oriented(g, src, out),
    ensures
        (out.width, out.height) == (if g.rotation == 90 || g.rotation == 270 {
            (src.height, src.width)
        } else {
            (src.width, src.height)
        }),
{
    let (r, h) = choose|r: Raster, h: Raster|
        is_step(rotation_remap(g.rotation), src, r) && is_step(flip_h_step(g), r, h) && is_step(
            flip_v_step(g),
            h,
            out,
        );
}

/// Dimensions of a `w` x `h` source once `g` is applied.
pub open spec fn oriented_dims(g: Geometry, w: int, h: int) -> (int, int) {
    if g.rotation == 90 || g.rotation == 270 {
        (h, w)
    } else {
        (w, h)
    }
}

/// The source pixel shown at (u, v) once `g` is applied to a `w` x `h`
/// image: the flips undone in the rotated frame, then the rotation undone.
pub open spec fn oriented_source(g: Geometry, w: int, h: int, u: int, v: int) -> (int, int) {
    let (rw, rh) = oriented_dims(g, w, h);
    let u1 = if g.flip_h { rw - 1 - u } else { u };
    let v1 = if g.flip_v { rh - 1 - v } else { v };
    match rotation_remap(g.rotation) {
        Some(k) => remap_source(k, w, h, u1, v1),
        None => (u1, v1),
    }
}

/// The pixel remap that moves a displayed image as `how` moves annotations.
pub open spec fn reframe_remap(how: Reframe) -> Remap {
    match how {
        Reframe::Rot90 => Remap::Rot90,
        Reframe::Rot270 => Remap::Rot270,
        Reframe::FlipH => Remap::FlipH,
        Reframe::FlipV => Remap::FlipV,
    }
}

/// An oriented image, pixel by pixel.
proof fn lemma_oriented_at(g: Geometry, src: Raster, out: Raster)
    requires
        src.wf(),
        is_oriented(g, src, out),
    ensures
        out.wf(),
        (out.width as int, out.height as int) == oriented_dims(g, src.width as int, src.height as int),
        forall|u: int, v: int|
            out.contains(u, v) ==> #[trigger] out.at(u, v) == src.at(
                oriented_source(g, src.width as int, src.height as int, u, v).0,
                oriented_source(g, src.width as int, src.height as int, u, v).1,
            ),
{
    let (r, hh) = choose|r: Raster, hh: Raster|
        is_step(rotation_remap(g.rotation), src, r) && is_step(flip_h_step(g), r, hh) && is_step(
            flip_v_step(g),
            hh,
            out,
        );
    let w = src.width as int;
    let h = src.height as int;
    assert forall|u: int, v: int| out.contains(u, v) implies #[trigger] out.at(u, v) == src.at(
        oriented_source(g, w, h, u, v).0,
        oriented_source(g, w, h, u, v).1,
    ) by {
        let v1 = if g.flip_v { hh.height - 1 - v } else { v };
        let u1 = if g.flip_h { r.width - 1 - u } else { u };
        if g.flip_v {
            assert(out.at(u, v) == hh.at(u, v1));
        }
        assert(hh.contains(u, v1));
        assert(out.at(u, v) == hh.at(u, v1));
        if g.flip_h {
            assert(hh.at(u, v1) == r.at(u1, v1));
        }
        assert(r.contains(u1, v1));
        assert(hh.at(u, v1) == r.at(u1, v1));
        match rotation_remap(g.rotation) {
            Some(k) => {
                assert(r.at(u1, v1) == src.at(remap_source(k, w, h, u1, v1).0, remap_source(k, w, h, u1, v1).1));
            },
            None => {},
        }
    }
}

/// Where a turn or a flip sends the shown pixels, in source terms.
proof fn lemma_reframe_sources(g: Geometry, g2: Geometry, k: Remap, w: int, h: int, u: int, v: int)
    requires
        g.rotation == 0 || g.rotation == 90 || g.rotation == 180 || g.rotation == 270,
        g2.rotation == 0 || g2.rotation == 90 || g2.rotation == 180 || g2.rotation == 270,
        ({
            let (sw, sh) = oriented_dims(g, w, h);
            let (tw, th) = oriented_dims(g2, w, h);
            &&& remap_dims(k, sw, sh) == (tw, th)
            &&& 0 <= u < tw
            &&& 0 <= v < th
        }),
        ({
            ||| (g2.flip_h == g.flip_h && g2.flip_v == g.flip_v && g2.rotation == (g.rotation + 90) % 360
                && k == (if g.flip_h == g.flip_v { Remap::Rot90 } else { Remap::Rot270 }))
            ||| (g2.flip_h == g.flip_h && g2.flip_v == g.flip_v && g2.rotation == (g.rotation + 270) % 360
                && k == (if g.flip_h == g.flip_v { Remap::Rot270 } else { Remap::Rot90 }))
            ||| (g2.rotation == g.rotation && g2.flip_h != g.flip_h && g2.flip_v == g.flip_v && k == Remap::FlipH)
            ||| (g2.rotation == g.rotation && g2.flip_h == g.flip_h && g2.flip_v != g.flip_v && k == Remap::FlipV)
        }),
    ensures
        ({
            let (sw, sh) = oriented_dims(g, w, h);
            let (a, b) = remap_source(k, sw, sh, u, v);
            &&& 0 <= a < sw
            &&& 0 <= b < sh
            &&& oriented_source(g2, w, h, u, v) == oriented_source(g, w, h, a, b)
        }),
{
}

/// Turning the edit by a quarter moves the displayed image exactly as the
/// returned reframe says: the new displayed image is the old one remapped by
/// it, so annotations carried by that reframe stay on the pixels they marked.
pub proof fn law_turn_reframe_follows_the_image(
    g: Geometry,
    degrees: int,
    src: Raster,
    shown: Raster,
    turned_shown: Raster,
)
    requires
        degrees == 90 || degrees == -90,
        g.rotation == 0 || g.rotation == 90 || g.rotation == 180 || g.rotation == 270,
        src.wf(),
        is_oriented(g, src, shown),
        is_oriented(Geometry { rotation: turned(g.rotation as int, degrees) as u32, ..g }, src, turned_shown),
    ensures
        is_remap(reframe_remap(turn_reframe(g, degrees)), shown, turned_shown),
{
    let g2 = Geometry { rotation: turned(g.rotation as int, degrees) as u32, ..g };
    let k = reframe_remap(turn_reframe(g, degrees));
    let w = src.width as int;
    let h = src.height as int;
    lemma_oriented_at(g, src, shown);
    lemma_oriented_at(g2, src, turned_shown);
    assert(g2.rotation == (g.rotation + (if degrees == 90 { 90int } else { 270int })) % 360);
    assert forall|u: int, v: int| turned_shown.contains(u, v) implies #[trigger] turned_shown.at(u, v)
        == shown.at(
        remap_source(k, shown.width as int, shown.height as int, u, v).0,
        remap_source(k, shown.width as int, shown.height as int, u, v).1,
    ) by {
        lemma_reframe_sources(g, g2, k, w, h, u, v);
        let (a, b) = remap_source(k, shown.width as int, shown.height as int, u, v);
        assert(shown.contains(a, b));
        assert(shown.at(a, b) == src.at(oriented_source(g, w, h, a, b).0, oriented_source(g, w, h, a, b).1));
    }
}

/// Toggling a flip moves the displayed image as the returned reframe says:
/// the new displayed image is the old one mirrored along the same axis.
pub proof fn law_flip_reframe_follows_the_image(
    g: Geometry,
    horizontal: bool,
    src: Raster,
    shown: Raster,
    flipped_shown: Raster,
)
    requires
        g.rotation == 0 || g.rotation == 90 || g.rotation == 180 || g.rotation == 270,
        src.wf(),
        is_oriented(g, src, shown),
        is_oriented(
            if horizontal { Geometry { flip_h: !g.flip_h, ..g } } else { Geometry { flip_v: !g.flip_v, ..g } },
            src,
            flipped_shown,
        ),
    ensures
        is_remap(if horizontal { Remap::FlipH } else { Remap::FlipV }, shown, flipped_shown),
{
    let g2 = if horizontal { Geometry { flip_h: !g.flip_h, ..g } } else { Geometry { flip_v: !g.flip_v, ..g } };
    let k = if horizontal { Remap::FlipH } else { Remap::FlipV };
    let w = src.width as int;
    let h = src.height as int;
    lemma_oriented_at(g, src, shown);
    lemma_oriented_at(g2, src, flipped_shown);
    assert forall|u: int, v: int| flipped_shown.contains(u, v) implies #[trigger] flipped_shown.at(u, v)
        == shown.at(
        remap_source(k, shown.width as int, shown.height as int, u, v).0,
        remap_source(k, shown.width as int, shown.height as int, u, v).1,
    ) by {
        lemma_reframe_sources(g, g2, k, w, h, u, v);
        let (a, b) = remap_source(k, shown.width as int, shown.height as int, u, v);
        assert(shown.contains(a, b));
        assert(shown.at(a, b) == src.at(oriented_source(g, w, h, a, b).0, oriented_source(g, w, h, a, b).1));
    }
}

/// What a decoder's answer gives the editor: the image its width, height and
/// row-major RGBA bytes describe, or its error text. Bytes that do not
/// number four per pixel are refused.
pub fn image_from_decoded(decoded: Result<(u32, u32, Vec<u8>), String>) -> (out: Result<RgbaImage, String>)
    ensures
        match decoded {
            Ok((w, h, data)) => if data@.len() == 4 * (w * h) {
                out matches Ok(img) && img@ == raster_from_rgba(w, h, data@)
            } else {
                out is Err
            },
            Err(e) => out matches Err(m) && m@ == e@,
        },
{
    match decoded {
        Ok((w, h, data)) => match RgbaImage::from_raw(w, h, &data) {
            Some(img) => Ok(img),
            None => Err(String::from_str("decoded image does not hold four bytes per pixel")),
        },
        Err(e) => Err(e),
    }
}

/// Decode the `bytes` of the capture file at `path` into RGBA pixels, in the
/// format its extension names (PNG or JPEG); the decoder's error text when
/// the extension names no format it reads or the bytes hold no such image.
pub fn load(path: &str, bytes: &[u8]) -> (out: Result<RgbaImage, String>)
    ensures
        match (decoded_rgba(path@, bytes@), out) {
            (Ok((w, h, data)), Ok(img)) => img@ == raster_from_rgba(w, h, data),
            (Err(e), Err(m)) => m@ == e,
            _ => false,
        },
{
    image_from_decoded(decode_rgba(path, bytes))
}

/// `img` resampled to `nwidth` x `nheight` with the `image` crate's
/// triangle filter, for the live preview. The buffers the resampling
/// allocates must stay within `isize::MAX` bytes.
pub fn downscale(img: &RgbaImage, nwidth: u32, nheight: u32) -> (out: RgbaImage)
    requires
        4 * (nwidth * nheight) <= isize::MAX,
        16 * (img@.width * nheight) <= isize::MAX,
    ensures
        out@ == raster_from_rgba(
            nwidth,
            nheight,
            resized_rgba(img@.width as u32, img@.height as u32, rgba_bytes(img@.pixels), nwidth, nheight),
        ),
{
    proof {
        use_type_invariant(img);
    }
    let resized = resize_triangle(img.width(), img.height(), img.to_raw(), nwidth, nheight);
    match RgbaImage::from_raw(nwidth, nheight, &resized) {
        Some(out) => out,
        None => RgbaImage::new(nwidth, nheight),
    }
}

} // verus!
