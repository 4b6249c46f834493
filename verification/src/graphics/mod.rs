//! Bitmaps, textures and the rectangular blit engine.

use vstd::prelude::*;

use crate::data_types::{Rect, RectModel};

pub mod store;
pub mod text;

verus! {

/// How far `v` lies below zero (zero if `v` is non-negative).
pub open spec fn spill_low(v: int) -> int {
    if v < 0 {
        -v
    } else {
        0
    }
}

/// How far the span starting at `v` with length `len` reaches past `bound`
/// (zero if it stays within).
pub open spec fn spill_high(v: int, len: int, bound: int) -> int {
    if v + len - bound > 0 {
        v + len - bound
    } else {
        0
    }
}

/// A coordinate floored at zero.
pub open spec fn clip_pos(v: int) -> int {
    if v < 0 {
        0
    } else {
        v
    }
}

/// Origin of `r` clipped against a bitmap's bounds, x axis.
pub open spec fn clipped_x(r: RectModel) -> int {
    clip_pos(r.x)
}

/// Origin of `r` clipped against a bitmap's bounds, y axis.
pub open spec fn clipped_y(r: RectModel) -> int {
    clip_pos(r.y)
}

/// Width of `r` reduced by the spill past both sides of `[0, bound)`.
pub open spec fn clipped_width(r: RectModel, bound: int) -> int {
    r.width - spill_low(r.x) - spill_high(r.x, r.width, bound)
}

/// Height of `r` reduced by the spill past both sides of `[0, bound)`.
pub open spec fn clipped_height(r: RectModel, bound: int) -> int {
    r.height - spill_low(r.y) - spill_high(r.y, r.height, bound)
}

/// Number of pixel columns a blit actually copies: spill on either side
/// independently shrinks the copy.
pub open spec fn drawn_width(s: RectModel, sw: int, t: RectModel, dw: int) -> int {
    vstd::math::min(clipped_width(s, sw), clipped_width(t, dw))
}

/// Number of pixel rows a blit actually copies.
pub open spec fn drawn_height(s: RectModel, sh: int, t: RectModel, dh: int) -> int {
    vstd::math::min(clipped_height(s, sh), clipped_height(t, dh))
}

/// Whether destination coordinate `(px, py)` receives a copied pixel when
/// blitting source rectangle `s` (in a `sw x sh` bitmap) to target
/// rectangle `t` (in a `dw x dh` bitmap).
pub open spec fn in_drawn_region(
    s: RectModel,
    sw: int,
    sh: int,
    t: RectModel,
    dw: int,
    dh: int,
    px: int,
    py: int,
) -> bool {
    &&& clipped_x(t) <= px < clipped_x(t) + drawn_width(s, sw, t, dw)
    &&& clipped_y(t) <= py < clipped_y(t) + drawn_height(s, sh, t, dh)
}

/// The pixel of a row-major grid `g` of row length `w` at coordinate `(x, y)`.
pub open spec fn pix_at<P>(g: Seq<P>, w: int, x: int, y: int) -> P {
    g[y * w + x]
}

/// The value of destination pixel `(px, py)` after a blit: the matching
/// source pixel if `(px, py)` lies in the drawn region, the prior
/// destination pixel otherwise.
pub open spec fn blit_pix<P>(
    src: Seq<P>,
    sw: int,
    sh: int,
    dst: Seq<P>,
    dw: int,
    dh: int,
    s: RectModel,
    t: RectModel,
    px: int,
    py: int,
) -> P {
    if in_drawn_region(s, sw, sh, t, dw, dh, px, py) {
        pix_at(src, sw, clipped_x(s) + (px - clipped_x(t)), clipped_y(s) + (py - clipped_y(t)))
    } else {
        pix_at(dst, dw, px, py)
    }
}

/// A pixel-addressable 2D buffer: allocate, bounds-checked read (possibly
/// absent), bounds-checked write (no-op if out of range), row stride.
pub trait Bitmap: Sized {
    type Inner;

    /// Internal consistency of the buffer.
    spec fn wf(&self) -> bool;

    /// Width in pixels.
    spec fn width(&self) -> int;

    /// Height in pixels.
    spec fn height(&self) -> int;

    /// The stored pixels, row-major.
    spec fn pixels(&self) -> Seq<Self::Inner>;

    /// The value every pixel holds after allocation.
    spec fn fill_value() -> Self::Inner;

    fn new(width: usize, height: usize) -> (r: Self)
        requires
            width * height <= usize::MAX,
        ensures
            r.wf(),
            r.width() == width as int,
            r.height() == height as int,
            r.pixels() == Seq::new((width * height) as nat, |i: int| Self::fill_value()),
    ;

    fn pitch(&self) -> (r: usize)
        requires
            self.wf(),
        ensures
            r as int == self.width(),
    ;

    fn read(&self, x: usize, y: usize) -> (r: Option<Self::Inner>)
        requires
            self.wf(),
        ensures
            r == (if (x as int) < self.width() && (y as int) < self.height() {
                Some(pix_at(self.pixels(), self.width(), x as int, y as int))
            } else {
                None::<Self::Inner>
            }),
    ;

    fn write(&mut self, x: usize, y: usize, value: Self::Inner)
        requires
            old(self).wf(),
        ensures
            final(self).wf(),
            final(self).width() == old(self).width(),
            final(self).height() == old(self).height(),
            final(self).pixels() == (if (x as int) < old(self).width() && (y as int) < old(self).height() {
                old(self).pixels().update(y as int * old(self).width() + x as int, value)
            } else {
                old(self).pixels()
            }),
    ;
}

/// An unsigned 8-bit value for each color with an alpha channel, packed
/// into an unsigned 32-bit number: from most to least significant byte,
/// alpha, blue, green, red. Freshly allocated pixels are opaque black.
pub struct BitmapRGBA8 {
    data: Vec<u32>,
    pitch: usize,
    rows: usize,
}

impl Bitmap for BitmapRGBA8 {
    type Inner = u32;

    closed spec fn wf(&self) -> bool {
        self.data@.len() == self.pitch * self.rows
    }

    closed spec fn width(&self) -> int {
        self.pitch as int
    }

    closed spec fn height(&self) -> int {
        self.rows as int
    }

    closed spec fn pixels(&self) -> Seq<u32> {
        self.data@
    }

    open spec fn fill_value() -> u32 {
        0xFF000000u32
    }

    fn new(width: usize, height: usize) -> (r: Self) {
        let total: usize = width * height;
        let mut data: Vec<u32> = Vec::new();
        while data.len() < total
            invariant
                data@.len() <= total,
                forall|i: int| 0 <= i < data@.len() ==> data@[i] == 0xFF000000u32,
            decreases total - data@.len(),
        {
            data.push(0xFF000000);
        }
        proof {
            assert(data@ =~= Seq::new((width * height) as nat, |i: int| Self::fill_value()));
        }
        BitmapRGBA8 { data, pitch: width, rows: height }
    }

    fn pitch(&self) -> usize {
        self.pitch
    }

    fn read(&self, x: usize, y: usize) -> Option<u32> {
        if x < self.pitch && y < self.rows {
            // Reading the length in exec code teaches the prover that the
            // buffer, and so the row-major index, fits a usize.
            let len: usize = self.data.len();
            proof {
                lemma_row_major_index_in_range(
                    self.pitch as int,
                    self.rows as int,
                    x as int,
                    y as int,
                );
            }
            let index = get_bitmap_index(self.pitch, x, y);
            Some(self.data[index])
        } else {
            None
        }
    }

    fn write(&mut self, x: usize, y: usize, value: u32) {
        if x < self.pitch && y < self.rows {
            // Reading the length in exec code teaches the prover that the
            // buffer, and so the row-major index, fits a usize.
            let len: usize = self.data.len();
            proof {
                lemma_row_major_index_in_range(
                    self.pitch as int,
                    self.rows as int,
                    x as int,
                    y as int,
                );
            }
            let index = get_bitmap_index(self.pitch, x, y);
            self.data[index] = value;
        }
    }
}

/// Index of coordinate `(x, y)` in a row-major buffer of row length `pitch`.
#[inline]
fn get_bitmap_index(pitch: usize, x: usize, y: usize) -> (r: usize)
    requires
        y * pitch + x <= usize::MAX,
    ensures
        r == y * pitch + x,
{
    y * pitch + x
}

/// For an in-bounds coordinate, the row-major index falls inside a
/// `pitch * rows` buffer.
proof fn lemma_row_major_index_in_range(pitch: int, rows: int, x: int, y: int)
    by (nonlinear_arith)
    requires
        0 <= x < pitch,
        0 <= y < rows,
    ensures
        0 <= y * pitch + x < pitch * rows,
{
}

/// Distinct in-bounds coordinates have distinct row-major indices.
proof fn lemma_row_major_index_injective(w: int, x1: int, y1: int, x2: int, y2: int)
    by (nonlinear_arith)
    requires
        0 <= x1 < w,
        0 <= x2 < w,
    ensures
        y1 * w + x1 == y2 * w + x2 ==> x1 == x2 && y1 == y2,
{
}

/// A bitmap texture which can be rendered.
pub struct Texture2D<T: Bitmap> {
    /// The bitmap data.
    bitmap: T,
    /// The width of the texture in pixels.
    width: u32,
    /// The height of the texture in pixels.
    height: u32,
}

impl<T: Bitmap> Texture2D<T> {
    /// The texture's declared dimensions agree with its bitmap's.
    pub closed spec fn wf(&self) -> bool {
        &&& self.bitmap.wf()
        &&& self.bitmap.width() == self.width as int
        &&& self.bitmap.height() == self.height as int
        &&& self.bitmap.pixels().len() == (self.width as int) * (self.height as int)
        &&& (self.width as int) * (self.height as int) <= usize::MAX as int
    }

    /// Width in pixels.
    pub closed spec fn spec_width(&self) -> int {
        self.width as int
    }

    /// Height in pixels.
    pub closed spec fn spec_height(&self) -> int {
        self.height as int
    }

    /// The stored pixels, row-major.
    pub closed spec fn pixels(&self) -> Seq<T::Inner> {
        self.bitmap.pixels()
    }

    /// Generates a new, blank Texture2D: every pixel holds the bitmap's
    /// default fill value.
    pub fn new(width: u32, height: u32) -> (r: Texture2D<T>)
        requires
            (width as int) * (height as int) <= usize::MAX as int,
        ensures
            r.wf(),
            r.spec_width() == width as int,
            r.spec_height() == height as int,
            r.pixels().len() == (width as int) * (height as int),
            forall|px: int, py: int|
                0 <= px < width as int && 0 <= py < height as int ==> #[trigger] pix_at(
                    r.pixels(),
                    width as int,
                    px,
                    py,
                ) == T::fill_value(),
    {
        let bitmap = T::new(width as usize, height as usize);
        proof {
            assert forall|px: int, py: int|
                0 <= px < width as int && 0 <= py < height as int implies #[trigger] pix_at(
                bitmap.pixels(),
                width as int,
                px,
                py,
            ) == T::fill_value() by {
                lemma_row_major_index_in_range(width as int, height as int, px, py);
            }
        }
        Texture2D { bitmap, width, height }
    }

    /// Creates a new blank texture with the provided dimensions. Prior
    /// pixel contents are discarded, not copied: callers needing
    /// preservation must blit the old texture into the new one themselves.
    pub fn resize(&self, width: u32, height: u32) -> (r: Texture2D<T>)
        requires
            (width as int) * (height as int) <= usize::MAX as int,
        ensures
            r.wf(),
            r.spec_width() == width as int,
            r.spec_height() == height as int,
            r.pixels().len() == (width as int) * (height as int),
            forall|px: int, py: int|
                0 <= px < width as int && 0 <= py < height as int ==> #[trigger] pix_at(
                    r.pixels(),
                    width as int,
                    px,
                    py,
                ) == T::fill_value(),
    {
        Texture2D::new(width, height)
    }

    /// Reads the pixel at `(x, y)`, or `None` outside the texture's bounds.
    pub fn read_pixel(&self, x: u32, y: u32) -> (r: Option<T::Inner>)
        requires
            self.wf(),
        ensures
            r == (if (x as int) < self.spec_width() && (y as int) < self.spec_height() {
                Some(pix_at(self.pixels(), self.spec_width(), x as int, y as int))
            } else {
                None::<T::Inner>
            }),
    {
        self.bitmap.read(x as usize, y as usize)
    }

    /// Writes the pixel at `(x, y)`; silently does nothing outside the
    /// texture's bounds.
    pub fn write_pixel(&mut self, x: u32, y: u32, value: T::Inner)
        requires
            old(self).wf(),
        ensures
            final(self).wf(),
            final(self).spec_width() == old(self).spec_width(),
            final(self).spec_height() == old(self).spec_height(),
            final(self).pixels() == (if (x as int) < old(self).spec_width() && (y as int) < old(
                self,
            ).spec_height() {
                old(self).pixels().update((y as int) * old(self).spec_width() + x as int, value)
            } else {
                old(self).pixels()
            }),
    {
        proof {
            if (x as int) < self.spec_width() && (y as int) < self.spec_height() {
                lemma_row_major_index_in_range(
                    self.spec_width(),
                    self.spec_height(),
                    x as int,
                    y as int,
                );
            }
        }
        self.bitmap.write(x as usize, y as usize, value);
    }

    /// Blits one texture onto another: the source rectangle and the target
    /// rectangle are each clipped against their own bitmap's bounds, and the
    /// overlapped copy runs in lock-step from the two clipped origins. Out of
    /// range and negative rectangles are absorbed by the clipping; the
    /// destination is never written outside its true bounds.
    #[verifier::rlimit(100)]
    pub fn blit_to(&self, other: &mut Texture2D<T>, source_rect: Rect<isize>, target_rect: Rect<
        isize,
    >)
        requires
            self.wf(),
            old(other).wf(),
        ensures
            final(other).wf(),
            final(other).spec_width() == old(other).spec_width(),
            final(other).spec_height() == old(other).spec_height(),
            final(other).pixels().len() == old(other).pixels().len(),
            forall|px: int, py: int|
                0 <= px < old(other).spec_width() && 0 <= py < old(other).spec_height()
                    ==> #[trigger] pix_at(final(other).pixels(), old(other).spec_width(), px, py)
                    == blit_pix(
                    self.pixels(),
                    self.spec_width(),
                    self.spec_height(),
                    old(other).pixels(),
                    old(other).spec_width(),
                    old(other).spec_height(),
                    source_rect.model(),
                    target_rect.model(),
                    px,
                    py,
                ),
    {
        let ghost s = source_rect.model();
        let ghost t = target_rect.model();
        let ghost gsw = self.spec_width();
        let ghost gsh = self.spec_height();
        let ghost gdw = old(other).spec_width();
        let ghost gdh = old(other).spec_height();
        let ghost gsrc = self.pixels();
        let ghost golddst = old(other).pixels();

        let sw: i128 = self.width as i128;
        let sh: i128 = self.height as i128;
        let dw: i128 = other.width as i128;
        let dh: i128 = other.height as i128;

        let sx: i128 = source_rect.x as i128;
        let sy: i128 = source_rect.y as i128;
        let srw: i128 = source_rect.width as i128;
        let srh: i128 = source_rect.height as i128;
        let tx: i128 = target_rect.x as i128;
        let ty: i128 = target_rect.y as i128;
        let trw: i128 = target_rect.width as i128;
        let trh: i128 = target_rect.height as i128;

        // Account for spill in the source rectangle.
        let source_spill_x: i128 = if sx < 0 {
            -sx
        } else {
            0
        };
        let source_spill_y: i128 = if sy < 0 {
            -sy
        } else {
            0
        };
        let source_spill_x2: i128 = if sx + srw - sw > 0 {
            sx + srw - sw
        } else {
            0
        };
        let source_spill_y2: i128 = if sy + srh - sh > 0 {
            sy + srh - sh
        } else {
            0
        };
        let csx: i128 = if sx < 0 {
            0
        } else {
            sx
        };
        let csy: i128 = if sy < 0 {
            0
        } else {
            sy
        };
        let csw: i128 = srw - source_spill_x - source_spill_x2;
        let csh: i128 = srh - source_spill_y - source_spill_y2;

        // Account for spill in the target rectangle, independently.
        let target_spill_x: i128 = if tx < 0 {
            -tx
        } else {
            0
        };
        let target_spill_y: i128 = if ty < 0 {
            -ty
        } else {
            0
        };
        let target_spill_x2: i128 = if tx + trw - dw > 0 {
            tx + trw - dw
        } else {
            0
        };
        let target_spill_y2: i128 = if ty + trh - dh > 0 {
            ty + trh - dh
        } else {
            0
        };
        let ctx: i128 = if tx < 0 {
            0
        } else {
            tx
        };
        let cty: i128 = if ty < 0 {
            0
        } else {
            ty
        };
        let ctw: i128 = trw - target_spill_x - target_spill_x2;
        let cth: i128 = trh - target_spill_y - target_spill_y2;

        // Spill on either side independently shrinks the copy.
        let drawn_w: i128 = if csw < ctw {
            csw
        } else {
            ctw
        };
        let drawn_h: i128 = if csh < cth {
            csh
        } else {
            cth
        };
        let cols: i128 = if drawn_w > 0 {
            drawn_w
        } else {
            0
        };
        let rows: i128 = if drawn_h > 0 {
            drawn_h
        } else {
            0
        };

        proof {
            assert(csx as int == clipped_x(s));
            assert(csy as int == clipped_y(s));
            assert(csw as int == clipped_width(s, gsw));
            assert(csh as int == clipped_height(s, gsh));
            assert(ctx as int == clipped_x(t));
            assert(cty as int == clipped_y(t));
            assert(ctw as int == clipped_width(t, gdw));
            assert(cth as int == clipped_height(t, gdh));
            assert(drawn_w as int == drawn_width(s, gsw, t, gdw));
            assert(drawn_h as int == drawn_height(s, gsh, t, gdh));
            // The clipped regions lie within their bitmaps' bounds.
            assert(csx + csw <= sw);
            assert(csy + csh <= sh);
            assert(ctx + ctw <= dw);
            assert(cty + cth <= dh);
        }

        let mut dy: i128 = 0;
        while dy < rows
            invariant
                0 <= dy <= rows,
                other.wf(),
                other.spec_width() == gdw,
                other.spec_height() == gdh,
                other.pixels().len() == golddst.len(),
                self.wf(),
                self.spec_width() == gsw,
                self.spec_height() == gsh,
                self.pixels() == gsrc,
                golddst.len() == gdw * gdh,
                0 <= csx,
                0 <= csy,
                0 <= ctx,
                0 <= cty,
                0 <= cols,
                0 <= rows,
                0 < cols ==> csx + cols <= sw,
                0 < rows ==> csy + rows <= sh,
                0 < cols ==> ctx + cols <= dw,
                0 < rows ==> cty + rows <= dh,
                sw == gsw,
                sh == gsh,
                dw == gdw,
                dh == gdh,
                forall|px: int, py: int|
                    0 <= px < gdw && 0 <= py < gdh ==> #[trigger] pix_at(
                        other.pixels(),
                        gdw,
                        px,
                        py,
                    ) == (if cty as int <= py < cty as int + dy as int && ctx as int <= px < ctx
                        as int + cols as int {
                        pix_at(gsrc, gsw, csx as int + (px - ctx as int), csy as int + (py - cty
                            as int))
                    } else {
                        pix_at(golddst, gdw, px, py)
                    }),
            decreases rows - dy,
        {
            let mut dx: i128 = 0;
            while dx < cols
                invariant
                    0 <= dx <= cols,
                    0 <= dy < rows,
                    other.wf(),
                    other.spec_width() == gdw,
                    other.spec_height() == gdh,
                    other.pixels().len() == golddst.len(),
                    self.wf(),
                    self.spec_width() == gsw,
                    self.spec_height() == gsh,
                    self.pixels() == gsrc,
                    golddst.len() == gdw * gdh,
                    0 <= csx,
                    0 <= csy,
                    0 <= ctx,
                    0 <= cty,
                    0 <= cols,
                0 <= rows,
                0 < cols ==> csx + cols <= sw,
                    0 < rows ==> csy + rows <= sh,
                    0 < cols ==> ctx + cols <= dw,
                    0 < rows ==> cty + rows <= dh,
                    sw == gsw,
                    sh == gsh,
                    dw == gdw,
                    dh == gdh,
                    forall|px: int, py: int|
                        0 <= px < gdw && 0 <= py < gdh ==> #[trigger] pix_at(
                            other.pixels(),
                            gdw,
                            px,
                            py,
                        ) == (if (cty as int <= py < cty as int + dy as int && ctx as int <= px
                            < ctx as int + cols as int) || (py == cty as int + dy as int && ctx
                            as int <= px < ctx as int + dx as int) {
                            pix_at(gsrc, gsw, csx as int + (px - ctx as int), csy as int + (py
                                - cty as int))
                        } else {
                            pix_at(golddst, gdw, px, py)
                        }),
                decreases cols - dx,
            {
                let read_x: i128 = csx + dx;
                let read_y: i128 = csy + dy;
                let write_x: i128 = ctx + dx;
                let write_y: i128 = cty + dy;
                proof {
                    assert(usize::MAX >= u32::MAX);
                    assert(0 <= read_x < sw);
                    assert(0 <= read_y < sh);
                    assert(0 <= write_x < dw);
                    assert(0 <= write_y < dh);
                }
                if let Some(source_texel) = self.bitmap.read(read_x as usize, read_y as usize) {
                    let ghost before = other.pixels();
                    other.bitmap.write(write_x as usize, write_y as usize, source_texel);
                    proof {
                        lemma_row_major_index_in_range(gdw, gdh, write_x as int, write_y as int);
                        assert forall|px: int, py: int| 0 <= px < gdw && 0 <= py < gdh implies
                            #[trigger] pix_at(other.pixels(), gdw, px, py) == (if (cty as int
                                <= py < cty as int + dy as int && ctx as int <= px < ctx as int
                                + cols as int) || (py == cty as int + dy as int && ctx as int
                                <= px < ctx as int + dx as int + 1) {
                                pix_at(gsrc, gsw, csx as int + (px - ctx as int), csy as int + (
                                py - cty as int))
                            } else {
                                pix_at(golddst, gdw, px, py)
                            }) by {
                            lemma_row_major_index_in_range(gdw, gdh, px, py);
                            if px == write_x as int && py == write_y as int {
                            } else {
                                lemma_row_major_index_injective(
                                    gdw,
                                    px,
                                    py,
                                    write_x as int,
                                    write_y as int,
                                );
                                assert(pix_at(other.pixels(), gdw, px, py) == pix_at(
                                    before,
                                    gdw,
                                    px,
                                    py,
                                ));
                            }
                        }
                    }
                }
                dx = dx + 1;
            }
            dy = dy + 1;
        }
        proof {
            assert forall|px: int, py: int| 0 <= px < gdw && 0 <= py < gdh implies #[trigger]
                pix_at(other.pixels(), gdw, px, py) == blit_pix(
                gsrc,
                gsw,
                gsh,
                golddst,
                gdw,
                gdh,
                s,
                t,
                px,
                py,
            ) by {
            }
        }
    }
}

/// Clipping a rectangle against a bitmap's bounds never grows it; when the
/// clipped extents are positive, the clipped origin lies within the bounds
/// and the clipped span stays inside them.
pub proof fn lemma_clipped_rect_within_bounds(r: RectModel, w: int, h: int)
    requires
        w >= 0,
        h >= 0,
    ensures
        clipped_width(r, w) <= r.width,
        clipped_height(r, h) <= r.height,
        clipped_width(r, w) > 0 && clipped_height(r, h) > 0 ==> {
            &&& 0 <= clipped_x(r) < w
            &&& 0 <= clipped_y(r) < h
            &&& clipped_x(r) + clipped_width(r, w) <= w
            &&& clipped_y(r) + clipped_height(r, h) <= h
        },
{
}

/// Blitting a rectangle fully contained within both bitmaps copies every
/// pixel of the rectangle unchanged, each destination pixel of the target
/// rectangle receiving exactly the matching source pixel, and leaves every
/// destination pixel outside the target rectangle untouched.
pub proof fn lemma_contained_blit_copies_exactly<P>(
    src: Seq<P>,
    sw: int,
    sh: int,
    dst: Seq<P>,
    dw: int,
    dh: int,
    s: RectModel,
    t: RectModel,
)
    requires
        s.width == t.width,
        s.height == t.height,
        0 <= s.x,
        0 <= s.y,
        s.x + s.width <= sw,
        s.y + s.height <= sh,
        0 <= t.x,
        0 <= t.y,
        t.x + t.width <= dw,
        t.y + t.height <= dh,
    ensures
        forall|px: int, py: int|
            t.x <= px < t.x + t.width && t.y <= py < t.y + t.height ==> #[trigger] blit_pix(
                src,
                sw,
                sh,
                dst,
                dw,
                dh,
                s,
                t,
                px,
                py,
            ) == pix_at(src, sw, s.x + (px - t.x), s.y + (py - t.y)),
        forall|px: int, py: int|
            !(t.x <= px < t.x + t.width && t.y <= py < t.y + t.height) ==> #[trigger] blit_pix(
                src,
                sw,
                sh,
                dst,
                dw,
                dh,
                s,
                t,
                px,
                py,
            ) == pix_at(dst, dw, px, py),
{
}

/// Blitting a rectangle that lies entirely outside both bitmaps' bounds
/// copies zero pixels: every destination pixel keeps its prior value.
pub proof fn lemma_outside_blit_copies_nothing<P>(
    src: Seq<P>,
    sw: int,
    sh: int,
    dst: Seq<P>,
    dw: int,
    dh: int,
    s: RectModel,
    t: RectModel,
)
    requires
        sw >= 0,
        sh >= 0,
        dw >= 0,
        dh >= 0,
        s.x >= sw || s.x + s.width <= 0 || s.y >= sh || s.y + s.height <= 0,
        t.x >= dw || t.x + t.width <= 0 || t.y >= dh || t.y + t.height <= 0,
    ensures
        forall|px: int, py: int| #[trigger]
            blit_pix(src, sw, sh, dst, dw, dh, s, t, px, py) == pix_at(dst, dw, px, py),
{
    assert(drawn_width(s, sw, t, dw) <= 0 || drawn_height(s, sh, t, dh) <= 0);
}

/// A well-formed texture's pixel count fits the machine's address space.
pub proof fn lemma_texture_area_bounded<T: Bitmap>(t: Texture2D<T>)
    requires
        t.wf(),
    ensures
        t.spec_width() * t.spec_height() <= usize::MAX as int,
        t.spec_width() >= 0,
        t.spec_height() >= 0,
        t.pixels().len() == t.spec_width() * t.spec_height(),
{
}

/// An active window with a canvas.
pub struct Window {
    /// The title of the window.
    pub title: String,
    /// The canvas that the window will render.
    pub canvas: Texture2D<BitmapRGBA8>,
    /// The width of the inside of the window in pixels.
    pub width: u32,
    /// The height of the inside of the window in pixels.
    pub height: u32,
}

impl Window {
    /// The window's declared size agrees with its canvas's.
    pub open spec fn wf(&self) -> bool {
        &&& self.canvas.wf()
        &&& self.canvas.spec_width() == self.width as int
        &&& self.canvas.spec_height() == self.height as int
    }

    /// Creates a new window with a blank canvas of the given size.
    pub fn new(title: &str, width: u32, height: u32) -> (r: Window)
        requires
            (width as int) * (height as int) <= usize::MAX as int,
        ensures
            r.wf(),
            r.title@ == title@,
            r.width == width,
            r.height == height,
            forall|px: int, py: int|
                0 <= px < width as int && 0 <= py < height as int ==> #[trigger] pix_at(
                    r.canvas.pixels(),
                    width as int,
                    px,
                    py,
                ) == <BitmapRGBA8 as Bitmap>::fill_value(),
    {
        Window { title: String::from_str(title), canvas: Texture2D::new(width, height), width, height }
    }

    /// Resizes the window, along with its canvas. The canvas comes back
    /// blank: resizing discards the prior pixel contents.
    pub fn resize(&mut self, width: u32, height: u32)
        requires
            old(self).wf(),
            (width as int) * (height as int) <= usize::MAX as int,
        ensures
            final(self).wf(),
            final(self).title@ == old(self).title@,
            final(self).width == width,
            final(self).height == height,
            forall|px: int, py: int|
                0 <= px < width as int && 0 <= py < height as int ==> #[trigger] pix_at(
                    final(self).canvas.pixels(),
                    width as int,
                    px,
                    py,
                ) == <BitmapRGBA8 as Bitmap>::fill_value(),
    {
        self.width = width;
        self.height = height;
        self.canvas = self.canvas.resize(width, height);
    }
}

} // verus!
