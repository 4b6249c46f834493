//! Monospace bitmap-font rendering: maps characters to fixed-size cells in
//! a 16-columns-per-row glyph atlas texture and stamps them into a
//! destination texture through the blit engine. The font holds only a
//! non-owning handle to its atlas and re-checks on every write that the
//! atlas still exists.

use vstd::prelude::*;
use vstd::arithmetic::mul::lemma_mul_inequality;

use crate::data_types::{Rect, RectModel};

use super::store::{TextureHandle, TextureStore};
use super::{
    blit_pix, clipped_x, clipped_y, drawn_height, drawn_width, in_drawn_region,
    lemma_texture_area_bounded, pix_at, Bitmap, BitmapRGBA8, Texture2D,
};

verus! {

/// Number of glyph cells per atlas row.
pub const CHAR_PITCH: usize = 16;

/// At font construction, the glyph grid was found wider than the atlas
/// texture: carries the required and the available width in texels.
#[derive(Clone, Copy, Debug, PartialEq, Eq, Structural)]
pub struct FontTextureMisfitError {
    /// Width in texels the 16-column glyph grid requires.
    pub contents: usize,
    /// Width in texels the atlas texture actually has.
    pub bounds: usize,
}

/// A failure of a font operation.
#[derive(Clone, Copy, Debug, PartialEq, Eq, Structural)]
pub enum FontError {
    /// The glyph-atlas texture was released by its owner.
    AtlasReleased,
    /// The glyph grid does not fit the atlas texture.
    TextureMisfit(FontTextureMisfitError),
}

/// The atlas cell for character `c`: cell `(col, row) = (code % 16,
/// code / 16)`, cell origin `(col * char_width, row * char_height)`.
pub open spec fn glyph_rect(c: char, char_width: int, char_height: int) -> RectModel {
    RectModel {
        x: ((c as u32) as int % 16) * char_width,
        y: ((c as u32) as int / 16) * char_height,
        width: char_width,
        height: char_height,
    }
}

/// The value of destination pixel `(px, py)` after writing `chars` left to
/// right starting at `(x, y)`: glyph `k` is blitted over what was there
/// before, with its atlas cell as source and a `char_width x char_height`
/// rectangle at `(x + k * char_width, y)` as target.
pub open spec fn string_blit_pix(
    atlas: Seq<u32>,
    aw: int,
    ah: int,
    base: Seq<u32>,
    dw: int,
    dh: int,
    chars: Seq<char>,
    char_width: int,
    char_height: int,
    x: int,
    y: int,
    px: int,
    py: int,
) -> u32
    decreases chars.len(),
{
    if chars.len() == 0 {
        pix_at(base, dw, px, py)
    } else {
        let k = chars.len() - 1;
        let s = glyph_rect(chars[k], char_width, char_height);
        let t = RectModel { x: x + k * char_width, y: y, width: char_width, height: char_height };
        if in_drawn_region(s, aw, ah, t, dw, dh, px, py) {
            pix_at(atlas, aw, clipped_x(s) + (px - clipped_x(t)), clipped_y(s) + (py - clipped_y(t)))
        } else {
            string_blit_pix(
                atlas,
                aw,
                ah,
                base,
                dw,
                dh,
                chars.drop_last(),
                char_width,
                char_height,
                x,
                y,
                px,
                py,
            )
        }
    }
}

/// A fixed-cell bitmap font drawing from a glyph atlas texture it does not
/// own.
#[derive(Debug)]
pub struct MonospaceFont {
    /// Non-owning reference to the glyph-atlas texture.
    texture: TextureHandle,
    /// Width of one glyph cell in texels.
    char_width: u16,
    /// Height of one glyph cell in texels.
    char_height: u16,
}

impl MonospaceFont {
    /// The handle of the glyph-atlas texture.
    pub closed spec fn spec_atlas(&self) -> TextureHandle {
        self.texture
    }

    /// Width of one glyph cell in texels.
    pub closed spec fn spec_char_width(&self) -> u16 {
        self.char_width
    }

    /// Height of one glyph cell in texels.
    pub closed spec fn spec_char_height(&self) -> u16 {
        self.char_height
    }

    /// While the atlas is live in `store`, the font's 16-column glyph grid
    /// fits the atlas's width. Construction establishes this; it stays true
    /// as long as the font is used with the store it was constructed
    /// against, since a store never alters a held texture.
    pub open spec fn fits(&self, store: &TextureStore<BitmapRGBA8>) -> bool {
        store.live(self.spec_atlas()) ==> (CHAR_PITCH as int) * (self.spec_char_width() as int)
            <= store.texture(self.spec_atlas()).spec_width()
    }

    /// Binds a font to a glyph atlas held in `store`, validating that the
    /// 16-column glyph grid fits within the atlas texture's width. Fails
    /// with `AtlasReleased` if the handle no longer resolves, and with
    /// `TextureMisfit` if the grid is too wide, reporting the exact
    /// required and available widths.
    pub fn new(
        store: &TextureStore<BitmapRGBA8>,
        texture_ref: TextureHandle,
        char_width: u16,
        char_height: u16,
    ) -> (r: Result<MonospaceFont, FontError>)
        requires
            store.wf(),
        ensures
            !store.live(texture_ref) ==> r == Err::<MonospaceFont, FontError>(
                FontError::AtlasReleased,
            ),
            store.live(texture_ref) && (CHAR_PITCH as int) * (char_width as int) > store.texture(
                texture_ref,
            ).spec_width() ==> r == Err::<MonospaceFont, FontError>(
                FontError::TextureMisfit(
                    (FontTextureMisfitError {
                        contents: (CHAR_PITCH * char_width as usize) as usize,
                        bounds: store.texture(texture_ref).spec_width() as usize,
                    }),
                ),
            ),
            store.live(texture_ref) && (CHAR_PITCH as int) * (char_width as int) <= store.texture(
                texture_ref,
            ).spec_width() ==> (r matches Ok(f) && f.spec_atlas() == texture_ref
                && f.spec_char_width() == char_width && f.spec_char_height() == char_height
                && f.fits(store)),
    {
        let texture = match store.get(texture_ref) {
            Some(t) => t,
            None => {
                return Err(FontError::AtlasReleased);
            },
        };
        let font_required_width: usize = char_width as usize * CHAR_PITCH;
        if font_required_width > texture.width as usize {
            return Err(
                FontError::TextureMisfit(
                    FontTextureMisfitError {
                        contents: font_required_width,
                        bounds: texture.width as usize,
                    },
                ),
            );
        }
        Ok(MonospaceFont { texture: texture_ref, char_width, char_height })
    }

    /// The atlas cell rectangle for `c`.
    fn get_char_texture_position(&self, c: char) -> (r: Rect<u32>)
        requires
            ((c as u32) as int / 16) * (self.spec_char_height() as int) <= u32::MAX as int,
        ensures
            r.x as int == glyph_rect(
                c,
                self.spec_char_width() as int,
                self.spec_char_height() as int,
            ).x,
            r.y as int == glyph_rect(
                c,
                self.spec_char_width() as int,
                self.spec_char_height() as int,
            ).y,
            r.width == self.spec_char_width() as u32,
            r.height == self.spec_char_height() as u32,
    {
        let code: u32 = c as u32;
        proof {
            assert(((code % 16) as int) * (self.char_width as int) <= 15 * 65535) by {
                lemma_mul_inequality((code % 16) as int, 15, self.char_width as int);
                lemma_mul_inequality(self.char_width as int, 65535, 15);
            }
        }
        let x: u32 = (code % 16) * self.char_width as u32;
        let y: u32 = (code / 16) * self.char_height as u32;
        Rect::new(x, y, self.char_width as u32, self.char_height as u32)
    }

    /// Stamps `c` into `texture` at `(x, y)`: blits the glyph's atlas cell
    /// onto a `char_width x char_height` rectangle at `(x, y)`. Fails with
    /// `AtlasReleased`, writing nothing, if the atlas no longer exists.
    pub fn write_char(
        &self,
        store: &TextureStore<BitmapRGBA8>,
        c: char,
        texture: &mut Texture2D<BitmapRGBA8>,
        x: isize,
        y: isize,
    ) -> (r: Result<(), FontError>)
        requires
            store.wf(),
            old(texture).wf(),
            self.fits(store),
        ensures
            final(texture).wf(),
            final(texture).spec_width() == old(texture).spec_width(),
            final(texture).spec_height() == old(texture).spec_height(),
            !store.live(self.spec_atlas()) ==> r == Err::<(), FontError>(FontError::AtlasReleased)
                && *final(texture) == *old(texture),
            store.live(self.spec_atlas()) ==> r == Ok::<(), FontError>(()) && forall|
                px: int,
                py: int,
            |
                0 <= px < old(texture).spec_width() && 0 <= py < old(texture).spec_height()
                    ==> #[trigger] pix_at(final(texture).pixels(), old(texture).spec_width(), px, py)
                    == blit_pix(
                    store.texture(self.spec_atlas()).pixels(),
                    store.texture(self.spec_atlas()).spec_width(),
                    store.texture(self.spec_atlas()).spec_height(),
                    old(texture).pixels(),
                    old(texture).spec_width(),
                    old(texture).spec_height(),
                    glyph_rect(c, self.spec_char_width() as int, self.spec_char_height() as int),
                    (RectModel {
                        x: x as int,
                        y: y as int,
                        width: self.spec_char_width() as int,
                        height: self.spec_char_height() as int,
                    }),
                    px,
                    py,
                ),
    {
        let font_texture = match store.get(self.texture) {
            Some(t) => t,
            None => {
                return Err(FontError::AtlasReleased);
            },
        };
        let ghost s = glyph_rect(c, self.spec_char_width() as int, self.spec_char_height() as int);
        let ghost t = RectModel {
            x: x as int,
            y: y as int,
            width: self.spec_char_width() as int,
            height: self.spec_char_height() as int,
        };
        let ghost aw = font_texture.spec_width();
        let ghost ah = font_texture.spec_height();

        let target_rect = Rect::new(x, y, self.char_width as isize, self.char_height as isize);
        let code: u32 = c as u32;
        let row: u32 = code / 16;
        proof {
            lemma_mul_inequality(self.char_height as int, 65535, row as int);
        }
        let glyph_top: u64 = (row as u64) * (self.char_height as u64);
        if self.char_width == 0 || self.char_height == 0 || glyph_top >= font_texture.height as u64 {
            // The glyph cell is degenerate or lies wholly below the atlas:
            // clipping leaves nothing to copy, so the blit is skipped.
            proof {
                assert(drawn_width(s, aw, t, old(texture).spec_width()) <= 0 || drawn_height(
                    s,
                    ah,
                    t,
                    old(texture).spec_height(),
                ) <= 0);
            }
            return Ok(());
        }
        proof {
            // The glyph's top row fits a signed machine word: the grid fits
            // the atlas, so the atlas is at least 16 texels wide, and its
            // pixel count fits the address space.
            lemma_texture_area_bounded(*font_texture);
            lemma_mul_inequality(16, aw, ah);
            assert(glyph_top as int <= isize::MAX as int);
        }
        let char_position = self.get_char_texture_position(c);
        proof {
            lemma_mul_inequality(((code % 16) as int), 15, self.char_width as int);
            lemma_mul_inequality(self.char_width as int, 65535, 15);
            assert(char_position.x as int <= 15 * 65535);
            assert(char_position.y as int == glyph_top as int);
            assert(char_position.y as int <= isize::MAX as int);
        }
        let char_rect = Rect::new(
            char_position.x as isize,
            char_position.y as isize,
            char_position.width as isize,
            char_position.height as isize,
        );
        proof {
            assert(char_rect.model() == s);
            assert(target_rect.model() == t);
        }
        font_texture.blit_to(texture, char_rect, target_rect);
        Ok(())
    }

    /// Writes `string` left to right: glyph `i` lands at
    /// `(x + i * char_width, y)`, each via its own blit of the glyph's atlas
    /// cell. Stops at the first failure (atlas released); characters already
    /// written remain in the destination.
    #[verifier::loop_isolation(false)]
    pub fn write_string(
        &self,
        store: &TextureStore<BitmapRGBA8>,
        string: &str,
        texture: &mut Texture2D<BitmapRGBA8>,
        x: isize,
        y: isize,
    ) -> (r: Result<(), FontError>)
        requires
            store.wf(),
            old(texture).wf(),
            self.fits(store),
            x + string@.len() * (self.spec_char_width() as int) <= isize::MAX,
        ensures
            final(texture).wf(),
            final(texture).spec_width() == old(texture).spec_width(),
            final(texture).spec_height() == old(texture).spec_height(),
            !store.live(self.spec_atlas()) && string@.len() > 0 ==> r == Err::<(), FontError>(
                FontError::AtlasReleased,
            ) && *final(texture) == *old(texture),
            string@.len() == 0 ==> r == Ok::<(), FontError>(()) && *final(texture) == *old(texture),
            store.live(self.spec_atlas()) ==> r == Ok::<(), FontError>(()) && forall|
                px: int,
                py: int,
            |
                0 <= px < old(texture).spec_width() && 0 <= py < old(texture).spec_height()
                    ==> #[trigger] pix_at(final(texture).pixels(), old(texture).spec_width(), px, py)
                    == string_blit_pix(
                    store.texture(self.spec_atlas()).pixels(),
                    store.texture(self.spec_atlas()).spec_width(),
                    store.texture(self.spec_atlas()).spec_height(),
                    old(texture).pixels(),
                    old(texture).spec_width(),
                    old(texture).spec_height(),
                    string@,
                    self.spec_char_width() as int,
                    self.spec_char_height() as int,
                    x as int,
                    y as int,
                    px,
                    py,
                ),
    {
        let ghost atl = store.texture(self.spec_atlas()).pixels();
        let ghost aw = store.texture(self.spec_atlas()).spec_width();
        let ghost ah = store.texture(self.spec_atlas()).spec_height();
        let ghost base = old(texture).pixels();
        let ghost dw = old(texture).spec_width();
        let ghost dh = old(texture).spec_height();
        let ghost cw = self.spec_char_width() as int;
        let ghost ch = self.spec_char_height() as int;

        let len: usize = string.unicode_len();
        let mut i: usize = 0;
        while i < len
            invariant
                0 <= i <= len,
                texture.wf(),
                texture.spec_width() == dw,
                texture.spec_height() == dh,
                !store.live(self.spec_atlas()) ==> i == 0,
                i == 0 ==> *texture == *old(texture),
                store.live(self.spec_atlas()) ==> forall|px: int, py: int|
                    0 <= px < dw && 0 <= py < dh ==> #[trigger] pix_at(texture.pixels(), dw, px, py)
                        == string_blit_pix(
                        atl,
                        aw,
                        ah,
                        base,
                        dw,
                        dh,
                        string@.take(i as int),
                        cw,
                        ch,
                        x as int,
                        y as int,
                        px,
                        py,
                    ),
            decreases len - i,
        {
            let c = string.get_char(i);
            proof {
                lemma_mul_inequality(i as int, len as int, cw);
                lemma_mul_inequality(0, i as int, cw);
            }
            let glyph_x: i128 = (x as i128) + (i as i128) * (self.char_width as i128);
            let ghost before = texture.pixels();
            match self.write_char(store, c, texture, glyph_x as isize, y) {
                Ok(()) => {},
                Err(e) => {
                    return Err(e);
                },
            }
            proof {
                let cs1 = string@.take(i as int + 1);
                assert(cs1.drop_last() =~= string@.take(i as int));
                assert(cs1[cs1.len() - 1] == string@[i as int]);
                let s = glyph_rect(c, cw, ch);
                let t = RectModel { x: x as int + (i as int) * cw, y: y as int, width: cw, height: ch };
                assert forall|px: int, py: int| 0 <= px < dw && 0 <= py < dh implies #[trigger]
                    pix_at(texture.pixels(), dw, px, py) == string_blit_pix(
                    atl,
                    aw,
                    ah,
                    base,
                    dw,
                    dh,
                    cs1,
                    cw,
                    ch,
                    x as int,
                    y as int,
                    px,
                    py,
                ) by {
                    assert(pix_at(texture.pixels(), dw, px, py) == blit_pix(
                        atl,
                        aw,
                        ah,
                        before,
                        dw,
                        dh,
                        s,
                        t,
                        px,
                        py,
                    ));
                }
            }
            i = i + 1;
        }
        proof {
            assert(string@.take(len as int) =~= string@);
        }
        Ok(())
    }
}

} // verus!
