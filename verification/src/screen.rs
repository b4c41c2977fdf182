//! The framebuffer compositors: the pixel-mode copy and the text-mode
//! glyph blit, as pure functions over byte buffers.
//!
//! The screen is 320 by 200 pixels of four bytes each.  In text mode a
//! 40-by-25 character buffer is composited through a glyph ROM of 256
//! eight-by-eight grayscale glyphs.

use vstd::prelude::*;

use crate::arch::FLAG_BIT_B;
use crate::arch::FLAG_BIT_SCREEN;

verus! {

/// Screen width in pixels.
pub const SCREEN_WIDTH: usize = 320;

/// Screen height in pixels.
pub const SCREEN_HEIGHT: usize = 200;

/// Text columns.
pub const TEXT_WIDTH: usize = 40;

/// Text rows.
pub const TEXT_HEIGHT: usize = 25;

/// Address of the first pixel framebuffer.
pub const SCREEN_BUFFER_1: u32 = 0x0000_0000;

/// Address of the second pixel framebuffer.
pub const SCREEN_BUFFER_2: u32 = 0x0003_E800;

/// Address of the first text buffer.
pub const TEXT_BUFFER_1: u32 = 0x0007_D000;

/// Address of the second text buffer.
pub const TEXT_BUFFER_2: u32 = 0x0007_D3E8;

/// Address of the glyph ROM.
pub const BITMAP: u32 = 0x0007_D800;

/// The grayscale level of screen pixel `pi` in text mode: the glyph of
/// the character under the pixel, sampled at the pixel's offset inside
/// its eight-by-eight cell.
pub open spec fn text_pixel(text: Seq<u8>, font: Seq<u8>, pi: int) -> u8 {
    let sy = pi / 320;
    let sx = pi % 320;
    let c = text[(sy / 8) * 40 + (sx / 8)];
    font[c * 64 + (sy % 8) * 8 + (sx % 8)]
}

/// Composites the text buffer through the glyph ROM into an RGBA pixel
/// buffer: each pixel carries its glyph's grayscale level in the three
/// color bytes and a solid alpha byte.
pub fn render_text(text: &Vec<u8>, font: &Vec<u8>, pix: &mut Vec<u8>)
    requires
        text@.len() == 1000,
        font@.len() == 16384,
        old(pix)@.len() == 256000,
    ensures
        final(pix)@.len() == 256000,
        forall|pi: int, k: int|
            0 <= pi < 64000 && 0 <= k < 4 ==> #[trigger] final(pix)@[pi * 4 + k] == (if k == 3 {
                255u8
            } else {
                text_pixel(text@, font@, pi)
            }),
{
    let mut pi: usize = 0;
    while pi < 64000
        invariant
            pi <= 64000,
            text@.len() == 1000,
            font@.len() == 16384,
            pix@.len() == 256000,
            forall|j: int, k: int|
                0 <= j < pi && 0 <= k < 4 ==> #[trigger] pix@[j * 4 + k] == (if k == 3 {
                    255u8
                } else {
                    text_pixel(text@, font@, j)
                }),
        decreases 64000 - pi,
    {
        let sy = pi / 320;
        let sx = pi % 320;
        let c = text[(sy / 8) * 40 + (sx / 8)] as usize;
        let l = font[c * 64 + (sy % 8) * 8 + (sx % 8)];
        pix[pi * 4] = l;
        pix[pi * 4 + 1] = l;
        pix[pi * 4 + 2] = l;
        pix[pi * 4 + 3] = 255;
        pi = pi + 1;
    }
}

/// Presents a pixel framebuffer directly: the output is the buffer,
/// byte for byte.
pub fn render_screen(buffer: &Vec<u8>, pix: &mut Vec<u8>)
    requires
        buffer@.len() == 256000,
        old(pix)@.len() == 256000,
    ensures
        final(pix)@ == buffer@,
{
    let mut i: usize = 0;
    while i < 256000
        invariant
            i <= 256000,
            buffer@.len() == 256000,
            pix@.len() == 256000,
            forall|j: int| 0 <= j < i ==> pix@[j] == buffer@[j],
        decreases 256000 - i,
    {
        pix[i] = buffer[i];
        i = i + 1;
    }
    proof {
        assert(pix@ =~= buffer@);
    }
}

/// Renders one frame: pixel mode presents the live framebuffer, text
/// mode composites the live text buffer; the buffer-select flag picks
/// which of each pair is live.
pub fn render(flags: u32, screen1: &Vec<u8>, screen2: &Vec<u8>, text1: &Vec<u8>, text2: &Vec<u8>, font: &Vec<u8>, pix: &mut Vec<u8>)
    requires
        screen1@.len() == 256000,
        screen2@.len() == 256000,
        text1@.len() == 1000,
        text2@.len() == 1000,
        font@.len() == 16384,
        old(pix)@.len() == 256000,
    ensures
        final(pix)@.len() == 256000,
        flags & FLAG_BIT_SCREEN != 0 ==> final(pix)@ == (if flags & FLAG_BIT_B != 0 {
            screen2@
        } else {
            screen1@
        }),
        flags & FLAG_BIT_SCREEN == 0 ==> (forall|pi: int, k: int|
            0 <= pi < 64000 && 0 <= k < 4 ==> #[trigger] final(pix)@[pi * 4 + k] == (if k == 3 {
                255u8
            } else {
                text_pixel(
                    if flags & FLAG_BIT_B != 0 {
                        text2@
                    } else {
                        text1@
                    },
                    font@,
                    pi,
                )
            })),
{
    if flags & FLAG_BIT_SCREEN != 0 {
        if flags & FLAG_BIT_B != 0 {
            render_screen(screen2, pix);
        } else {
            render_screen(screen1, pix);
        }
    } else {
        if flags & FLAG_BIT_B != 0 {
            render_text(text2, font, pix);
        } else {
            render_text(text1, font, pix);
        }
    }
}

} // verus!
