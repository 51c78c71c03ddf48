//! Tone decisions: which pages are turned gray, and how pixels are judged
//! by brightness and colour.
use vstd::prelude::*;
use crate::config::PartialGrayscaleMode;

verus! {

/// What the tone analysis found of a page.
#[derive(Debug, Clone, Copy, PartialEq, Eq, Structural)]
pub struct PageTone {
    /// Black-and-white body text, with no colour area worth keeping.
    pub monochrome: bool,
    /// Left alone: blank, or listed in the tone exclusions.
    pub excluded: bool,
}

impl Default for PageTone {
    fn default() -> (t: Self)
        ensures
            !t.monochrome && !t.excluded,
    {
        PageTone { monochrome: false, excluded: false }
    }
}

/// Whether a page is turned gray: never when excluded; otherwise as the
/// mode says (`auto` only for monochrome pages).
pub open spec fn applies_gray(mode: PartialGrayscaleMode, page: PageTone) -> bool {
    !page.excluded && match mode {
        PartialGrayscaleMode::Off => false,
        PartialGrayscaleMode::Auto => page.monochrome,
        PartialGrayscaleMode::Force => true,
    }
}

/// Whether a page is turned gray.
pub fn should_apply_gray(mode: PartialGrayscaleMode, page: PageTone) -> (r: bool)
    ensures
        r == applies_gray(mode, page),
{
    if page.excluded {
        return false;
    }
    match mode {
        PartialGrayscaleMode::Off => false,
        PartialGrayscaleMode::Auto => page.monochrome,
        PartialGrayscaleMode::Force => true,
    }
}

/// An excluded page is never turned gray, whatever the mode; with the mode
/// off no page is; forced, every page that is not excluded is.
pub proof fn lemma_gray_respects_exclusion(mode: PartialGrayscaleMode, page: PageTone)
    ensures
        page.excluded ==> !applies_gray(mode, page),
        mode == PartialGrayscaleMode::Off ==> !applies_gray(mode, page),
        mode == PartialGrayscaleMode::Force && !page.excluded ==> applies_gray(mode, page),
{
}

/// Integer luminance (BT.709 weights in 1/256 steps, rounded).
pub open spec fn luma(r: u8, g: u8, b: u8) -> nat {
    ((54 * r + 183 * g + 19 * b + 128) / 256) as nat
}

/// Integer luminance of an RGB pixel.
pub fn luminance(rgb: [u8; 3]) -> (l: u8)
    ensures
        l == luma(rgb@[0], rgb@[1], rgb@[2]),
{
    let sum: u32 = 54 * (rgb[0] as u32) + 183 * (rgb[1] as u32) + 19 * (rgb[2] as u32) + 128;
    assert(sum / 256 <= 255);
    (sum / 256) as u8
}

/// A pixel that counts as colour: not near paper white, with a channel
/// spread of at least 18 and at least 28/255 of its brightest channel.
pub open spec fn colored(r: u8, g: u8, b: u8) -> bool {
    let mx = if r >= g && r >= b {
        r
    } else if g >= b {
        g
    } else {
        b
    };
    let mn = if r <= g && r <= b {
        r
    } else if g <= b {
        g
    } else {
        b
    };
    let chroma = mx - mn;
    &&& luma(r, g, b) < 245
    &&& chroma >= 18
    &&& chroma * 255 >= (if mx >= 1 {
        mx
    } else {
        1
    }) * 28
}

/// Whether a pixel counts as colour.
pub fn is_colored(rgb: [u8; 3]) -> (c: bool)
    ensures
        c == colored(rgb@[0], rgb@[1], rgb@[2]),
{
    let (r, g, b) = (rgb[0], rgb[1], rgb[2]);
    let mx = if r >= g && r >= b {
        r
    } else if g >= b {
        g
    } else {
        b
    };
    let mn = if r <= g && r <= b {
        r
    } else if g <= b {
        g
    } else {
        b
    };
    let chroma = mx - mn;
    let l = luminance(rgb);
    let m: u32 = if mx >= 1 {
        mx as u32
    } else {
        1
    };
    l < 245 && chroma >= 18 && (chroma as u32) * 255 >= m * 28
}

} // verus!
