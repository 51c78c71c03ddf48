//! Pixel filters on 8-bit RGB images: the 3x3 minimum blend that thickens
//! strokes, and the black-ink colour-fringe neutralisation.
use vstd::prelude::*;

verus! {

/// An 8-bit RGB image, rows top to bottom, three bytes per pixel.
#[derive(Debug, Clone)]
pub struct RgbBuffer {
    pub width: u32,
    pub height: u32,
    pub data: Vec<u8>,
}

/// Position of channel `c` of pixel `(x, y)` in a row-major RGB buffer.
pub open spec fn offset(w: int, x: int, y: int, c: int) -> int {
    (y * w + x) * 3 + c
}

impl RgbBuffer {
    /// The buffer holds exactly `width * height` pixels.
    pub open spec fn wf(self) -> bool {
        self.data@.len() == self.width as int * self.height as int * 3
    }

    /// Channel `c` of pixel `(x, y)`.
    pub open spec fn at(self, x: int, y: int, c: int) -> u8 {
        self.data@[offset(self.width as int, x, y, c)]
    }
}

pub proof fn lemma_offset_bounds(w: int, h: int, x: int, y: int, c: int)
    requires
        0 <= x < w,
        0 <= y < h,
        0 <= c < 3,
    ensures
        0 <= y * w <= y * w + x,
        (y * w + x) * 3 == offset(w, x, y, 0),
        0 <= offset(w, x, y, c) < w * h * 3,
        offset(w, x, y, c) == offset(w, x, y, 0) + c,
        offset(w, x + 1, y, 0) == offset(w, x, y, 0) + 3,
        x + 1 == w ==> offset(w, 0, y + 1, 0) == offset(w, x, y, 0) + 3,
{
    assert(0 <= y * w) by (nonlinear_arith)
        requires
            0 <= x < w,
            0 <= y < h,
    ;
    assert(0 <= offset(w, x, y, c) < w * h * 3) by (nonlinear_arith)
        requires
            0 <= x < w,
            0 <= y < h,
            0 <= c < 3,
    ;
    assert(x + 1 == w ==> offset(w, 0, y + 1, 0) == offset(w, x, y, 0) + 3) by (nonlinear_arith);
}

pub open spec fn min_u8(a: u8, b: u8) -> u8 {
    if a <= b {
        a
    } else {
        b
    }
}

/// Leftmost column of the 3x3 window around column `x`.
pub open spec fn lo(x: int) -> int {
    if x > 0 {
        x - 1
    } else {
        0
    }
}

/// Rightmost column (or row) of the window, clipped to `n` columns.
pub open spec fn hi(x: int, n: int) -> int {
    if x + 1 < n {
        x + 1
    } else {
        n - 1
    }
}

/// Minimum of channel `c` over columns `a..=b` of row `y`.
pub open spec fn min_cols(img: RgbBuffer, y: int, a: int, b: int, c: int) -> u8
    decreases b - a,
{
    if b <= a {
        img.at(a, y, c)
    } else {
        min_u8(min_cols(img, y, a, b - 1, c), img.at(b, y, c))
    }
}

/// Minimum of channel `c` over rows `a..=b`, columns `x0..=x1`.
pub open spec fn min_rows(img: RgbBuffer, a: int, b: int, x0: int, x1: int, c: int) -> u8
    decreases b - a,
{
    if b <= a {
        min_cols(img, a, x0, x1, c)
    } else {
        min_u8(min_rows(img, a, b - 1, x0, x1, c), min_cols(img, b, x0, x1, c))
    }
}

/// Minimum of channel `c` over the 3x3 neighbourhood of `(x, y)`, clipped to
/// the image.
pub open spec fn window_min(img: RgbBuffer, x: int, y: int, c: int) -> u8 {
    min_rows(
        img,
        lo(y),
        hi(y, img.height as int),
        lo(x),
        hi(x, img.width as int),
        c,
    )
}

/// `strength` percent of the neighbourhood minimum, the rest the original,
/// rounded to nearest.
pub open spec fn blend_min(original: u8, minimum: u8, strength: u8) -> u8 {
    let s = if strength <= 100 {
        strength as int
    } else {
        100
    };
    ((original as int * (100 - s) + minimum as int * s + 50) / 100) as u8
}

proof fn lemma_min_cols_le(img: RgbBuffer, y: int, a: int, b: int, c: int, x: int)
    requires
        a <= x <= b,
    ensures
        min_cols(img, y, a, b, c) <= img.at(x, y, c),
    decreases b - a,
{
    if b > a && x < b {
        lemma_min_cols_le(img, y, a, b - 1, c, x);
    }
}

proof fn lemma_min_rows_le(img: RgbBuffer, a: int, b: int, x0: int, x1: int, c: int, x: int, y: int)
    requires
        a <= y <= b,
        x0 <= x <= x1,
    ensures
        min_rows(img, a, b, x0, x1, c) <= img.at(x, y, c),
    decreases b - a,
{
    if b > a && y < b {
        lemma_min_rows_le(img, a, b - 1, x0, x1, c, x, y);
    } else {
        lemma_min_cols_le(img, y, x0, x1, c, x);
    }
}

/// The stroke filter never brightens: each channel of each pixel of
/// `minimum_blend`'s output is at most the same channel of its input.
pub proof fn lemma_minimum_blend_never_brightens(img: RgbBuffer, x: int, y: int, c: int, strength: u8)
    requires
        0 <= x < img.width,
        0 <= y < img.height,
    ensures
        blend_min(img.at(x, y, c), window_min(img, x, y, c), strength) <= img.at(x, y, c),
{
    lemma_min_rows_le(img, lo(y), hi(y, img.height as int), lo(x), hi(x, img.width as int), c, x, y);
    let o = img.at(x, y, c) as int;
    let m = window_min(img, x, y, c) as int;
    let s: int = if strength <= 100 {
        strength as int
    } else {
        100
    };
    assert(o * (100 - s) + m * s + 50 <= o * 100 + 50) by (nonlinear_arith)
        requires
            0 <= m <= o,
            0 <= s <= 100,
    ;
    assert(0 <= o * (100 - s) + m * s + 50) by (nonlinear_arith)
        requires
            0 <= m <= o,
            0 <= s <= 100,
    ;
    assert((o * (100 - s) + m * s + 50) / 100 <= o) by (nonlinear_arith)
        requires
            o * (100 - s) + m * s + 50 <= o * 100 + 50,
            0 <= o,
            0 <= o * (100 - s) + m * s + 50,
    ;
}

/// The stroke blend lies between the neighbourhood minimum and the
/// original value: strength 0 keeps the original, strength 100 (or more)
/// gives the minimum itself.
pub proof fn lemma_blend_min_between(original: u8, minimum: u8, strength: u8)
    requires
        minimum <= original,
    ensures
        minimum <= blend_min(original, minimum, strength) <= original,
        strength == 0 ==> blend_min(original, minimum, strength) == original,
        strength >= 100 ==> blend_min(original, minimum, strength) == minimum,
{
    let o = original as int;
    let m = minimum as int;
    let s: int = if strength <= 100 {
        strength as int
    } else {
        100
    };
    let t = o * (100 - s) + m * s + 50;
    assert(m * 100 + 50 <= t <= o * 100 + 50) by (nonlinear_arith)
        requires
            0 <= m <= o,
            0 <= s <= 100,
            t == o * (100 - s) + m * s + 50,
    ;
    assert(m <= t / 100 <= o) by (nonlinear_arith)
        requires
            m * 100 + 50 <= t <= o * 100 + 50,
            0 <= m,
    ;
    if s == 0 {
        assert(t == o * 100 + 50);
        assert(t / 100 == o);
    }
    if s == 100 {
        assert(t == m * 100 + 50) by (nonlinear_arith)
            requires
                s == 100,
                t == o * (100 - s) + m * s + 50,
        ;
        assert(t / 100 == m);
    }
}

/// `(x2, y2)` is a pixel of the image within one step of `(x, y)` in each
/// direction: columns `x - 1 ..= x + 1`, rows `y - 1 ..= y + 1`.
pub open spec fn in_neighbourhood(img: RgbBuffer, x: int, y: int, x2: int, y2: int) -> bool {
    &&& 0 <= x2 < img.width
    &&& 0 <= y2 < img.height
    &&& x - 1 <= x2 <= x + 1
    &&& y - 1 <= y2 <= y + 1
}

proof fn lemma_min_cols_attained(img: RgbBuffer, y: int, a: int, b: int, c: int) -> (x: int)
    requires
        a <= b,
    ensures
        a <= x <= b,
        min_cols(img, y, a, b, c) == img.at(x, y, c),
    decreases b - a,
{
    if b <= a {
        a
    } else {
        let x0 = lemma_min_cols_attained(img, y, a, b - 1, c);
        if min_cols(img, y, a, b - 1, c) <= img.at(b, y, c) {
            x0
        } else {
            b
        }
    }
}

proof fn lemma_min_rows_attained(img: RgbBuffer, a: int, b: int, x0: int, x1: int, c: int) -> (r: (
    int,
    int,
))
    requires
        a <= b,
        x0 <= x1,
    ensures
        x0 <= r.0 <= x1,
        a <= r.1 <= b,
        min_rows(img, a, b, x0, x1, c) == img.at(r.0, r.1, c),
    decreases b - a,
{
    if b <= a {
        (lemma_min_cols_attained(img, a, x0, x1, c), a)
    } else {
        let r0 = lemma_min_rows_attained(img, a, b - 1, x0, x1, c);
        if min_rows(img, a, b - 1, x0, x1, c) <= min_cols(img, b, x0, x1, c) {
            r0
        } else {
            (lemma_min_cols_attained(img, b, x0, x1, c), b)
        }
    }
}

/// The minimum that `minimum_blend` blends with is the darkest value of the
/// whole clipped 3x3 neighbourhood: it is at most every neighbour's value, on
/// the left and above as much as on the right and below, and some neighbour
/// has it.
pub proof fn lemma_window_min_is_neighbourhood_minimum(img: RgbBuffer, x: int, y: int, c: int)
    requires
        0 <= x < img.width,
        0 <= y < img.height,
        0 <= c < 3,
    ensures
        forall|x2: int, y2: int|
            in_neighbourhood(img, x, y, x2, y2) ==> window_min(img, x, y, c) <= #[trigger] img.at(
                x2,
                y2,
                c,
            ),
        exists|x2: int, y2: int|
            in_neighbourhood(img, x, y, x2, y2) && window_min(img, x, y, c) == #[trigger] img.at(
                x2,
                y2,
                c,
            ),
{
    let w = img.width as int;
    let h = img.height as int;
    assert forall|x2: int, y2: int| in_neighbourhood(img, x, y, x2, y2) implies window_min(
        img,
        x,
        y,
        c,
    ) <= #[trigger] img.at(x2, y2, c) by {
        lemma_min_rows_le(img, lo(y), hi(y, h), lo(x), hi(x, w), c, x2, y2);
    }
    let r = lemma_min_rows_attained(img, lo(y), hi(y, h), lo(x), hi(x, w), c);
    assert(in_neighbourhood(img, x, y, r.0, r.1));
}

fn copy_image(src: &RgbBuffer) -> (r: RgbBuffer)
    ensures
        r.width == src.width,
        r.height == src.height,
        r.data@ == src.data@,
{
    let data = src.data.clone();
    assert(data@ =~= src.data@);
    RgbBuffer { width: src.width, height: src.height, data }
}

fn min_cols_exec(src: &RgbBuffer, y: usize, a: usize, b: usize, c: usize) -> (m: u8)
    requires
        src.wf(),
        a <= b < src.width,
        y < src.height,
        c < 3,
    ensures
        m == min_cols(*src, y as int, a as int, b as int, c as int),
{
    let w = src.width as usize;
    let h = src.height as usize;
    proof {
        lemma_offset_bounds(w as int, h as int, a as int, y as int, c as int);
    }
    let total = src.data.len();
    let mut m = src.data[(y * w + a) * 3 + c];
    let mut x = a;
    while x < b
        invariant
            src.wf(),
            total as int == src.data@.len(),
            w == src.width,
            h == src.height,
            a <= x <= b < w,
            y < h,
            c < 3,
            m == min_cols(*src, y as int, a as int, x as int, c as int),
        decreases b - x,
    {
        x = x + 1;
        proof {
            lemma_offset_bounds(w as int, h as int, x as int, y as int, c as int);
        }
        let v = src.data[(y * w + x) * 3 + c];
        if v < m {
            m = v;
        }
    }
    m
}

fn window_min_exec(src: &RgbBuffer, x: usize, y: usize, c: usize) -> (m: u8)
    requires
        src.wf(),
        x < src.width,
        y < src.height,
        c < 3,
    ensures
        m == window_min(*src, x as int, y as int, c as int),
{
    let w = src.width as usize;
    let h = src.height as usize;
    let x0 = if x > 0 {
        x - 1
    } else {
        0
    };
    let x1 = if x + 1 < w {
        x + 1
    } else {
        w - 1
    };
    let y0 = if y > 0 {
        y - 1
    } else {
        0
    };
    let y1 = if y + 1 < h {
        y + 1
    } else {
        h - 1
    };
    let mut m = min_cols_exec(src, y0, x0, x1, c);
    let mut r = y0;
    while r < y1
        invariant
            src.wf(),
            w == src.width,
            h == src.height,
            x0 <= x1 < w,
            y0 <= r <= y1 < h,
            c < 3,
            m == min_rows(*src, y0 as int, r as int, x0 as int, x1 as int, c as int),
        decreases y1 - r,
    {
        r = r + 1;
        let v = min_cols_exec(src, r, x0, x1, c);
        if v < m {
            m = v;
        }
    }
    m
}

/// Blends each pixel with the minimum of its 3x3 neighbourhood (`strength`
/// percent, capped at 100), which thickens dark strokes; strength 0 and empty
/// images are returned unchanged.
pub fn minimum_blend(source: &RgbBuffer, strength: u8) -> (r: RgbBuffer)
    requires
        source.wf(),
    ensures
        r.wf(),
        r.width == source.width,
        r.height == source.height,
        (source.width == 0 || source.height == 0 || strength == 0) ==> r.data@ == source.data@,
        forall|x: int, y: int, c: int|
            0 <= x < source.width && 0 <= y < source.height && 0 <= c < 3 ==> #[trigger] r.at(
                x,
                y,
                c,
            ) == blend_min(source.at(x, y, c), window_min(*source, x, y, c), strength),
{
    let w = source.width as usize;
    let h = source.height as usize;
    if w == 0 || h == 0 || strength == 0 {
        let r = copy_image(source);
        assert forall|x: int, y: int, c: int|
            0 <= x < source.width && 0 <= y < source.height && 0 <= c < 3 implies #[trigger] r.at(
                x,
                y,
                c,
            ) == blend_min(source.at(x, y, c), window_min(*source, x, y, c), strength) by {
            let o = source.at(x, y, c) as int;
            let m = window_min(*source, x, y, c) as int;
            assert((o * 100 + m * 0 + 50) / 100 == o) by (nonlinear_arith)
                requires
                    0 <= o < 256,
            ;
        }
        return r;
    }
    let s: u32 = if strength <= 100 {
        strength as u32
    } else {
        100
    };
    let total = source.data.len();
    assert(total as int == w as int * h as int * 3);
    let mut out: Vec<u8> = Vec::new();
    let mut y: usize = 0;
    while y < h
        invariant
            source.wf(),
            w == source.width,
            h == source.height,
            total as int == w as int * h as int * 3,
            w > 0,
            s as int == (if strength <= 100 {
                strength as int
            } else {
                100
            }),
            y <= h,
            out@.len() == offset(w as int, 0, y as int, 0),
            forall|xx: int, yy: int, cc: int|
                0 <= xx < w && 0 <= yy < y && 0 <= cc < 3 ==> #[trigger] out@[offset(
                    w as int,
                    xx,
                    yy,
                    cc,
                )] == blend_min(source.at(xx, yy, cc), window_min(*source, xx, yy, cc), strength),
        decreases h - y,
    {
        let mut x: usize = 0;
        while x < w
            invariant
                source.wf(),
                w == source.width,
                h == source.height,
                total as int == w as int * h as int * 3,
                w > 0,
                s as int == (if strength <= 100 {
                    strength as int
                } else {
                    100
                }),
                y < h,
                x <= w,
                out@.len() == offset(w as int, x as int, y as int, 0),
                forall|xx: int, yy: int, cc: int|
                    0 <= xx < w && 0 <= cc < 3 && (0 <= yy < y || (yy == y && xx < x))
                        ==> #[trigger] out@[offset(w as int, xx, yy, cc)] == blend_min(
                        source.at(xx, yy, cc),
                        window_min(*source, xx, yy, cc),
                        strength,
                    ),
            decreases w - x,
        {
            proof {
                lemma_offset_bounds(w as int, h as int, x as int, y as int, 0);
                lemma_offset_bounds(w as int, h as int, x as int, y as int, 2);
            }
            let base = (y * w + x) * 3;
            let mut c: usize = 0;
            while c < 3
                invariant
                    source.wf(),
                    w == source.width,
                    h == source.height,
                    x < w,
                    y < h,
                    base == offset(w as int, x as int, y as int, 0),
                    base + 2 < source.data@.len(),
                    total as int == source.data@.len(),
                    s as int == (if strength <= 100 {
                        strength as int
                    } else {
                        100
                    }),
                    c <= 3,
                    out@.len() == base + c,
                    forall|xx: int, yy: int, cc: int|
                        0 <= xx < w && 0 <= cc < 3 && ((0 <= yy < y || (yy == y && xx < x)) || (
                        yy == y && xx == x && cc < c)) ==> #[trigger] out@[offset(
                            w as int,
                            xx,
                            yy,
                            cc,
                        )] == blend_min(
                            source.at(xx, yy, cc),
                            window_min(*source, xx, yy, cc),
                            strength,
                        ),
                decreases 3 - c,
            {
                let o = source.data[base + c];
                let m = window_min_exec(source, x, y, c);
                assert(o as u32 * (100 - s) + m as u32 * s + 50 <= 25550) by (nonlinear_arith)
                    requires
                        s <= 100,
                ;
                let v = ((o as u32) * (100 - s) + (m as u32) * s + 50) / 100;
                assert(v < 256);
                let ghost before = out@;
                out.push(v as u8);
                proof {
                    lemma_offset_bounds(w as int, h as int, x as int, y as int, c as int);
                    assert(source.at(x as int, y as int, c as int) == o);
                    assert forall|xx: int, yy: int, cc: int|
                        0 <= xx < w && 0 <= cc < 3 && ((0 <= yy < y || (yy == y && xx < x)) || (
                        yy == y && xx == x && cc < c + 1)) implies #[trigger] out@[offset(
                            w as int,
                            xx,
                            yy,
                            cc,
                        )] == blend_min(
                            source.at(xx, yy, cc),
                            window_min(*source, xx, yy, cc),
                            strength,
                        ) by {
                        if yy == y && xx == x && cc == c {
                        } else {
                            if yy < y {
                                lemma_offset_bounds(w as int, y as int, xx, yy, cc);
                            } else {
                                lemma_offset_bounds(w as int, y as int + 1, xx, yy, cc);
                            }
                            assert(offset(w as int, xx, yy, cc) < base + c) by (nonlinear_arith)
                                requires
                                    base == offset(w as int, x as int, y as int, 0),
                                    0 <= xx < w,
                                    0 <= cc < 3,
                                    (0 <= yy < y || (yy == y && xx < x)) || (yy == y && xx == x
                                        && cc < c),
                            ;
                            assert(out@[offset(w as int, xx, yy, cc)] == before[offset(
                                w as int,
                                xx,
                                yy,
                                cc,
                            )]);
                        }
                    }
                }
                c = c + 1;
            }
            proof {
                lemma_offset_bounds(w as int, h as int, x as int, y as int, 0);
            }
            x = x + 1;
        }
        proof {
            lemma_offset_bounds(w as int, h as int, (w - 1) as int, y as int, 0);
        }
        y = y + 1;
    }
    proof {
        assert(offset(w as int, 0, h as int, 0) == w * h * 3) by (nonlinear_arith);
    }
    RgbBuffer { width: source.width, height: source.height, data: out }
}

// ---------------------------------------------------------------------
// Black-ink fringe neutralisation

impl RgbBuffer {
    /// Channel `c` of the pixel at row-major position `p`.
    pub open spec fn chan(self, p: int, c: int) -> u8 {
        self.data@[p * 3 + c]
    }

    pub open spec fn pixel_count(self) -> int {
        self.width as int * self.height as int
    }
}

/// Rounded BT.709-like luma in 1/256 steps, as the ink filter measures it.
pub open spec fn ink_lum(r: u8, g: u8, b: u8) -> u8 {
    ((54 * r as int + 183 * g as int + 19 * b as int + 128) / 256) as u8
}

pub open spec fn max3(a: u8, b: u8, c: u8) -> u8 {
    if a >= b && a >= c {
        a
    } else if b >= c {
        b
    } else {
        c
    }
}

pub open spec fn min3(a: u8, b: u8, c: u8) -> u8 {
    if a <= b && a <= c {
        a
    } else if b <= c {
        b
    } else {
        c
    }
}

pub open spec fn lum_at(img: RgbBuffer, p: int) -> u8 {
    ink_lum(img.chan(p, 0), img.chan(p, 1), img.chan(p, 2))
}

pub open spec fn chroma_at(img: RgbBuffer, p: int) -> int {
    max3(img.chan(p, 0), img.chan(p, 1), img.chan(p, 2)) - min3(
        img.chan(p, 0),
        img.chan(p, 1),
        img.chan(p, 2),
    )
}

/// Ink cores: dark (luma below 189) and nearly neutral (chroma below 41).
pub open spec fn is_core(img: RgbBuffer, p: int) -> bool {
    lum_at(img, p) < 189 && chroma_at(img, p) < 41
}

/// Start of the distance transform: 0 on cores, 3 (= "far") elsewhere.
pub open spec fn seed(img: RgbBuffer, p: int) -> nat {
    if is_core(img, p) {
        0
    } else {
        3
    }
}

pub open spec fn min_nat(a: nat, b: nat) -> nat {
    if a <= b {
        a
    } else {
        b
    }
}

/// Forward raster pass: relaxes each pixel from its left and upper neighbours.
pub open spec fn fwd(img: RgbBuffer, p: int) -> nat
    decreases p,
{
    if p < 0 {
        3
    } else {
        let w = img.width as int;
        let v = seed(img, p);
        let v = if w >= 1 && p >= 1 && p % w != 0 {
            min_nat(v, fwd(img, p - 1) + 1)
        } else {
            v
        };
        if w >= 1 && p >= w {
            min_nat(v, fwd(img, p - w) + 1)
        } else {
            v
        }
    }
}

/// Backward raster pass over the forward result: relaxes each pixel from its
/// right and lower neighbours.
pub open spec fn dist(img: RgbBuffer, p: int) -> nat
    decreases img.pixel_count() - p,
{
    if p < 0 || p >= img.pixel_count() {
        3
    } else {
        let w = img.width as int;
        let v = fwd(img, p);
        let v = if p + 1 < img.pixel_count() && w >= 1 && (p + 1) % w != 0 {
            min_nat(v, dist(img, p + 1) + 1)
        } else {
            v
        };
        if w >= 1 && p + w < img.pixel_count() {
            min_nat(v, dist(img, p + w) + 1)
        } else {
            v
        }
    }
}

/// Weight (percent) pulling a fringe pixel towards gray.
pub open spec fn fringe_weight(strength: u8, d: nat, lum: u8) -> int {
    let s = if strength <= 100 {
        strength as int
    } else {
        100
    };
    let dw = if d < 2 {
        100int
    } else {
        75int
    };
    let ew = if lum <= 210 {
        100int
    } else {
        (230 - lum as int) * 5
    };
    (s * dw * ew + 5000) / 10000
}

/// Channel `c` of pixel `p` after neutralisation: pixels within 2 px of a
/// core and darker than 230 move towards their own luma; others stay.
pub open spec fn neutralized(img: RgbBuffer, strength: u8, p: int, c: int) -> u8 {
    let d = dist(img, p);
    let l = lum_at(img, p);
    if d > 2 || l >= 230 {
        img.chan(p, c)
    } else {
        let wgt = fringe_weight(strength, d, l);
        ((img.chan(p, c) as int * (100 - wgt) + l as int * wgt + 50) / 100) as u8
    }
}

proof fn lemma_fwd_bound(img: RgbBuffer, p: int)
    ensures
        fwd(img, p) <= 3,
    decreases p,
{
}

proof fn lemma_dist_bound(img: RgbBuffer, p: int)
    ensures
        dist(img, p) <= 3,
{
    if 0 <= p < img.pixel_count() {
        lemma_fwd_bound(img, p);
    }
}

/// `q` is one of the four pixels beside `p` (to its right, to its left,
/// below or above it); both are pixels of the image.
pub open spec fn adjacent(img: RgbBuffer, p: int, q: int) -> bool {
    let w = img.width as int;
    &&& 0 <= p < img.pixel_count()
    &&& 0 <= q < img.pixel_count()
    &&& {
        ||| q == p + 1 && q % w != 0
        ||| p == q + 1 && p % w != 0
        ||| q == p + w
        ||| p == q + w
    }
}

proof fn lemma_width_positive(img: RgbBuffer, p: int)
    requires
        0 <= p < img.pixel_count(),
    ensures
        img.width >= 1,
        img.height >= 1,
        img.pixel_count() % (img.width as int) == 0,
        (img.pixel_count() - img.width as int) % (img.width as int) == 0,
{
    let w = img.width as int;
    let h = img.height as int;
    assert(w >= 1 && h >= 1) by (nonlinear_arith)
        requires
            0 <= p < w * h,
            w >= 0,
            h >= 0,
    ;
    vstd::arithmetic::div_mod::lemma_mod_multiples_basic(h, w);
    vstd::arithmetic::div_mod::lemma_mod_multiples_basic(h - 1, w);
    assert(h * w == w * h) by (nonlinear_arith);
    assert((h - 1) * w == w * h - w) by (nonlinear_arith);
}

proof fn lemma_dist_left(img: RgbBuffer, p: int)
    requires
        1 <= p < img.pixel_count(),
        p % (img.width as int) != 0,
    ensures
        dist(img, p) <= dist(img, p - 1) + 1,
    decreases img.pixel_count() - p,
{
    let w = img.width as int;
    let n = img.pixel_count();
    lemma_width_positive(img, p);
    assert(dist(img, p) <= fwd(img, p));
    assert(fwd(img, p) <= fwd(img, p - 1) + 1);
    if p - 1 + w < n {
        assert(p + w != n);
        vstd::arithmetic::div_mod::lemma_mod_add_multiples_vanish(p, w);
        lemma_dist_left(img, p + w);
        assert(dist(img, p) <= dist(img, p + w) + 1);
    }
}

proof fn lemma_dist_up(img: RgbBuffer, p: int)
    requires
        0 <= p < img.pixel_count(),
        p >= img.width,
    ensures
        dist(img, p) <= dist(img, p - img.width as int) + 1,
    decreases img.pixel_count() - p,
{
    let w = img.width as int;
    let n = img.pixel_count();
    lemma_width_positive(img, p);
    assert(dist(img, p) <= fwd(img, p));
    assert(fwd(img, p) <= fwd(img, p - w) + 1);
    if p - w + 1 < n && (p - w + 1) % w != 0 {
        vstd::arithmetic::div_mod::lemma_mod_add_multiples_vanish(p - w + 1, w);
        assert((p + 1) % w != 0);
        assert(p + 1 != n);
        lemma_dist_up(img, p + 1);
        assert(dist(img, p) <= dist(img, p + 1) + 1);
    }
}

/// The distance that decides which pixels are fringe is the number of
/// steps to the nearest ink core, moving left, right, up or down, capped
/// at 3: it is 0 exactly on cores, it grows by at most one from a pixel to
/// any of its four neighbours (whichever side the core lies on), and below
/// the cap every other pixel has a neighbour one step closer.
pub proof fn lemma_ink_distance_counts_steps_to_core(img: RgbBuffer, p: int)
    requires
        0 <= p < img.pixel_count(),
    ensures
        dist(img, p) <= 3,
        dist(img, p) == 0 <==> is_core(img, p),
        forall|q: int| adjacent(img, p, q) ==> dist(img, p) <= #[trigger] dist(img, q) + 1,
        !is_core(img, p) && dist(img, p) < 3 ==> exists|q: int|
            adjacent(img, p, q) && #[trigger] dist(img, q) + 1 == dist(img, p),
{
    let w = img.width as int;
    let n = img.pixel_count();
    lemma_width_positive(img, p);
    lemma_dist_bound(img, p);
    assert forall|q: int| adjacent(img, p, q) implies dist(img, p) <= #[trigger] dist(img, q) + 1 by {
        if q == p + 1 && q % w != 0 {
        } else if p == q + 1 && p % w != 0 {
            lemma_dist_left(img, p);
        } else if q == p + w {
        } else {
            lemma_dist_up(img, p);
        }
    }
    if !is_core(img, p) && dist(img, p) < 3 {
        let d = dist(img, p);
        if p + 1 < n && (p + 1) % w != 0 && d == dist(img, p + 1) + 1 {
            assert(adjacent(img, p, p + 1));
        } else if p + w < n && d == dist(img, p + w) + 1 {
            assert(adjacent(img, p, p + w));
        } else {
            assert(d == fwd(img, p));
            if p >= 1 && p % w != 0 && d == fwd(img, p - 1) + 1 {
                lemma_dist_left(img, p);
                assert(adjacent(img, p, p - 1));
                assert(dist(img, p - 1) + 1 == d);
            } else {
                assert(p >= w && d == fwd(img, p - w) + 1);
                lemma_dist_up(img, p);
                assert(adjacent(img, p, p - w));
                assert(dist(img, p - w) + 1 == d);
            }
        }
    }
}

/// Neutralisation only moves a pixel's channel towards the pixel's own
/// luma, never past it: pixels more than 2 steps from every core, and
/// pixels of luma 230 or more, keep their colour; at full strength a pixel
/// within one step of a core and of luma at most 210 becomes the neutral
/// gray of its luma.
pub proof fn lemma_neutralized_moves_towards_luma(img: RgbBuffer, strength: u8, p: int, c: int)
    ensures
        (dist(img, p) > 2 || lum_at(img, p) >= 230) ==> neutralized(img, strength, p, c)
            == img.chan(p, c),
        img.chan(p, c) <= lum_at(img, p) ==> img.chan(p, c) <= neutralized(img, strength, p, c)
            <= lum_at(img, p),
        lum_at(img, p) <= img.chan(p, c) ==> lum_at(img, p) <= neutralized(img, strength, p, c)
            <= img.chan(p, c),
        strength >= 100 && dist(img, p) <= 1 && lum_at(img, p) <= 210 ==> neutralized(
            img,
            strength,
            p,
            c,
        ) == lum_at(img, p),
{
    let d = dist(img, p);
    let l = lum_at(img, p);
    if !(d > 2 || l >= 230) {
        let wgt = fringe_weight(strength, d, l);
        let s: int = if strength <= 100 {
            strength as int
        } else {
            100
        };
        let dw: int = if d < 2 {
            100
        } else {
            75
        };
        let ew: int = if l <= 210 {
            100
        } else {
            (230 - l as int) * 5
        };
        assert(0 <= ew <= 100);
        assert(0 <= s * dw * ew <= 1000000) by (nonlinear_arith)
            requires
                0 <= s <= 100,
                0 <= dw <= 100,
                0 <= ew <= 100,
        ;
        assert(0 <= wgt <= 100);
        let o = img.chan(p, c) as int;
        let g = l as int;
        let t = o * (100 - wgt) + g * wgt + 50;
        assert(o <= g ==> o * 100 + 50 <= t <= g * 100 + 50) by (nonlinear_arith)
            requires
                0 <= wgt <= 100,
                t == o * (100 - wgt) + g * wgt + 50,
        ;
        assert(g <= o ==> g * 100 + 50 <= t <= o * 100 + 50) by (nonlinear_arith)
            requires
                0 <= wgt <= 100,
                t == o * (100 - wgt) + g * wgt + 50,
        ;
        assert(o <= g ==> o <= t / 100 <= g) by (nonlinear_arith)
            requires
                o <= g ==> o * 100 + 50 <= t <= g * 100 + 50,
                0 <= o,
        ;
        assert(g <= o ==> g <= t / 100 <= o) by (nonlinear_arith)
            requires
                g <= o ==> g * 100 + 50 <= t <= o * 100 + 50,
                0 <= g,
        ;
        if strength >= 100 && d <= 1 && l <= 210 {
            assert(s * dw * ew == 1000000);
            assert(wgt == 100);
            assert(t == g * 100 + 50) by (nonlinear_arith)
                requires
                    wgt == 100,
                    t == o * (100 - wgt) + g * wgt + 50,
            ;
            assert(t / 100 == g);
        }
    }
}

fn ink_lum_exec(r: u8, g: u8, b: u8) -> (l: u8)
    ensures
        l == ink_lum(r, g, b),
{
    ((54 * (r as u32) + 183 * (g as u32) + 19 * (b as u32) + 128) / 256) as u8
}

fn pixel_is_core(src: &RgbBuffer, p: usize) -> (b: bool)
    requires
        src.wf(),
        p < src.pixel_count(),
    ensures
        b == is_core(*src, p as int),
{
    assert(src.pixel_count() * 3 == src.data@.len());
    let total = src.data.len();
    assert(p * 3 + 2 < total);
    let r = src.data[p * 3];
    let g = src.data[p * 3 + 1];
    let bl = src.data[p * 3 + 2];
    let l = ink_lum_exec(r, g, bl);
    let mx = if r >= g && r >= bl {
        r
    } else if g >= bl {
        g
    } else {
        bl
    };
    let mn = if r <= g && r <= bl {
        r
    } else if g <= bl {
        g
    } else {
        bl
    };
    l < 189 && mx - mn < 41
}

/// Removes colour fringes around black text: pixels within two pixels of a
/// dark neutral "ink core" are pulled towards their own luma, by `strength`
/// percent (capped at 100) scaled down for the second ring and for light
/// anti-aliasing. Strength 0 and empty images are returned unchanged.
pub fn neutralize_black_ink(source: &RgbBuffer, strength: u8) -> (r: RgbBuffer)
    requires
        source.wf(),
    ensures
        r.wf(),
        r.width == source.width,
        r.height == source.height,
        (source.width == 0 || source.height == 0 || strength == 0) ==> r.data@ == source.data@,
        !(source.width == 0 || source.height == 0 || strength == 0) ==> forall|p: int, c: int|
            0 <= p < source.pixel_count() && 0 <= c < 3 ==> #[trigger] r.chan(p, c)
                == neutralized(*source, strength, p, c),
{
    let w = source.width as usize;
    let h = source.height as usize;
    if w == 0 || h == 0 || strength == 0 {
        return copy_image(source);
    }
    let total = source.data.len();
    let n = total / 3;
    assert(n as int == source.pixel_count());
    assert(w as int <= n as int) by (nonlinear_arith)
        requires
            n as int == w as int * h as int,
            h >= 1,
    ;
    let mut d: Vec<u8> = Vec::new();
    let mut i: usize = 0;
    while i < n
        invariant
            source.wf(),
            n as int == source.pixel_count(),
            i <= n,
            d@.len() == i,
            forall|j: int| 0 <= j < i ==> (#[trigger] d@[j]) as nat == seed(*source, j),
        decreases n - i,
    {
        let v: u8 = if pixel_is_core(source, i) {
            0
        } else {
            3
        };
        d.push(v);
        i = i + 1;
    }
    // Forward pass.
    let mut i: usize = 0;
    while i < n
        invariant
            source.wf(),
            n as int == source.pixel_count(),
            w as int == source.width,
            w >= 1,
            i <= n,
            d@.len() == n,
            forall|j: int| 0 <= j < i ==> (#[trigger] d@[j]) as nat == fwd(*source, j),
            forall|j: int| i <= j < n ==> (#[trigger] d@[j]) as nat == seed(*source, j),
        decreases n - i,
    {
        let mut v = d[i];
        proof {
            lemma_fwd_bound(*source, i as int - 1);
            lemma_fwd_bound(*source, i as int - w as int);
        }
        if i >= 1 && i % w != 0 {
            assert(d@[i - 1] as nat == fwd(*source, i - 1));
            let left = d[i - 1] + 1;
            if left < v {
                v = left;
            }
        }
        if i >= w {
            let up = d[i - w] + 1;
            if up < v {
                v = up;
            }
        }
        d.set(i, v);
        i = i + 1;
    }
    // Backward pass.
    let mut i: usize = n;
    while i > 0
        invariant
            source.wf(),
            n as int == source.pixel_count(),
            w as int == source.width,
            w >= 1,
            w <= n,
            n * 3 == total,
            i <= n,
            d@.len() == n,
            forall|j: int| 0 <= j < i ==> (#[trigger] d@[j]) as nat == fwd(*source, j),
            forall|j: int| i <= j < n ==> (#[trigger] d@[j]) as nat == dist(*source, j),
        decreases i,
    {
        i = i - 1;
        let mut v = d[i];
        proof {
            lemma_dist_bound(*source, i as int + 1);
            lemma_dist_bound(*source, i as int + w as int);
        }
        if i + 1 < n && (i + 1) % w != 0 {
            let right = d[i + 1] + 1;
            if right < v {
                v = right;
            }
        }
        if i + w < n {
            let down = d[i + w] + 1;
            if down < v {
                v = down;
            }
        }
        d.set(i, v);
    }
    let s: u32 = if strength <= 100 {
        strength as u32
    } else {
        100
    };
    let mut out: Vec<u8> = Vec::new();
    let mut p: usize = 0;
    while p < n
        invariant
            source.wf(),
            total as int == source.data@.len(),
            n as int == source.pixel_count(),
            n * 3 == total,
            p <= n,
            d@.len() == n,
            s as int == (if strength <= 100 {
                strength as int
            } else {
                100
            }),
            forall|j: int| 0 <= j < n ==> (#[trigger] d@[j]) as nat == dist(*source, j),
            out@.len() == p * 3,
            forall|q: int, c: int|
                0 <= q < p && 0 <= c < 3 ==> #[trigger] out@[q * 3 + c] == neutralized(
                    *source,
                    strength,
                    q,
                    c,
                ),
        decreases n - p,
    {
        let dp = d[p];
        let r = source.data[p * 3];
        let g = source.data[p * 3 + 1];
        let b = source.data[p * 3 + 2];
        let l = ink_lum_exec(r, g, b);
        let ghost before = out@;
        if dp > 2 || l >= 230 {
            out.push(r);
            out.push(g);
            out.push(b);
        } else {
            let dw: u32 = if dp < 2 {
                100
            } else {
                75
            };
            let ew: u32 = if l <= 210 {
                100
            } else {
                (230 - l as u32) * 5
            };
            assert(s * dw * ew <= 1_000_000) by (nonlinear_arith)
                requires
                    s <= 100,
                    dw <= 100,
                    ew <= 100,
            ;
            assert(s * dw <= 10000) by (nonlinear_arith)
                requires
                    s <= 100,
                    dw <= 100,
            ;
            let weight = (s * dw * ew + 5000) / 10000;
            assert(weight <= 100);
            let gray = l as u32;
            assert(r as u32 * (100 - weight) + gray * weight + 50 <= 25550) by (nonlinear_arith)
                requires
                    weight <= 100,
                    gray < 256,
            ;
            assert(g as u32 * (100 - weight) + gray * weight + 50 <= 25550) by (nonlinear_arith)
                requires
                    weight <= 100,
                    gray < 256,
            ;
            assert(b as u32 * (100 - weight) + gray * weight + 50 <= 25550) by (nonlinear_arith)
                requires
                    weight <= 100,
                    gray < 256,
            ;
            out.push((((r as u32) * (100 - weight) + gray * weight + 50) / 100) as u8);
            out.push((((g as u32) * (100 - weight) + gray * weight + 50) / 100) as u8);
            out.push((((b as u32) * (100 - weight) + gray * weight + 50) / 100) as u8);
        }
        proof {
            assert forall|q: int, c: int|
                0 <= q < p + 1 && 0 <= c < 3 implies #[trigger] out@[q * 3 + c] == neutralized(
                    *source,
                    strength,
                    q,
                    c,
                ) by {
                if q < p {
                    assert(q * 3 + c < p * 3) by (nonlinear_arith)
                        requires
                            q < p,
                            c < 3,
                    ;
                    assert(out@[q * 3 + c] == before[q * 3 + c]);
                }
            }
        }
        p = p + 1;
    }
    RgbBuffer { width: source.width, height: source.height, data: out }
}

} // verus!
