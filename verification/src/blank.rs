//! Conservative blank-page measurement on a 256x256 luma preview.
use vstd::prelude::*;
use crate::text::{chars_of, push_str, string_of};

verus! {

/// Side of the square preview a page is measured on.
pub const PREVIEW_SIZE: u32 = 256;

/// Border left out of the measurement (about 5 %: camera edges, gutter shadow).
pub const BORDER: u32 = 13;

/// Side of the measured interior.
pub open spec fn inner() -> int {
    (PREVIEW_SIZE - 2 * BORDER) as int
}

/// Number of measured pixels.
pub open spec fn inner_count() -> int {
    inner() * inner()
}

/// Integer facts of one page: the paper level (90th percentile of luma),
/// how many measured pixels are darker than paper by the dark delta, how many
/// sit on an edge, and how many were measured. The caller divides by `total`.
#[derive(Debug, Clone, Copy, PartialEq, Eq, Structural)]
pub struct BlankCounts {
    pub background_level: u8,
    pub dark: u32,
    pub edge: u32,
    pub total: u32,
}

/// What `image::imageops::resize` with the triangle filter makes of a
/// `width` x `height` luma image at `nwidth` x `nheight`.
pub uninterp spec fn luma_triangle_resize(
    width: u32,
    height: u32,
    pixels: Seq<u8>,
    nwidth: u32,
    nheight: u32,
) -> Seq<u8>;

/// Resizes a luma image with `image::imageops::resize` (triangle filter).
/// The result has `nwidth * nheight` pixels; its values are named, not stated.
#[verifier::external_body]
fn resize_luma(width: u32, height: u32, pixels: Vec<u8>, nwidth: u32, nheight: u32) -> (r: Vec<
    u8,
>)
    requires
        pixels@.len() == width as int * height as int,
    ensures
        r@ == luma_triangle_resize(width, height, pixels@, nwidth, nheight),
        r@.len() == nwidth as int * nheight as int,
{
    let image = image::GrayImage::from_raw(width, height, pixels).unwrap();
    image::imageops::resize(&image, nwidth, nheight, image::imageops::FilterType::Triangle).into_raw()
}

/// Luma at `(x, y)` of the preview.
pub open spec fn pv(p: Seq<u8>, x: int, y: int) -> u8 {
    p[y * 256 + x]
}

/// Column and row of the `k`-th measured pixel (row-major over the interior).
pub open spec fn kx(k: int) -> int {
    BORDER + k % inner()
}

pub open spec fn ky(k: int) -> int {
    BORDER + k / inner()
}

/// Histogram of the first `k` measured pixels.
pub open spec fn histogram(p: Seq<u8>, k: int) -> Seq<nat>
    decreases k,
{
    if k <= 0 {
        Seq::new(256, |v: int| 0nat)
    } else {
        let h = histogram(p, k - 1);
        let v = pv(p, kx(k - 1), ky(k - 1)) as int;
        h.update(v, h[v] + 1)
    }
}

/// First luma value whose cumulative count reaches `target`, scanning from
/// `v` with `seen` already counted; 255 when none does.
pub open spec fn first_reaching(h: Seq<nat>, target: nat, v: int, seen: nat) -> u8
    decreases 256 - v,
{
    if v >= 256 || v < 0 {
        255
    } else {
        let s = seen + h[v];
        if s >= target {
            v as u8
        } else {
            first_reaching(h, target, v + 1, s)
        }
    }
}

/// The `pct`-th percentile of a histogram of `total` samples.
pub open spec fn percentile_of(h: Seq<nat>, total: nat, pct: nat) -> u8 {
    first_reaching(h, ((total * pct + 99) / 100) as nat, 0, 0)
}

/// Number of samples of value at most `v`.
pub open spec fn count_upto(h: Seq<nat>, v: int) -> nat
    decreases v + 1,
{
    if v < 0 {
        0
    } else {
        count_upto(h, v - 1) + h[v]
    }
}

proof fn lemma_first_reaching(h: Seq<nat>, target: nat, v: int)
    requires
        0 <= v <= 256,
    ensures
        v <= first_reaching(h, target, v, count_upto(h, v - 1)) || v == 256,
        forall|u: int|
            v <= u < first_reaching(h, target, v, count_upto(h, v - 1)) ==> #[trigger] count_upto(h, u)
                < target,
        first_reaching(h, target, v, count_upto(h, v - 1)) == 255 || count_upto(
            h,
            first_reaching(h, target, v, count_upto(h, v - 1)) as int,
        ) >= target,
    decreases 256 - v,
{
    if v < 256 {
        let s = count_upto(h, v - 1) + h[v];
        assert(s == count_upto(h, v));
        if s < target {
            lemma_first_reaching(h, target, v + 1);
        }
    }
}

/// The percentile is the smallest value `v` such that at least `pct`
/// percent of the `total` samples are at most `v`; 255 when no value below
/// 255 gets there.
pub proof fn lemma_percentile_is_smallest_reaching(h: Seq<nat>, total: nat, pct: nat)
    ensures
        forall|u: int|
            0 <= u < percentile_of(h, total, pct) ==> #[trigger] count_upto(h, u) * 100 < total * pct,
        percentile_of(h, total, pct) == 255 || count_upto(h, percentile_of(h, total, pct) as int) * 100
            >= total * pct,
{
    let t = ((total * pct + 99) / 100) as nat;
    let x = total * pct;
    assert(count_upto(h, -1) == 0);
    lemma_first_reaching(h, t, 0);
    assert forall|c: nat| #[trigger] (c * 100) < x <==> c < t by {
        assert(c * 100 < x <==> c < (x + 99) / 100) by (nonlinear_arith)
            requires
                x >= 0,
                c >= 0,
        ;
    }
}

pub open spec fn abs_diff(a: u8, b: u8) -> int {
    if a >= b {
        a - b
    } else {
        b - a
    }
}

/// Largest luma step from the left or upper neighbour.
pub open spec fn gradient(p: Seq<u8>, x: int, y: int) -> int {
    let v = pv(p, x, y);
    let l = abs_diff(v, pv(p, x - 1, y));
    let u = abs_diff(v, pv(p, x, y - 1));
    if l >= u {
        l
    } else {
        u
    }
}

pub open spec fn dark_upto(p: Seq<u8>, cutoff: u8, k: int) -> nat
    decreases k,
{
    if k <= 0 {
        0
    } else {
        dark_upto(p, cutoff, k - 1) + if pv(p, kx(k - 1), ky(k - 1)) < cutoff {
            1nat
        } else {
            0nat
        }
    }
}

pub open spec fn edge_upto(p: Seq<u8>, threshold: u8, k: int) -> nat
    decreases k,
{
    if k <= 0 {
        0
    } else {
        edge_upto(p, threshold, k - 1) + if gradient(p, kx(k - 1), ky(k - 1)) >= threshold {
            1nat
        } else {
            0nat
        }
    }
}

/// The counts for a 256x256 preview.
pub open spec fn counts_of(p: Seq<u8>, dark_delta: u8, edge_threshold: u8) -> BlankCounts {
    let bg = percentile_of(histogram(p, inner_count()), inner_count() as nat, 90);
    let cutoff = if bg >= dark_delta {
        (bg - dark_delta) as u8
    } else {
        0u8
    };
    BlankCounts {
        background_level: bg,
        dark: dark_upto(p, cutoff, inner_count()) as u32,
        edge: edge_upto(p, edge_threshold, inner_count()) as u32,
        total: inner_count() as u32,
    }
}

/// The `pct`-th percentile (first value whose cumulative count reaches
/// `ceil(total * pct / 100)`); 255 when the histogram never gets there.
pub fn percentile(histogram: &[u32; 256], total: u32, pct: u32) -> (v: u8)
    requires
        total as int * pct as int <= u32::MAX,
    ensures
        v == percentile_of(histogram@.map_values(|c: u32| c as nat), total as nat, pct as nat),
{
    let ghost h = histogram@.map_values(|c: u32| c as nat);
    let product = total * pct;
    let target = product / 100 + if product % 100 == 0 {
        0
    } else {
        1
    };
    assert(target as nat == ((total * pct + 99) / 100) as nat);
    let mut seen: u64 = 0;
    let mut v: usize = 0;
    while v < 256
        invariant
            v <= 256,
            h == histogram@.map_values(|c: u32| c as nat),
            seen as int <= v as int * u32::MAX as int,
            percentile_of(h, total as nat, pct as nat) == first_reaching(
                h,
                target as nat,
                v as int,
                seen as nat,
            ),
        decreases 256 - v,
    {
        assert(h[v as int] == histogram@[v as int] as nat);
        seen = seen + histogram[v] as u64;
        if seen >= target as u64 {
            return v as u8;
        }
        v = v + 1;
    }
    255
}

/// Measures a 256x256 luma preview: the paper level, then the dark and edge
/// pixels inside the border.
pub fn measure_preview(preview: &Vec<u8>, dark_delta: u8, edge_threshold: u8) -> (c: BlankCounts)
    requires
        preview@.len() == 256 * 256,
    ensures
        c == counts_of(preview@, dark_delta, edge_threshold),
{
    let n: usize = 230 * 230;
    assert(inner() == 230);
    assert(inner_count() == 52900);
    let mut hist: [u32; 256] = [0u32; 256];
    let mut k: usize = 0;
    while k < n
        invariant
            n == inner_count(),
            n == 52900,
            preview@.len() == 256 * 256,
            k <= n,
            hist@.map_values(|c: u32| c as nat) == histogram(preview@, k as int),
            forall|i: int| 0 <= i < 256 ==> (#[trigger] hist@[i]) <= k,
        decreases n - k,
    {
        assert(k / 230 < 230) by (nonlinear_arith)
            requires
                k < 52900,
        ;
        assert(inner() == 230);
        let x = 13 + k % 230;
        let y = 13 + k / 230;
        assert(x == kx(k as int) && y == ky(k as int));
        let v = preview[y * 256 + x] as usize;
        let ghost before = hist@.map_values(|c: u32| c as nat);
        hist[v] = hist[v] + 1;
        k = k + 1;
        assert(hist@.map_values(|c: u32| c as nat) =~= before.update(v as int, before[v as int] + 1));
    }
    let background = percentile(&hist, 52900, 90);
    let cutoff = if background >= dark_delta {
        background - dark_delta
    } else {
        0
    };
    let mut dark: u32 = 0;
    let mut edge: u32 = 0;
    let mut k: usize = 0;
    while k < n
        invariant
            n == inner_count(),
            n == 52900,
            preview@.len() == 256 * 256,
            k <= n,
            dark as nat == dark_upto(preview@, cutoff, k as int),
            edge as nat == edge_upto(preview@, edge_threshold, k as int),
            dark <= k,
            edge <= k,
        decreases n - k,
    {
        assert(k / 230 < 230) by (nonlinear_arith)
            requires
                k < 52900,
        ;
        assert(inner() == 230);
        let x = 13 + k % 230;
        let y = 13 + k / 230;
        assert(x == kx(k as int) && y == ky(k as int));
        let v = preview[y * 256 + x];
        if v < cutoff {
            dark = dark + 1;
        }
        let left = preview[y * 256 + x - 1];
        let above = preview[(y - 1) * 256 + x];
        let dl = if v >= left {
            v - left
        } else {
            left - v
        };
        let du = if v >= above {
            v - above
        } else {
            above - v
        };
        let g = if dl >= du {
            dl
        } else {
            du
        };
        if g >= edge_threshold {
            edge = edge + 1;
        }
        k = k + 1;
    }
    BlankCounts { background_level: background, dark, edge, total: 52900 }
}

/// Measures a page: shrinks its luma image to the 256x256 preview (triangle
/// filter) and counts on it.
pub fn measure_luma(width: u32, height: u32, pixels: Vec<u8>, dark_delta: u8, edge_threshold: u8) -> (c:
    BlankCounts)
    requires
        pixels@.len() == width as int * height as int,
    ensures
        c == counts_of(
            luma_triangle_resize(width, height, pixels@, PREVIEW_SIZE, PREVIEW_SIZE),
            dark_delta,
            edge_threshold,
        ),
{
    let preview = resize_luma(width, height, pixels, PREVIEW_SIZE, PREVIEW_SIZE);
    measure_preview(&preview, dark_delta, edge_threshold)
}

/// What `image` decodes from the bytes of an image file whose name has
/// extension `extension` (none where it has none), as `image::open` does
/// it: the format taken from the extension, then `to_luma8`; the width,
/// height and luma pixels row by row, or the text of the error.
pub uninterp spec fn decoded_luma(bytes: Seq<u8>, extension: Option<Seq<char>>) -> Result<
    (u32, u32, Seq<u8>),
    Seq<char>,
>;

/// Decodes an image file's bytes as `image::open` decodes the file: an
/// `ImageReader` whose format is the one the (non-empty) extension names,
/// the `Unsupported` error that `image` makes for an extension it does not
/// know, then `decode` and `to_luma8`. The pixel buffer holds
/// `width * height` values, as an `ImageBuffer`'s does.
#[verifier::external_body]
fn decode_luma(bytes: &[u8], extension: Option<&str>) -> (r: Result<(u32, u32, Vec<u8>), String>)
    ensures
        match r {
            Ok((w, h, p)) => decoded_luma(bytes@, opt_str(extension)) == Ok::<(u32, u32, Seq<u8>), Seq<char>>(
                (w, h, p@),
            ) && p@.len() == w as int * h as int,
            Err(m) => decoded_luma(bytes@, opt_str(extension)) == Err::<(u32, u32, Seq<u8>), Seq<char>>(m@),
        },
{
    let mut reader = image::ImageReader::new(std::io::Cursor::new(bytes));
    if let Some(ext) = extension {
        match image::ImageFormat::from_extension(ext) {
            Some(format) => reader.set_format(format),
            None => return Err(image::ImageError::Unsupported(image::error::ImageFormatHint::PathExtension(ext.into()).into()).to_string()),
        }
    }
    match reader.decode() {
        Ok(image) => { let luma = image.to_luma8(); Ok((luma.width(), luma.height(), luma.into_raw())) },
        Err(e) => Err(e.to_string()),
    }
}

/// The text of an optional string slice.
pub open spec fn opt_str(s: Option<&str>) -> Option<Seq<char>> {
    match s {
        Some(t) => Some(t@),
        None => None,
    }
}

/// The extension `image::open` goes by: a non-empty one, else none.
pub open spec fn format_extension(extension: Option<Seq<char>>) -> Option<Seq<char>> {
    match extension {
        Some(e) => if e.len() > 0 {
            Some(e)
        } else {
            None
        },
        None => None,
    }
}

/// Measures a page from the bytes of its file (`path` names it in the
/// complaint, `extension` is its name's extension): decoded as `image::open`
/// decodes it, to luma, then `measure_luma`.
pub fn measure_page_bytes(
    path: &str,
    extension: Option<&str>,
    bytes: &[u8],
    dark_delta: u8,
    edge_threshold: u8,
) -> (r: Result<BlankCounts, String>)
    ensures
        match decoded_luma(bytes@, format_extension(opt_str(extension))) {
            Ok((w, h, p)) => r == Ok::<BlankCounts, String>(
                counts_of(luma_triangle_resize(w, h, p, PREVIEW_SIZE, PREVIEW_SIZE), dark_delta, edge_threshold),
            ),
            Err(m) => r matches Err(x) && x@ == path@ + "を空白判定用に開けません: "@ + m,
        },
{
    let ext = match extension {
        Some(e) => if e.is_empty() {
            None
        } else {
            Some(e)
        },
        None => None,
    };
    match decode_luma(bytes, ext) {
        Ok((w, h, pixels)) => Ok(measure_luma(w, h, pixels, dark_delta, edge_threshold)),
        Err(m) => {
            let mut t = chars_of(path);
            push_str(&mut t, "を空白判定用に開けません: ");
            push_str(&mut t, m.as_str());
            Err(string_of(&t))
        },
    }
}

} // verus!
