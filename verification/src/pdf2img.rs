//! PDF-to-image conversion: output formats, reading Poppler's listings, and
//! deciding when embedded JPEGs can be extracted losslessly.
use vstd::prelude::*;
use crate::models::{ProcessingError, ProcessingResult};
use crate::text::{
    decimal, decimal_chars, push_all, push_str,
    chars_of, has_prefix, is_text, lines, lines_of, parse_unsigned, parse_unsigned_chars, to_lower,
    to_lower_chars, trim, trim_chars, trim_start, trim_start_chars, views, words, words_of,
    starts_with_text, slice_chars, string_of, unsigned_value, unsigned_parse, unsigned_parse_chars,
    IntErrorKind,
};

verus! {

/// Output image format of pdf2img.
#[derive(Debug, Clone, Copy, PartialEq, Eq, Structural)]
pub enum OutputImageFormat {
    /// Extract embedded JPEGs unchanged; render PNG where that is impossible.
    AutoLossless,
    Jpeg,
    Png,
}

impl OutputImageFormat {
    pub open spec fn from_text(v: Seq<char>) -> Option<Self> {
        let l = to_lower(v);
        if l == "auto"@ || l == "lossless"@ {
            Some(OutputImageFormat::AutoLossless)
        } else if l == "jpg"@ || l == "jpeg"@ {
            Some(OutputImageFormat::Jpeg)
        } else if l == "png"@ {
            Some(OutputImageFormat::Png)
        } else {
            None
        }
    }

    /// `auto`/`lossless`, `jpg`/`jpeg` or `png`, in any case.
    pub fn parse(value: &str) -> (r: Option<Self>)
        ensures
            r == Self::from_text(value@),
    {
        let l = to_lower_chars(&chars_of(value));
        if is_text(&l, "auto") || is_text(&l, "lossless") {
            Some(OutputImageFormat::AutoLossless)
        } else if is_text(&l, "jpg") || is_text(&l, "jpeg") {
            Some(OutputImageFormat::Jpeg)
        } else if is_text(&l, "png") {
            Some(OutputImageFormat::Png)
        } else {
            None
        }
    }

    /// File extension of rendered pages.
    pub fn extension(self) -> (e: &'static str)
        ensures
            e@ == (if self == OutputImageFormat::Jpeg {
                "jpg"@
            } else {
                "png"@
            }),
    {
        match self {
            OutputImageFormat::AutoLossless | OutputImageFormat::Png => "png",
            OutputImageFormat::Jpeg => "jpg",
        }
    }

    /// pdftoppm's output-format switch.
    pub fn pdftoppm_flag(self) -> (f: &'static str)
        ensures
            f@ == (if self == OutputImageFormat::Jpeg {
                "-jpeg"@
            } else {
                "-png"@
            }),
    {
        match self {
            OutputImageFormat::AutoLossless | OutputImageFormat::Png => "-png",
            OutputImageFormat::Jpeg => "-jpeg",
        }
    }
}

/// One row of `pdfimages -list`: the page an image sits on and its encoding.
#[derive(Debug, Clone)]
pub struct PdfImageInfo {
    pub page: usize,
    pub enc: String,
}

/// The image a listing line describes: rows of at least nine columns whose
/// first column is a page number (header and rule lines are skipped).
pub open spec fn listing_entry(line: Seq<char>) -> Option<(nat, Seq<char>)> {
    let cols = words(line);
    if cols.len() < 9 || cols[0] == "page"@ || cols[0] == "-"@ {
        None
    } else {
        match parse_unsigned(cols[0], usize::MAX as nat) {
            Some(p) => Some((p, cols[8])),
            None => None,
        }
    }
}

/// The entries of the first `k` lines.
pub open spec fn listing_entries(ls: Seq<Seq<char>>, k: int) -> Seq<(nat, Seq<char>)>
    decreases k,
{
    if k <= 0 {
        Seq::empty()
    } else {
        let before = listing_entries(ls, k - 1);
        match listing_entry(ls[k - 1]) {
            Some(e) => before.push(e),
            None => before,
        }
    }
}

/// The images `pdfimages -list` reports, in order.
pub open spec fn listing(stdout: Seq<char>) -> Seq<(nat, Seq<char>)> {
    listing_entries(lines(stdout), lines(stdout).len() as int)
}

pub open spec fn info_view(i: PdfImageInfo) -> (nat, Seq<char>) {
    (i.page as nat, i.enc@)
}

/// Reads the image rows of `pdfimages -list` output.
pub fn parse_pdfimages_list(stdout: &str) -> (r: Vec<PdfImageInfo>)
    ensures
        r@.map_values(|i: PdfImageInfo| info_view(i)) == listing(stdout@),
{
    let text = chars_of(stdout);
    let ls = lines_of(&text);
    let ghost lv = views(ls@);
    let mut out: Vec<PdfImageInfo> = Vec::new();
    let mut k: usize = 0;
    while k < ls.len()
        invariant
            k <= ls.len(),
            lv == views(ls@),
            lv == lines(stdout@),
            out@.map_values(|i: PdfImageInfo| info_view(i)) == listing_entries(lv, k as int),
        decreases ls.len() - k,
    {
        let cols = words_of(&ls[k]);
        assert(ls@[k as int]@ == lv[k as int]);
        let ghost cv = views(cols@);
        let ghost before = out@.map_values(|i: PdfImageInfo| info_view(i));
        if cols.len() >= 9 && !is_text(&cols[0], "page") && !is_text(&cols[0], "-") {
            assert(cols@[0]@ == cv[0]);
            assert(cols@[8]@ == cv[8]);
            match parse_unsigned_chars(&cols[0], usize::MAX as u64) {
                Some(p) => {
                    let enc = string_of(&cols[8]);
                    out.push(PdfImageInfo { page: p as usize, enc });
                    assert(out@.map_values(|i: PdfImageInfo| info_view(i)) =~= before.push(
                        (p as nat, cv[8]),
                    ));
                },
                None => {},
            }
        } else {
            if cols.len() >= 9 {
                assert(cols@[0]@ == cv[0]);
            }
        }
        k = k + 1;
    }
    out
}

/// Number of listed images on page `p`.
pub open spec fn images_on(images: Seq<PdfImageInfo>, p: nat, k: int) -> nat
    decreases k,
{
    if k <= 0 {
        0
    } else {
        images_on(images, p, k - 1) + if images[k - 1].page == p {
            1nat
        } else {
            0nat
        }
    }
}

/// Lossless extraction is possible when the listing has one JPEG per page:
/// `total` images, each on a page in `1..=total` and encoded `jpeg` (any
/// case), and every page carrying exactly one.
pub open spec fn one_jpeg_per_page(images: Seq<PdfImageInfo>, total: nat) -> bool {
    &&& images.len() == total
    &&& forall|i: int|
        0 <= i < images.len() ==> 1 <= (#[trigger] images[i]).page <= total && to_lower(
            images[i].enc@,
        ) == "jpeg"@
    &&& forall|p: nat| 1 <= p <= total ==> #[trigger] images_on(images, p, images.len() as int) == 1
}

/// Unit type grouping the pdf2img decisions.
pub struct Pdf2ImgProcessor;

impl Pdf2ImgProcessor {
    pub fn can_losslessly_extract_jpegs(images: &[PdfImageInfo], total: usize) -> (b: bool)
        requires
            total < usize::MAX,
        ensures
            b == one_jpeg_per_page(images@, total as nat),
    {
        if images.len() != total {
            return false;
        }
        let mut pages: Vec<usize> = Vec::new();
        let mut p: usize = 0;
        while p <= total
            invariant
                total < usize::MAX,
                p <= total + 1,
                total == images@.len(),
                pages@.len() == p,
                forall|q: int| 0 <= q < p ==> #[trigger] pages@[q] == 0,
            decreases total + 1 - p,
        {
            pages.push(0);
            p = p + 1;
        }
        let mut k: usize = 0;
        while k < images.len()
            invariant
                k <= images@.len() == total,
                pages@.len() == total + 1,
                forall|i: int|
                    0 <= i < k ==> 1 <= (#[trigger] images@[i]).page <= total && to_lower(
                        images@[i].enc@,
                    ) == "jpeg"@,
                forall|q: int| 0 <= q <= total ==> #[trigger] pages@[q] == images_on(images@, q as nat, k as int),
            decreases images.len() - k,
        {
            let image = &images[k];
            let enc = to_lower_chars(&chars_of(image.enc.as_str()));
            if image.page == 0 || image.page > total || !is_text(&enc, "jpeg") {
                return false;
            }
            let ghost before = pages@;
            assert(pages@[image.page as int] <= k) by {
                lemma_images_on_bound(images@, image.page as nat, k as int);
            }
            let v = pages[image.page] + 1;
            pages.set(image.page, v);
            k = k + 1;
        }
        let mut q: usize = 1;
        while q <= total
            invariant
                total < usize::MAX,
                1 <= q <= total + 1,
                k == images@.len() == total,
                pages@.len() == total + 1,
                forall|i: int|
                    0 <= i < k ==> 1 <= (#[trigger] images@[i]).page <= total && to_lower(
                        images@[i].enc@,
                    ) == "jpeg"@,
                forall|x: int| 0 <= x <= total ==> #[trigger] pages@[x] == images_on(images@, x as nat, k as int),
                forall|x: nat| 1 <= x < q ==> #[trigger] images_on(images@, x, k as int) == 1,
            decreases total + 1 - q,
        {
            if pages[q] != 1 {
                assert(images_on(images@, q as nat, k as int) != 1);
                return false;
            }
            q = q + 1;
        }
        true
    }
}

proof fn lemma_images_on_bound(images: Seq<PdfImageInfo>, p: nat, k: int)
    requires
        0 <= k <= images.len(),
    ensures
        images_on(images, p, k) <= k,
    decreases k,
{
    if k > 0 {
        lemma_images_on_bound(images, p, k - 1);
    }
}

/// The complaint about a page width of zero, made before any work.
pub fn check_canvas_width(canvas_width: u32) -> (r: Result<(), String>)
    ensures
        r is Ok <==> canvas_width > 0,
        r matches Err(m) ==> m@ == "--width には 1 以上を指定してください"@,
{
    if canvas_width == 0 {
        Err(String::from_str("--width には 1 以上を指定してください"))
    } else {
        Ok(())
    }
}

/// The number of JPEG images among the first `k` images that sit on page `p`.
pub open spec fn jpegs_on(images: Seq<PdfImageInfo>, p: nat, k: int) -> nat
    decreases k,
{
    if k <= 0 {
        0
    } else {
        jpegs_on(images, p, k - 1) + if images[k - 1].page == p && to_lower(images[k - 1].enc@)
            == "jpeg"@ {
            1nat
        } else {
            0nat
        }
    }
}

/// Page `p` holds exactly one embedded image, and it is a JPEG: that page
/// can be extracted losslessly.
pub open spec fn page_has_one_jpeg(images: Seq<PdfImageInfo>, p: nat) -> bool {
    images_on(images, p, images.len() as int) == 1 && jpegs_on(images, p, images.len() as int) == 1
}

proof fn lemma_jpegs_on_bound(images: Seq<PdfImageInfo>, p: nat, k: int)
    requires
        0 <= k <= images.len(),
    ensures
        jpegs_on(images, p, k) <= images_on(images, p, k) <= k,
    decreases k,
{
    if k > 0 {
        lemma_jpegs_on_bound(images, p, k - 1);
    }
}

proof fn lemma_no_image_on_page(images: Seq<PdfImageInfo>, p: nat, k: int)
    requires
        0 <= k <= images.len(),
    ensures
        images_on(images, p, k) == 0 <==> forall|j: int| 0 <= j < k ==> (#[trigger] images[j]).page != p,
        images_on(images, p, k) == 0 ==> jpegs_on(images, p, k) == 0,
    decreases k,
{
    if k > 0 {
        lemma_no_image_on_page(images, p, k - 1);
        lemma_jpegs_on_bound(images, p, k - 1);
        if images_on(images, p, k) == 0 {
            assert forall|j: int| 0 <= j < k implies (#[trigger] images[j]).page != p by {
                if j < k - 1 {
                }
            }
        }
        if forall|j: int| 0 <= j < k ==> (#[trigger] images[j]).page != p {
            assert(images[k - 1].page != p);
            assert forall|j: int| 0 <= j < k - 1 implies (#[trigger] images[j]).page != p by {
                assert(images[j].page != p);
            }
        }
    }
}

proof fn lemma_one_image_on_page(images: Seq<PdfImageInfo>, p: nat, k: int) -> (i: int)
    requires
        0 <= k <= images.len(),
        images_on(images, p, k) == 1,
    ensures
        0 <= i < k,
        images[i].page == p,
        forall|j: int| 0 <= j < k && (#[trigger] images[j]).page == p ==> j == i,
        jpegs_on(images, p, k) == (if to_lower(images[i].enc@) == "jpeg"@ {
            1nat
        } else {
            0nat
        }),
    decreases k,
{
    lemma_no_image_on_page(images, p, k - 1);
    if images[k - 1].page == p {
        k - 1
    } else {
        lemma_one_image_on_page(images, p, k - 1)
    }
}

proof fn lemma_sole_image_counts(images: Seq<PdfImageInfo>, p: nat, k: int, i: int)
    requires
        0 <= i < k <= images.len(),
        images[i].page == p,
        forall|j: int| 0 <= j < k && (#[trigger] images[j]).page == p ==> j == i,
    ensures
        images_on(images, p, k) == 1,
    decreases k,
{
    if k - 1 == i {
        assert forall|j: int| 0 <= j < k - 1 implies (#[trigger] images[j]).page != p by {
            if images[j].page == p {
                assert(j == i);
            }
        }
        lemma_no_image_on_page(images, p, k - 1);
    } else {
        assert(images[k - 1].page != p);
        lemma_sole_image_counts(images, p, k - 1, i);
    }
}

/// A page is extracted as it is exactly when the listing shows one image on
/// it in all and that image is a JPEG (any case): a page that also carries
/// another image, of whatever encoding, is rendered.
pub proof fn lemma_extracted_page_has_its_only_image_jpeg(images: Seq<PdfImageInfo>, p: nat)
    ensures
        page_has_one_jpeg(images, p) <==> exists|i: int|
            0 <= i < images.len() && (#[trigger] images[i]).page == p && to_lower(images[i].enc@)
                == "jpeg"@ && forall|j: int|
                0 <= j < images.len() && (#[trigger] images[j]).page == p ==> j == i,
{
    let n = images.len() as int;
    if page_has_one_jpeg(images, p) {
        let i = lemma_one_image_on_page(images, p, n);
        assert(images[i].page == p);
    }
    if exists|i: int|
        0 <= i < images.len() && (#[trigger] images[i]).page == p && to_lower(images[i].enc@)
            == "jpeg"@ && forall|j: int|
            0 <= j < images.len() && (#[trigger] images[j]).page == p ==> j == i {
        let i = choose|i: int|
            0 <= i < images.len() && (#[trigger] images[i]).page == p && to_lower(images[i].enc@)
                == "jpeg"@ && forall|j: int|
                0 <= j < images.len() && (#[trigger] images[j]).page == p ==> j == i;
        lemma_sole_image_counts(images, p, n, i);
        let i2 = lemma_one_image_on_page(images, p, n);
        assert(i2 == i);
    }
}

/// For each page `1..=total`, in order, whether its embedded JPEG is
/// extracted as it is; every other page is rendered.
pub fn extraction_plan(images: &[PdfImageInfo], total: usize) -> (r: Vec<bool>)
    requires
        total < usize::MAX,
    ensures
        r@.len() == total,
        forall|i: int| 0 <= i < total ==> #[trigger] r@[i] == page_has_one_jpeg(images@, (i + 1) as nat),
{
    let mut all: Vec<usize> = Vec::new();
    let mut jpeg: Vec<usize> = Vec::new();
    let mut p: usize = 0;
    while p <= total
        invariant
            total < usize::MAX,
            p <= total + 1,
            all@.len() == p,
            jpeg@.len() == p,
            forall|q: int| 0 <= q < p ==> #[trigger] all@[q] == 0 && jpeg@[q] == 0,
        decreases total + 1 - p,
    {
        all.push(0);
        jpeg.push(0);
        p = p + 1;
    }
    let mut k: usize = 0;
    while k < images.len()
        invariant
            k <= images@.len(),
            all@.len() == total + 1,
            jpeg@.len() == total + 1,
            forall|q: int|
                1 <= q <= total ==> #[trigger] all@[q] == images_on(images@, q as nat, k as int)
                    && jpeg@[q] == jpegs_on(images@, q as nat, k as int),
        decreases images.len() - k,
    {
        let image = &images[k];
        let ghost all0 = all@;
        let ghost jpeg0 = jpeg@;
        let ghost is_jpeg = to_lower(image.enc@) == "jpeg"@;
        if 1 <= image.page && image.page <= total {
            let q = image.page;
            proof {
                lemma_jpegs_on_bound(images@, q as nat, k as int);
            }
            let a = all[q] + 1;
            all.set(q, a);
            let enc = to_lower_chars(&chars_of(image.enc.as_str()));
            if is_text(&enc, "jpeg") {
                let j = jpeg[q] + 1;
                jpeg.set(q, j);
            }
            assert(jpeg@[q as int] == jpeg0[q as int] + if is_jpeg {
                1nat
            } else {
                0nat
            });
        }
        proof {
            assert forall|x: int| 1 <= x <= total implies #[trigger] all@[x] == images_on(
                images@,
                x as nat,
                k + 1,
            ) && jpeg@[x] == jpegs_on(images@, x as nat, k + 1) by {
                if x != images@[k as int].page {
                    assert(all@[x] == all0[x]);
                    assert(jpeg@[x] == jpeg0[x]);
                }
            }
        }
        k = k + 1;
    }
    let mut plan: Vec<bool> = Vec::new();
    let mut q: usize = 1;
    while q <= total
        invariant
            total < usize::MAX,
            1 <= q <= total + 1,
            k == images@.len(),
            all@.len() == total + 1,
            jpeg@.len() == total + 1,
            forall|x: int|
                1 <= x <= total ==> #[trigger] all@[x] == images_on(images@, x as nat, k as int)
                    && jpeg@[x] == jpegs_on(images@, x as nat, k as int),
            plan@.len() == q - 1,
            forall|i: int| 0 <= i < q - 1 ==> #[trigger] plan@[i] == page_has_one_jpeg(images@, (i + 1) as nat),
        decreases total + 1 - q,
    {
        plan.push(all[q] == 1 && jpeg[q] == 1);
        q = q + 1;
    }
    plan
}

/// Whether page `p` (1-based) of `total` is extracted as it is, for output
/// format `format`: for `auto`, when it holds one JPEG; for `jpg`, when
/// every page does (the whole document or nothing); for `png`, never.
pub open spec fn extracted_page(format: OutputImageFormat, images: Seq<PdfImageInfo>, total: nat, p: nat) -> bool {
    match format {
        OutputImageFormat::AutoLossless => page_has_one_jpeg(images, p),
        OutputImageFormat::Jpeg => one_jpeg_per_page(images, total),
        OutputImageFormat::Png => false,
    }
}

/// For each page `1..=total`, in order, whether it is extracted as it is
/// for output format `format` (see `extracted_page`); the other pages are
/// rendered.
pub fn lossless_pages(format: OutputImageFormat, images: &[PdfImageInfo], total: usize) -> (r: Vec<bool>)
    requires
        total < usize::MAX,
    ensures
        r@.len() == total,
        forall|i: int| 0 <= i < total ==> #[trigger] r@[i] == extracted_page(format, images@, total as nat, (i + 1) as nat),
{
    match format {
        OutputImageFormat::AutoLossless => extraction_plan(images, total),
        _ => {
            let all = format == OutputImageFormat::Jpeg && Pdf2ImgProcessor::can_losslessly_extract_jpegs(images, total);
            let mut r: Vec<bool> = Vec::new();
            let mut i: usize = 0;
            while i < total
                invariant
                    i <= total,
                    r@.len() == i,
                    format != OutputImageFormat::AutoLossless,
                    all == (format == OutputImageFormat::Jpeg && one_jpeg_per_page(images@, total as nat)),
                    forall|j: int| 0 <= j < i ==> #[trigger] r@[j] == extracted_page(format, images@, total as nat, (j + 1) as nat),
                decreases total - i,
            {
                r.push(all);
                i = i + 1;
            }
            r
        },
    }
}

/// Every one of the first `n` pages was planned and its extraction worked.
pub open spec fn all_done(planned: Seq<bool>, done: Seq<bool>, n: int) -> bool
    decreases n,
{
    if n <= 0 {
        true
    } else {
        all_done(planned, done, n - 1) && planned[n - 1] && done[n - 1]
    }
}

/// Which extracted pages are kept, given which pages were to be extracted
/// (`planned`) and which extractions worked (`done`): for `jpg`, all of
/// them when every page was planned and worked, else none (every page is
/// then rendered); otherwise each page planned and done.
pub fn kept_extractions(format: OutputImageFormat, planned: &Vec<bool>, done: &Vec<bool>) -> (r: Vec<bool>)
    requires
        planned.len() == done.len(),
    ensures
        r@.len() == planned.len(),
        format == OutputImageFormat::Jpeg ==> forall|i: int| 0 <= i < r@.len() ==> #[trigger] r@[i] == all_done(
            planned@,
            done@,
            planned@.len() as int,
        ),
        format != OutputImageFormat::Jpeg ==> forall|i: int| 0 <= i < r@.len() ==> #[trigger] r@[i] == (planned@[i] && done@[i]),
{
    let mut every = true;
    let mut k: usize = 0;
    while k < planned.len()
        invariant
            k <= planned.len() == done.len(),
            every == all_done(planned@, done@, k as int),
        decreases planned.len() - k,
    {
        every = every && planned[k] && done[k];
        k = k + 1;
    }
    let mut r: Vec<bool> = Vec::new();
    let mut i: usize = 0;
    while i < planned.len()
        invariant
            i <= planned.len() == done.len(),
            r@.len() == i,
            every == all_done(planned@, done@, planned@.len() as int),
            format == OutputImageFormat::Jpeg ==> forall|j: int| 0 <= j < i ==> #[trigger] r@[j] == every,
            format != OutputImageFormat::Jpeg ==> forall|j: int| 0 <= j < i ==> #[trigger] r@[j] == (planned@[j] && done@[j]),
        decreases planned.len() - i,
    {
        if format == OutputImageFormat::Jpeg {
            r.push(every);
        } else {
            r.push(planned[i] && done[i]);
        }
        i = i + 1;
    }
    r
}

/// When every page holds one JPEG (the case where the whole PDF can be
/// extracted), the plan extracts every page.
pub proof fn lemma_every_page_extracted(images: Seq<PdfImageInfo>, total: nat, p: nat)
    requires
        one_jpeg_per_page(images, total),
        1 <= p <= total,
    ensures
        page_has_one_jpeg(images, p),
{
    lemma_all_jpeg_counts(images, p, images.len() as int);
}

proof fn lemma_all_jpeg_counts(images: Seq<PdfImageInfo>, p: nat, k: int)
    requires
        0 <= k <= images.len(),
        forall|i: int| 0 <= i < images.len() ==> to_lower((#[trigger] images[i]).enc@) == "jpeg"@,
    ensures
        jpegs_on(images, p, k) == images_on(images, p, k),
    decreases k,
{
    if k > 0 {
        lemma_all_jpeg_counts(images, p, k - 1);
        assert(to_lower(images[k - 1].enc@) == "jpeg"@);
    }
}

/// What `pdfinfo` reports as the page count: the first `Pages:` line whose
/// number is positive; a malformed number is an error.
pub open spec fn info_pages_from(ls: Seq<Seq<char>>, k: int) -> Result<nat, Seq<char>>
    decreases ls.len() - k,
{
    if k < 0 || k >= ls.len() {
        Err("pdfinfo の出力からページ数を取得できませんでした"@)
    } else {
        let t = trim_start(ls[k]);
        if has_prefix(t, "Pages:"@) {
            match unsigned_parse(trim(t.skip(6)), usize::MAX as nat) {
                Err(kind) => Err("ページ数の解析に失敗しました: "@ + kind.message()),
                Ok(c) => if c > 0 {
                    Ok(c)
                } else {
                    info_pages_from(ls, k + 1)
                },
            }
        } else {
            info_pages_from(ls, k + 1)
        }
    }
}

impl Pdf2ImgProcessor {
    /// Reads the page count from `pdfinfo` output for `input_pdf`.
    pub fn page_count_from_info(input_pdf: &str, stdout: &str) -> (r: Result<
        usize,
        ProcessingError,
    >)
        ensures
            match r {
                Ok(n) => info_pages_from(lines(stdout@), 0) == Ok::<nat, Seq<char>>(n as nat),
                Err(e) => e.file_path@ == input_pdf@ && info_pages_from(lines(stdout@), 0) == Err::<
                    nat,
                    Seq<char>,
                >(e.message@),
            },
    {
        let text = chars_of(stdout);
        let ls = lines_of(&text);
        let ghost lv = views(ls@);
        let mut k: usize = 0;
        while k < ls.len()
            invariant
                k <= ls.len(),
                lv == views(ls@),
                lv == lines(stdout@),
                info_pages_from(lv, 0) == info_pages_from(lv, k as int),
            decreases ls.len() - k,
        {
            assert(ls@[k as int]@ == lv[k as int]);
            let t = trim_start_chars(&ls[k]);
            if starts_with_text(&t, "Pages:") {
                proof {
                    reveal_strlit("Pages:");
                }
                let rest = slice_chars(&t, 6, t.len());
                let rest = trim_chars(&rest);
                assert(t@.skip(6) =~= t@.subrange(6, t@.len() as int));
                assert(rest@ == trim(trim_start(lv[k as int]).skip(6)));
                match unsigned_parse_chars(&rest, usize::MAX as u64) {
                    Err(kind) => {
                        let mut m = String::from_str("ページ数の解析に失敗しました: ");
                        m.append(kind.text());
                        return Err(ProcessingError { file_path: input_pdf.to_string(), message: m });
                    },
                    Ok(c) => {
                        if c > 0 {
                            return Ok(c as usize);
                        }
                    },
                }
            }
            k = k + 1;
        }
        Err(
            ProcessingError {
                file_path: input_pdf.to_string(),
                message: String::from_str("pdfinfo の出力からページ数を取得できませんでした"),
            },
        )
    }
}


// ---------------------------------------------------------------------
// Running a conversion

/// `stem_0007`: the name of page `page`'s image without extension.
pub open spec fn page_image_stem(stem: Seq<char>, page: nat) -> Seq<char> {
    let d = decimal(page);
    stem + "_"@ + (if d.len() >= 4 {
        d
    } else {
        Seq::new((4 - d.len()) as nat, |_i: int| '0') + d
    })
}

/// The name of page `page`'s image without extension.
pub fn page_image_stem_for(stem: &str, page: usize) -> (s: String)
    ensures
        s@ == page_image_stem(stem@, page as nat),
{
    let d = decimal_chars(page as u128);
    let mut v = chars_of(stem);
    push_str(&mut v, "_");
    let ghost start = v@;
    let pad: usize = if d.len() < 4 {
        4 - d.len()
    } else {
        0
    };
    let mut k: usize = 0;
    while k < pad
        invariant
            k <= pad,
            v@ == start + Seq::new(k as nat, |_i: int| '0'),
        decreases pad - k,
    {
        v.push('0');
        k = k + 1;
        assert(v@ =~= start + Seq::new(k as nat, |_i: int| '0'));
    }
    push_all(&mut v, &d);
    assert(v@ =~= page_image_stem(stem@, page as nat));
    string_of(&v)
}

/// The arguments of `pdftoppm` rendering page `page` to `prefix`.
pub open spec fn pdftoppm_args(
    input_pdf: Seq<char>,
    prefix: Seq<char>,
    page: nat,
    width: nat,
    format: OutputImageFormat,
) -> Seq<Seq<char>> {
    seq![
        "-q"@,
        "-f"@,
        decimal(page),
        "-l"@,
        decimal(page),
        "-singlefile"@,
        if format == OutputImageFormat::Jpeg {
            "-jpeg"@
        } else {
            "-png"@
        },
    ] + (if format == OutputImageFormat::Jpeg {
        seq!["-jpegopt"@, "quality=80,optimize=y,progressive=n"@]
    } else {
        Seq::empty()
    }) + seq!["-scale-to-x"@, decimal(width), "-scale-to-y"@, "-1"@, input_pdf, prefix]
}

/// The arguments of `pdftoppm` rendering one page.
pub fn pdftoppm_arguments(
    input_pdf: &str,
    prefix: &str,
    page: usize,
    width: u32,
    format: OutputImageFormat,
) -> (r: Vec<String>)
    ensures
        crate::cli::string_views(r@) == pdftoppm_args(input_pdf@, prefix@, page as nat, width as nat, format),
{
    let mut r: Vec<String> = Vec::new();
    r.push("-q".to_string());
    r.push("-f".to_string());
    r.push(string_of(&decimal_chars(page as u128)));
    r.push("-l".to_string());
    r.push(string_of(&decimal_chars(page as u128)));
    r.push("-singlefile".to_string());
    r.push(format.pdftoppm_flag().to_string());
    if format == OutputImageFormat::Jpeg {
        r.push("-jpegopt".to_string());
        r.push("quality=80,optimize=y,progressive=n".to_string());
    }
    r.push("-scale-to-x".to_string());
    r.push(string_of(&decimal_chars(width as u128)));
    r.push("-scale-to-y".to_string());
    r.push("-1".to_string());
    r.push(input_pdf.to_string());
    r.push(prefix.to_string());
    assert(crate::cli::string_views(r@) =~= pdftoppm_args(
        input_pdf@,
        prefix@,
        page as nat,
        width as nat,
        format,
    ));
    r
}

/// The format pages are rendered in when they cannot be extracted: PNG for
/// `auto`.
pub fn render_format(format: OutputImageFormat) -> (r: OutputImageFormat)
    ensures
        r == (if format == OutputImageFormat::AutoLossless {
            OutputImageFormat::Png
        } else {
            format
        }),
{
    if format == OutputImageFormat::AutoLossless {
        OutputImageFormat::Png
    } else {
        format
    }
}

/// Whether embedded JPEGs are tried first: for `auto` and `jpg`.
pub fn tries_lossless(format: OutputImageFormat) -> (r: bool)
    ensures
        r == (format != OutputImageFormat::Png),
{
    format != OutputImageFormat::Png
}

/// The number of successes among `results`.
pub open spec fn count_ok(results: Seq<Result<String, ProcessingError>>) -> nat
    decreases results.len(),
{
    if results.len() == 0 {
        0
    } else {
        count_ok(results.drop_last()) + if results.last() is Ok {
            1nat
        } else {
            0
        }
    }
}

/// The outcome of rendering every page: successes counted, errors in page
/// order, successful if any page was rendered.
pub fn rendering_result(results: Vec<Result<String, ProcessingError>>, output_folder: String) -> (r:
    ProcessingResult)
    ensures
        r.success_count == count_ok(results@),
        r.success == (r.success_count > 0),
        r.errors@ == crate::image_processor::errs(results@),
        r.error_count == r.errors@.len(),
        r.output_path@ == output_folder@,
{
    let ghost all = results@;
    assert(results.len() == results@.len());
    let mut rest = results;
    let mut count: usize = 0;
    let mut errors: Vec<ProcessingError> = Vec::new();
    let ghost mut done: int = 0;
    while rest.len() > 0
        invariant
            0 <= done <= all.len(),
            rest@ == all.skip(done),
            count == count_ok(all.take(done)),
            count <= done,
            all.len() <= usize::MAX,
            errors@ == crate::image_processor::errs(all.take(done)),
        decreases rest.len(),
    {
        let r = rest.remove(0);
        proof {
            assert(r == all[done]);
            assert(all.take(done + 1).drop_last() =~= all.take(done));
            assert(all.take(done + 1).last() == all[done]);
        }
        match r {
            Ok(_) => {
                count = count + 1;
            },
            Err(e) => errors.push(e),
        }
        proof {
            done = done + 1;
            assert(rest@ =~= all.skip(done));
        }
    }
    proof {
        assert(all.take(done) =~= all);
    }
    let n = errors.len();
    ProcessingResult {
        success: count > 0,
        success_count: count,
        error_count: n,
        errors,
        output_path: output_folder,
    }
}

/// The outcome when every page's JPEG was extracted unchanged.
pub fn extraction_result(success_count: usize, output_folder: String) -> (r: ProcessingResult)
    ensures
        r.success == (success_count > 0),
        r.success_count == success_count,
        r.error_count == 0,
        r.errors@.len() == 0,
        r.output_path@ == output_folder@,
{
    ProcessingResult {
        success: success_count > 0,
        success_count,
        error_count: 0,
        errors: Vec::new(),
        output_path: output_folder,
    }
}

} // verus!
