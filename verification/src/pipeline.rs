//! The book-scan run: its report and progress messages, the page range it
//! works on, how intermediate files are named, and when the output of an
//! earlier run can be reused.
use vstd::prelude::*;
use crate::config::{BookScanConfig, PageRange};
use crate::paths::{extension_of_name, name_part, opt_text, simple_path};
use crate::text::{
    chars_eq, chars_of, decimal, decimal_chars, is_digit, is_text, parse_unsigned, parse_unsigned_chars, push_all,
    push_str, string_of, to_lower, to_lower_chars,
};

verus! {

/// The result of a finished book-scan run.
#[derive(Debug)]
pub struct BookScanReport {
    pub page_count: usize,
    pub blank_page_count: usize,
    pub output_pdf: String,
    pub work_dir: String,
    pub elapsed: core::time::Duration,
}

/// One progress message of a book-scan run: stage `stage` of
/// `total_stages`, and items done where the stage counts them.
#[derive(Debug, Clone)]
pub struct BookScanProgress {
    pub stage: usize,
    pub total_stages: usize,
    pub message: String,
    pub completed: Option<usize>,
    pub total: Option<usize>,
}

/// Runs the book-scan pipeline.
#[derive(Debug, Clone, Copy)]
pub struct BookScanProcessor;

/// Number of stages of a run.
pub const TOTAL_STAGES: usize = 5;

/// The message that a stage has started or changed course.
pub fn stage_update(stage: usize, message: &str) -> (p: BookScanProgress)
    ensures
        p.stage == stage,
        p.total_stages == TOTAL_STAGES,
        p.message@ == message@,
        p.completed is None,
        p.total is None,
{
    BookScanProgress {
        stage,
        total_stages: TOTAL_STAGES,
        message: message.to_string(),
        completed: None,
        total: None,
    }
}

/// Percent of `total` done, with the product saturating at the largest
/// `usize`.
pub open spec fn units_percentage(completed: nat, total: nat) -> nat {
    let product = if completed * 100 > usize::MAX {
        usize::MAX as nat
    } else {
        completed * 100
    };
    product / total
}

/// `phase: completed/total (percentage%)`.
pub open spec fn units_message(phase: Seq<char>, completed: nat, total: nat) -> Seq<char> {
    phase + ": "@ + decimal(completed) + "/"@ + decimal(total) + " ("@ + decimal(
        units_percentage(completed, total),
    ) + "%)"@
}

/// The message that `completed` of `total` items of a stage are done; none
/// for an empty stage.
pub fn units_update(stage: usize, phase: &str, completed: usize, total: usize) -> (r: Option<
    BookScanProgress,
>)
    ensures
        total == 0 <==> r is None,
        r matches Some(p) ==> p.stage == stage && p.total_stages == TOTAL_STAGES && p.message@
            == units_message(phase@, completed as nat, total as nat) && p.completed == Some(
            completed,
        ) && p.total == Some(total),
{
    if total == 0 {
        return None;
    }
    let product: usize = if completed > usize::MAX / 100 {
        usize::MAX
    } else {
        completed * 100
    };
    let percentage = product / total;
    let mut m = chars_of(phase);
    push_str(&mut m, ": ");
    push_all(&mut m, &decimal_chars(completed as u128));
    push_str(&mut m, "/");
    push_all(&mut m, &decimal_chars(total as u128));
    push_str(&mut m, " (");
    push_all(&mut m, &decimal_chars(percentage as u128));
    push_str(&mut m, "%)");
    Some(
        BookScanProgress {
            stage,
            total_stages: TOTAL_STAGES,
            message: string_of(&m),
            completed: Some(completed),
            total: Some(total),
        },
    )
}

/// Reports the start of a stage to `progress`.
pub fn progress_stage<F: Fn(BookScanProgress)>(progress: &F, stage: usize, message: &str)
    requires
        forall|p: BookScanProgress| progress.requires((p,)),
    ensures
        exists|p: BookScanProgress|
            #![trigger progress.ensures((p,), ())]
            progress.ensures((p,), ()) && p.stage == stage && p.total_stages == TOTAL_STAGES
                && p.message@ == message@ && p.completed is None && p.total is None,
{
    let p = stage_update(stage, message);
    progress(p);
}

/// Reports counted progress within a stage to `progress`; nothing for an
/// empty stage.
pub fn progress_units<F: Fn(BookScanProgress)>(
    progress: &F,
    stage: usize,
    phase: &str,
    completed: usize,
    total: usize,
)
    requires
        forall|p: BookScanProgress| progress.requires((p,)),
    ensures
        total > 0 ==> exists|p: BookScanProgress|
            #![trigger progress.ensures((p,), ())]
            progress.ensures((p,), ()) && p.stage == stage && p.total_stages == TOTAL_STAGES
                && p.message@ == units_message(phase@, completed as nat, total as nat) && p.completed
                == Some(completed) && p.total == Some(total),
{
    match units_update(stage, phase, completed, total) {
        Some(p) => progress(p),
        None => {},
    }
}

// ---------------------------------------------------------------------
// Choosing pages

/// Where the pages come from: a folder of images or a PDF.
#[derive(Debug, Clone, Copy, PartialEq, Eq, Structural)]
pub enum PageSource {
    ImageFolder,
    Pdf,
}

/// The pages a run works on, given `count` available: the requested range,
/// else all of them; a range that ends past the last is refused.
pub open spec fn selected_pages(pages: Option<PageRange>, count: nat, source: PageSource) -> Result<
    PageRange,
    Seq<char>,
> {
    let range = match pages {
        Some(r) => r,
        None => PageRange { start: 1, end: count as usize },
    };
    if range.end > count {
        Err("ページ範囲"@ + decimal(range.start as nat) + "-"@ + decimal(range.end as nat) + (match source {
            PageSource::ImageFolder => "が画像数"@,
            PageSource::Pdf => "がPDFページ数"@,
        }) + decimal(count) + (match source {
            PageSource::ImageFolder => "を超えています"@,
            PageSource::Pdf => "を超えています"@,
        }))
    } else {
        Ok(range)
    }
}

/// The pages a run works on, given `count` available.
pub fn select_pages(pages: Option<PageRange>, count: usize, source: PageSource) -> (r: Result<
    PageRange,
    String,
>)
    ensures
        match r {
            Ok(p) => selected_pages(pages, count as nat, source) == Ok::<PageRange, Seq<char>>(p),
            Err(e) => selected_pages(pages, count as nat, source) == Err::<PageRange, Seq<char>>(e@),
        },
{
    let range = match pages {
        Some(r) => r,
        None => PageRange { start: 1, end: count },
    };
    if range.end > count {
        let mut m = chars_of("ページ範囲");
        push_all(&mut m, &decimal_chars(range.start as u128));
        push_str(&mut m, "-");
        push_all(&mut m, &decimal_chars(range.end as u128));
        match source {
            PageSource::ImageFolder => push_str(&mut m, "が画像数"),
            PageSource::Pdf => push_str(&mut m, "がPDFページ数"),
        }
        push_all(&mut m, &decimal_chars(count as u128));
        push_str(&mut m, "を超えています");
        Err(string_of(&m))
    } else {
        Ok(range)
    }
}

/// The message when extraction produced another number of pages than asked.
pub fn page_count_mismatch(expected: usize, actual: usize) -> (m: String)
    ensures
        m@ == "抽出ページ数が不一致です: expected="@ + decimal(expected as nat) + " actual="@
            + decimal(actual as nat),
{
    let mut v = chars_of("抽出ページ数が不一致です: expected=");
    push_all(&mut v, &decimal_chars(expected as u128));
    push_str(&mut v, " actual=");
    push_all(&mut v, &decimal_chars(actual as u128));
    string_of(&v)
}

// ---------------------------------------------------------------------
// Naming pages

/// `p` and the page number in at least four digits.
pub open spec fn page_stem(page_number: nat) -> Seq<char> {
    let d = decimal(page_number);
    "p"@ + (if d.len() >= 4 {
        d
    } else {
        Seq::new((4 - d.len()) as nat, |_i: int| '0') + d
    })
}

/// The stem of page `page_number`.
pub fn page_stem_for(page_number: usize) -> (s: String)
    ensures
        s@ == page_stem(page_number as nat),
{
    let d = decimal_chars(page_number as u128);
    let mut v = chars_of("p");
    let pad: usize = if d.len() < 4 {
        4 - d.len()
    } else {
        0
    };
    let mut k: usize = 0;
    let ghost start = v@;
    while k < pad
        invariant
            k <= pad,
            v@ == start + Seq::new(k as nat, |_i: int| '0'),
        decreases pad - k,
    {
        v.push('0');
        k = k + 1;
        assert(v@ =~= start + Seq::new(k as nat, |_i: int| '0'));
    }
    push_all(&mut v, &d);
    proof {
        if d@.len() >= 4 {
            assert(v@ =~= page_stem(page_number as nat));
        } else {
            assert(v@ =~= page_stem(page_number as nat));
        }
    }
    string_of(&v)
}

/// The file name a page is copied to: its stem and the source's extension
/// in lower case, `png` where the source has none.
pub open spec fn source_file_name(stem: Seq<char>, extension: Option<Seq<char>>) -> Seq<char> {
    stem + "."@ + match extension {
        Some(e) => to_lower(e),
        None => "png"@,
    }
}

/// The file name a page is copied to.
pub fn source_file_name_for(stem: &str, extension: &Option<String>) -> (s: String)
    ensures
        s@ == source_file_name(stem@, match extension {
            Some(e) => Some(e@),
            None => None,
        }),
{
    let mut v = chars_of(stem);
    push_str(&mut v, ".");
    match extension {
        Some(e) => {
            let l = to_lower_chars(&chars_of(e.as_str()));
            push_all(&mut v, &l);
        },
        None => push_str(&mut v, "png"),
    }
    string_of(&v)
}

/// Image extensions read as input pages.
pub open spec fn supported_extension(extension: Seq<char>) -> bool {
    let l = to_lower(extension);
    l == "jpg"@ || l == "jpeg"@ || l == "png"@ || l == "tif"@ || l == "tiff"@
}

/// Whether a file with this extension is read as an input page.
pub fn is_supported_extension(extension: &str) -> (r: bool)
    ensures
        r == supported_extension(extension@),
{
    let l = to_lower_chars(&chars_of(extension));
    is_text(&l, "jpg") || is_text(&l, "jpeg") || is_text(&l, "png") || is_text(&l, "tif")
        || is_text(&l, "tiff")
}

/// The output extensions ScanTailor may have written, in the order they are
/// looked for.
pub open spec fn output_extension(k: int) -> &'static str {
    if k == 0 {
        "tif"
    } else if k == 1 {
        "tiff"
    } else if k == 2 {
        "png"
    } else if k == 3 {
        "jpg"
    } else {
        "jpeg"
    }
}

/// The candidate names of ScanTailor's output for page `stem`, in the order
/// they are looked for.
pub open spec fn output_image_names(stem: Seq<char>) -> Seq<Seq<char>> {
    Seq::new(5, |k: int| stem + "."@ + output_extension(k)@)
}

/// The candidate names of ScanTailor's output for page `stem`.
pub fn output_image_candidates(stem: &str) -> (r: Vec<String>)
    ensures
        r@.len() == 5,
        forall|k: int| 0 <= k < 5 ==> #[trigger] r@[k]@ == output_image_names(stem@)[k],
{
    let mut r: Vec<String> = Vec::new();
    let exts = ["tif", "tiff", "png", "jpg", "jpeg"];
    let mut k: usize = 0;
    while k < 5
        invariant
            k <= 5,
            r@.len() == k,
            exts@ == seq!["tif", "tiff", "png", "jpg", "jpeg"],
            forall|j: int| 0 <= j < k ==> #[trigger] r@[j]@ == output_image_names(stem@)[j],
        decreases 5 - k,
    {
        let mut v = chars_of(stem);
        push_str(&mut v, ".");
        push_str(&mut v, exts[k]);
        assert(exts@[k as int] == output_extension(k as int));
        r.push(string_of(&v));
        k = k + 1;
    }
    r
}

/// The intermediate folders removed after a successful run.
pub fn intermediate_folders() -> (r: Vec<&'static str>)
    ensures
        r@ == seq![
            "source",
            "scantailor-input",
            "scantailor",
            "preprocessed",
            "ai-input",
            "ai-output",
            "jpeg",
            "realesrgan-batches",
        ],
{
    let mut r: Vec<&'static str> = Vec::new();
    r.push("source");
    r.push("scantailor-input");
    r.push("scantailor");
    r.push("preprocessed");
    r.push("ai-input");
    r.push("ai-output");
    r.push("jpeg");
    r.push("realesrgan-batches");
    r
}


// ---------------------------------------------------------------------
// Natural order of file names

/// The ASCII digits of `s`, in order.
pub open spec fn keep_digits(s: Seq<char>) -> Seq<char>
    decreases s.len(),
{
    if s.len() == 0 {
        Seq::empty()
    } else if is_digit(s.last()) {
        keep_digits(s.drop_last()).push(s.last())
    } else {
        keep_digits(s.drop_last())
    }
}

/// The number that orders a file name: all its digits read as one `u64`,
/// 0 where there are none or they do not fit.
pub open spec fn name_number(name: Seq<char>) -> nat {
    match parse_unsigned(keep_digits(name), u64::MAX as nat) {
        Some(n) => n,
        None => 0,
    }
}

/// The sort key of a file name: its number, then the name in lower case.
pub fn natural_key_of_name(name: &str) -> (r: (u64, String))
    ensures
        r.0 == name_number(to_lower(name@)),
        r.1@ == to_lower(name@),
{
    let lower = to_lower_chars(&chars_of(name));
    let mut digits: Vec<char> = Vec::new();
    let mut i: usize = 0;
    while i < lower.len()
        invariant
            i <= lower.len(),
            digits@ == keep_digits(lower@.take(i as int)),
        decreases lower.len() - i,
    {
        let c = lower[i];
        if '0' <= c && c <= '9' {
            digits.push(c);
        }
        i = i + 1;
        assert(lower@.take(i as int).drop_last() =~= lower@.take(i - 1));
    }
    assert(lower@.take(i as int) =~= lower@);
    let n = match parse_unsigned_chars(&digits, u64::MAX) {
        Some(n) => n,
        None => 0,
    };
    (n, string_of(&lower))
}

/// `std::path::Path::file_name` of `path`, as text (empty where it has
/// none). For a plain path it is the last component (`name_part`); for
/// other paths the platform's rules decide, and nothing is stated.
#[verifier::external_body]
fn path_file_name(path: &str) -> (r: String)
    ensures
        simple_path(path@) ==> r@ == name_part(path@),
{
    std::path::Path::new(path).file_name().and_then(|s| s.to_str()).unwrap_or_default().to_string()
}

/// `e` is a piece of `path` right after a dot, holding no dot itself.
pub open spec fn after_dot(path: Seq<char>, e: Seq<char>) -> bool {
    &&& !e.contains('.')
    &&& exists|i: int|
        0 <= i && i + 1 + e.len() <= path.len() && #[trigger] path[i] == '.' && path.subrange(
            i + 1,
            i + 1 + e.len(),
        ) == e
}

/// `std::path::Path::extension` of `path`, as text. Documented: the part of
/// the file name (a piece of the path) after its last dot, so a piece of
/// the path right after a dot, holding no dot; none where the name has no
/// dot or only a leading one. For a plain path that is
/// `extension_of_name` of its last component; for other paths where the
/// file name ends is the platform's to decide.
#[verifier::external_body]
pub(crate) fn path_extension(path: &str) -> (r: Option<String>)
    ensures
        r matches Some(e) ==> after_dot(path@, e@),
        simple_path(path@) ==> opt_text(r) == extension_of_name(name_part(path@)),
{
    std::path::Path::new(path).extension().and_then(|s| s.to_str()).map(|s| s.to_string())
}

/// The sort key of a path: that of its file name.
pub fn natural_key(path: &str) -> (r: (u64, String))
    ensures
        exists|name: Seq<char>| r.0 == name_number(to_lower(name)) && r.1@ == to_lower(name),
        simple_path(path@) ==> r.0 == name_number(to_lower(name_part(path@))) && r.1@ == to_lower(
            name_part(path@),
        ),
{
    let name = path_file_name(path);
    natural_key_of_name(name.as_str())
}

/// Whether a path names an input image: by its extension, which the
/// platform's path rules find (see `is_supported_extension` for the rule).
pub fn is_supported_image(path: &str) -> (r: bool)
    ensures
        r ==> exists|e: Seq<char>| after_dot(path@, e) && supported_extension(e),
        simple_path(path@) ==> r == (extension_of_name(name_part(path@)) matches Some(x)
            && supported_extension(x)),
{
    match path_extension(path) {
        Some(e) => is_supported_extension(e.as_str()),
        None => false,
    }
}


// ---------------------------------------------------------------------
// Resuming

/// Two configurations ask for the same work: every setting held here is
/// equal except `resume` and `keep_work` (the real-valued settings are
/// compared beside this).
pub open spec fn same_work(a: BookScanConfig, b: BookScanConfig) -> bool {
    &&& a.input_path@ == b.input_path@
    &&& a.output_pdf@ == b.output_pdf@
    &&& a.superres_model@ == b.superres_model@
    &&& opt_text(a.work_dir) == opt_text(b.work_dir)
    &&& opt_text(a.scantailor_path) == opt_text(b.scantailor_path)
    &&& opt_text(a.realesrgan_path) == opt_text(b.realesrgan_path)
    &&& opt_text(a.realesrgan_model_dir) == opt_text(b.realesrgan_model_dir)
    &&& a.pages == b.pages
    &&& a.crop_exclude_pages@ == b.crop_exclude_pages@
    &&& a.ink_neutralization_exclude_pages@ == b.ink_neutralization_exclude_pages@
    &&& a.tone_exclude_pages@ == b.tone_exclude_pages@
    &&& a.grayscale_pages@ == b.grayscale_pages@
    &&& a.blank_detection_enabled == b.blank_detection_enabled
    &&& a.scantailor_enabled == b.scantailor_enabled
    &&& a.crop_enabled == b.crop_enabled
    &&& a.normalize_illumination == b.normalize_illumination
    &&& a.color_normalization_enabled == b.color_normalization_enabled
    &&& a.ink_neutralization_enabled == b.ink_neutralization_enabled
    &&& a.deskew_enabled == b.deskew_enabled
    &&& a.dewarp_enabled == b.dewarp_enabled
    &&& a.tta_enabled == b.tta_enabled
    &&& a.stroke_enabled == b.stroke_enabled
    &&& a.tone_boost_enabled == b.tone_boost_enabled
    &&& a.pre_stroke_enabled == b.pre_stroke_enabled
    &&& a.preserve_position == b.preserve_position
    &&& a.blank_dark_delta == b.blank_dark_delta
    &&& a.blank_edge_threshold == b.blank_edge_threshold
    &&& a.color_normalization_strength == b.color_normalization_strength
    &&& a.color_normalization_radius == b.color_normalization_radius
    &&& a.ink_neutralization_strength == b.ink_neutralization_strength
    &&& a.dpi == b.dpi
    &&& a.output_dpi == b.output_dpi
    &&& a.superres_output_scale == b.superres_output_scale
    &&& a.superres_ai_scale == b.superres_ai_scale
    &&& a.gpu_workers == b.gpu_workers
    &&& a.cpu_workers == b.cpu_workers
    &&& a.tile_size == b.tile_size
    &&& a.gpu_id == b.gpu_id
    &&& a.stroke_strength == b.stroke_strength
    &&& a.tone_boost_strength == b.tone_boost_strength
    &&& a.partial_grayscale_strength == b.partial_grayscale_strength
    &&& a.pre_stroke_strength == b.pre_stroke_strength
    &&& a.jpeg_quality == b.jpeg_quality
    &&& a.super_resolution == b.super_resolution
    &&& a.partial_grayscale == b.partial_grayscale
    &&& a.jpeg_sampling == b.jpeg_sampling
}

/// Resuming compares the work, not how the run is kept: the same settings
/// match themselves, matching goes both ways, and changing only `resume`
/// and `keep_work` never changes whether two settings match.
pub proof fn lemma_resume_match_ignores_run_flags(
    a: BookScanConfig,
    b: BookScanConfig,
    resume: bool,
    keep_work: bool,
)
    ensures
        same_work(a, a),
        same_work(a, b) == same_work(b, a),
        same_work(a, b) == same_work(BookScanConfig { resume, keep_work, ..a }, b),
{
}

/// A saved run is reused only for the very same work: when two settings
/// match, they agree on every setting but `resume` and `keep_work`, each
/// taken one by one (paths, page lists, switches, strengths, scales,
/// workers, modes and the output format).
pub proof fn lemma_resume_match_means_same_settings(a: BookScanConfig, b: BookScanConfig)
    requires
        same_work(a, b),
    ensures
        a.input_path@ == b.input_path@,
        a.output_pdf@ == b.output_pdf@,
        a.superres_model@ == b.superres_model@,
        opt_text(a.work_dir) == opt_text(b.work_dir),
        opt_text(a.scantailor_path) == opt_text(b.scantailor_path),
        opt_text(a.realesrgan_path) == opt_text(b.realesrgan_path),
        opt_text(a.realesrgan_model_dir) == opt_text(b.realesrgan_model_dir),
        a.pages == b.pages,
        a.crop_exclude_pages@ == b.crop_exclude_pages@,
        a.ink_neutralization_exclude_pages@ == b.ink_neutralization_exclude_pages@,
        a.tone_exclude_pages@ == b.tone_exclude_pages@,
        a.grayscale_pages@ == b.grayscale_pages@,
        a.blank_detection_enabled == b.blank_detection_enabled,
        a.scantailor_enabled == b.scantailor_enabled,
        a.crop_enabled == b.crop_enabled,
        a.normalize_illumination == b.normalize_illumination,
        a.color_normalization_enabled == b.color_normalization_enabled,
        a.ink_neutralization_enabled == b.ink_neutralization_enabled,
        a.deskew_enabled == b.deskew_enabled,
        a.dewarp_enabled == b.dewarp_enabled,
        a.tta_enabled == b.tta_enabled,
        a.stroke_enabled == b.stroke_enabled,
        a.tone_boost_enabled == b.tone_boost_enabled,
        a.pre_stroke_enabled == b.pre_stroke_enabled,
        a.preserve_position == b.preserve_position,
        a.blank_dark_delta == b.blank_dark_delta,
        a.blank_edge_threshold == b.blank_edge_threshold,
        a.color_normalization_strength == b.color_normalization_strength,
        a.color_normalization_radius == b.color_normalization_radius,
        a.ink_neutralization_strength == b.ink_neutralization_strength,
        a.dpi == b.dpi,
        a.output_dpi == b.output_dpi,
        a.superres_output_scale == b.superres_output_scale,
        a.superres_ai_scale == b.superres_ai_scale,
        a.gpu_workers == b.gpu_workers,
        a.cpu_workers == b.cpu_workers,
        a.tile_size == b.tile_size,
        a.gpu_id == b.gpu_id,
        a.stroke_strength == b.stroke_strength,
        a.tone_boost_strength == b.tone_boost_strength,
        a.partial_grayscale_strength == b.partial_grayscale_strength,
        a.pre_stroke_strength == b.pre_stroke_strength,
        a.jpeg_quality == b.jpeg_quality,
        a.super_resolution == b.super_resolution,
        a.partial_grayscale == b.partial_grayscale,
        a.jpeg_sampling == b.jpeg_sampling,
{
}

fn same_optional(a: &Option<String>, b: &Option<String>) -> (r: bool)
    ensures
        r == (opt_text(*a) == opt_text(*b)),
{
    match (a, b) {
        (Some(x), Some(y)) => chars_eq(&chars_of(x.as_str()), &chars_of(y.as_str())),
        (None, None) => true,
        _ => false,
    }
}

fn same_ranges(a: &Vec<PageRange>, b: &Vec<PageRange>) -> (r: bool)
    ensures
        r == (a@ == b@),
{
    if a.len() != b.len() {
        return false;
    }
    let mut i: usize = 0;
    while i < a.len()
        invariant
            i <= a.len() == b.len(),
            forall|j: int| 0 <= j < i ==> a@[j] == b@[j],
        decreases a.len() - i,
    {
        if a[i] != b[i] {
            return false;
        }
        i = i + 1;
    }
    assert(a@ =~= b@);
    true
}

/// Whether a saved run's configuration asks for the same work as the
/// requested one, so that its intermediate files can be reused.
pub fn configs_match_for_resume(saved: &BookScanConfig, requested: &BookScanConfig) -> (r: bool)
    ensures
        r == same_work(*saved, *requested),
{
    let a = saved;
    let b = requested;
    chars_eq(&chars_of(a.input_path.as_str()), &chars_of(b.input_path.as_str()))
        && chars_eq(&chars_of(a.output_pdf.as_str()), &chars_of(b.output_pdf.as_str()))
        && chars_eq(&chars_of(a.superres_model.as_str()), &chars_of(b.superres_model.as_str()))
        && same_optional(&a.work_dir, &b.work_dir)
        && same_optional(&a.scantailor_path, &b.scantailor_path)
        && same_optional(&a.realesrgan_path, &b.realesrgan_path)
        && same_optional(&a.realesrgan_model_dir, &b.realesrgan_model_dir)
        && a.pages == b.pages
        && same_ranges(&a.crop_exclude_pages, &b.crop_exclude_pages)
        && same_ranges(&a.ink_neutralization_exclude_pages, &b.ink_neutralization_exclude_pages)
        && same_ranges(&a.tone_exclude_pages, &b.tone_exclude_pages)
        && same_ranges(&a.grayscale_pages, &b.grayscale_pages)
        && a.blank_detection_enabled == b.blank_detection_enabled
        && a.scantailor_enabled == b.scantailor_enabled
        && a.crop_enabled == b.crop_enabled
        && a.normalize_illumination == b.normalize_illumination
        && a.color_normalization_enabled == b.color_normalization_enabled
        && a.ink_neutralization_enabled == b.ink_neutralization_enabled
        && a.deskew_enabled == b.deskew_enabled
        && a.dewarp_enabled == b.dewarp_enabled
        && a.tta_enabled == b.tta_enabled
        && a.stroke_enabled == b.stroke_enabled
        && a.tone_boost_enabled == b.tone_boost_enabled
        && a.pre_stroke_enabled == b.pre_stroke_enabled
        && a.preserve_position == b.preserve_position
        && a.blank_dark_delta == b.blank_dark_delta
        && a.blank_edge_threshold == b.blank_edge_threshold
        && a.color_normalization_strength == b.color_normalization_strength
        && a.color_normalization_radius == b.color_normalization_radius
        && a.ink_neutralization_strength == b.ink_neutralization_strength
        && a.dpi == b.dpi
        && a.output_dpi == b.output_dpi
        && a.superres_output_scale == b.superres_output_scale
        && a.superres_ai_scale == b.superres_ai_scale
        && a.gpu_workers == b.gpu_workers
        && a.cpu_workers == b.cpu_workers
        && a.tile_size == b.tile_size
        && a.gpu_id == b.gpu_id
        && a.stroke_strength == b.stroke_strength
        && a.tone_boost_strength == b.tone_boost_strength
        && a.partial_grayscale_strength == b.partial_grayscale_strength
        && a.pre_stroke_strength == b.pre_stroke_strength
        && a.jpeg_quality == b.jpeg_quality
        && a.super_resolution == b.super_resolution
        && a.partial_grayscale == b.partial_grayscale
        && a.jpeg_sampling == b.jpeg_sampling
}


// ---------------------------------------------------------------------
// Extracting a PDF's pages

/// `pdfimages` extracting the embedded JPEGs of pages `range` of `input`
/// as they are, each file named after `prefix` and its page.
pub open spec fn pdfimages_args(range: PageRange, input: Seq<char>, prefix: Seq<char>) -> Seq<Seq<char>> {
    seq!["-f"@, decimal(range.start as nat), "-l"@, decimal(range.end as nat), "-j"@, "-p"@, input, prefix]
}

/// The arguments of `pdfimages` for the book-scan extraction.
pub fn pdfimages_arguments(range: PageRange, input: &str, prefix: &str) -> (r: Vec<String>)
    ensures
        crate::cli::string_views(r@) == pdfimages_args(range, input@, prefix@),
{
    let mut r: Vec<String> = Vec::new();
    r.push("-f".to_string());
    r.push(string_of(&decimal_chars(range.start as u128)));
    r.push("-l".to_string());
    r.push(string_of(&decimal_chars(range.end as u128)));
    r.push("-j".to_string());
    r.push("-p".to_string());
    r.push(input.to_string());
    r.push(prefix.to_string());
    assert(crate::cli::string_views(r@) =~= pdfimages_args(range, input@, prefix@));
    r
}

/// `pdftoppm` rendering pages `range` of `input` as JPEG at `dpi`, the
/// files named after `prefix`.
pub open spec fn book_pdftoppm_args(range: PageRange, dpi: u32, input: Seq<char>, prefix: Seq<char>) -> Seq<
    Seq<char>,
> {
    seq![
        "-f"@,
        decimal(range.start as nat),
        "-l"@,
        decimal(range.end as nat),
        "-r"@,
        decimal(dpi as nat),
        "-jpeg"@,
        input,
        prefix,
    ]
}

/// The arguments of `pdftoppm` when the book-scan extraction renders.
pub fn book_pdftoppm_arguments(range: PageRange, dpi: u32, input: &str, prefix: &str) -> (r: Vec<String>)
    ensures
        crate::cli::string_views(r@) == book_pdftoppm_args(range, dpi, input@, prefix@),
{
    let mut r: Vec<String> = Vec::new();
    r.push("-f".to_string());
    r.push(string_of(&decimal_chars(range.start as u128)));
    r.push("-l".to_string());
    r.push(string_of(&decimal_chars(range.end as u128)));
    r.push("-r".to_string());
    r.push(string_of(&decimal_chars(dpi as u128)));
    r.push("-jpeg".to_string());
    r.push(input.to_string());
    r.push(prefix.to_string());
    assert(crate::cli::string_views(r@) =~= book_pdftoppm_args(range, dpi, input@, prefix@));
    r
}

/// An extension naming a JPEG file: `jpg` or `jpeg`, in any ASCII case.
pub open spec fn jpeg_extension(extension: Option<Seq<char>>) -> bool {
    extension matches Some(e) && (to_lower(e) == "jpg"@ || to_lower(e) == "jpeg"@)
}

/// The positions, in order, of the first `n` files whose extension names a
/// JPEG.
pub open spec fn jpeg_positions(extensions: Seq<Option<Seq<char>>>, n: int) -> Seq<usize>
    decreases n,
{
    if n <= 0 {
        Seq::empty()
    } else {
        jpeg_positions(extensions, n - 1) + if jpeg_extension(extensions[n - 1]) {
            seq![(n - 1) as usize]
        } else {
            Seq::empty()
        }
    }
}

/// The texts of optional strings.
pub open spec fn opt_texts(v: Seq<Option<String>>) -> Seq<Option<Seq<char>>> {
    v.map_values(|o: Option<String>| opt_text(o))
}

/// Which of the files `pdfimages` wrote (given by their extensions) are the
/// extracted JPEGs.
pub fn extracted_jpegs(extensions: &Vec<Option<String>>) -> (r: Vec<usize>)
    ensures
        r@ == jpeg_positions(opt_texts(extensions@), extensions@.len() as int),
{
    let ghost e = opt_texts(extensions@);
    let mut r: Vec<usize> = Vec::new();
    let mut i: usize = 0;
    while i < extensions.len()
        invariant
            i <= extensions.len(),
            e == opt_texts(extensions@),
            r@ == jpeg_positions(e, i as int),
        decreases extensions.len() - i,
    {
        let is_jpeg = match &extensions[i] {
            Some(x) => {
                let l = to_lower_chars(&chars_of(x.as_str()));
                is_text(&l, "jpg") || is_text(&l, "jpeg")
            },
            None => false,
        };
        assert(e[i as int] == opt_text(extensions@[i as int]));
        if is_jpeg {
            r.push(i);
        }
        i = i + 1;
        assert(r@ =~= jpeg_positions(e, i as int));
    }
    r
}

/// Whether the extraction falls back to rendering every page: when the
/// number of JPEGs extracted is not the number of pages asked for.
pub fn needs_render_fallback(found: usize, expected: usize) -> (r: bool)
    ensures
        r == (found != expected),
{
    found != expected
}

} // verus!
