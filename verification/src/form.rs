//! The book-scan settings form: the texts and switches a user filled in,
//! read into settings field by field, the first field that does not read
//! giving the complaint.
use vstd::prelude::*;
use crate::cli::RealOptionTexts;
use crate::config::{BookScanConfig, JpegSampling, PageRange, PartialGrayscaleMode, SuperResolutionMode};
use crate::text::{
    chars_of, float_literal, is_float_literal, parse_i32_chars, parse_i32_spec, parse_unsigned,
    parse_unsigned_chars, push_str, string_of, trim, trim_chars,
};

verus! {

/// What the form holds: each entry's text, each switch, and the index chosen
/// in each of the two choice lists.
#[derive(Debug, Clone)]
pub struct BookScanForm {
    pub input_path: String,
    pub output_path: String,
    pub work_dir: String,
    pub pages: String,
    pub blank_detection: bool,
    pub blank_dark_delta: String,
    pub blank_max_dark: String,
    pub blank_edge_threshold: String,
    pub blank_max_edge: String,
    pub scantailor_enabled: bool,
    pub crop_enabled: bool,
    pub crop_exclude_pages: String,
    pub normalize: bool,
    pub color_normalize: bool,
    pub color_normalize_strength: String,
    pub color_normalize_radius: String,
    pub ink_neutralize: bool,
    pub ink_neutralize_strength: String,
    pub ink_neutralize_exclude_pages: String,
    pub deskew: bool,
    pub dewarp: bool,
    pub margins: String,
    pub dpi: String,
    pub output_dpi: String,
    pub despeckle: String,
    pub tolerance: String,
    /// 0 off, 2 lanczos, anything else anime.
    pub superres: i32,
    pub output_scale: String,
    pub ai_scale: String,
    pub model: String,
    pub gpu_workers: String,
    pub cpu_workers: String,
    pub tile: String,
    pub gpu_id: String,
    pub tta: bool,
    pub stroke_enabled: bool,
    pub stroke_strength: String,
    pub tone_boost: bool,
    pub tone_boost_strength: String,
    pub tone_global_threshold: String,
    pub tone_tile_threshold: String,
    pub tone_exclude_pages: String,
    pub grayscale_pages: String,
    pub pre_stroke: bool,
    pub pre_stroke_strength: String,
    pub jpeg_quality: String,
    /// 1 is 4:2:2, 2 is 4:2:0, anything else 4:4:4.
    pub sampling: i32,
    pub preserve_position: bool,
    pub scantailor_path: String,
    pub realesrgan_path: String,
    pub model_dir: String,
    pub resume: bool,
    pub keep_work: bool,
}

/// How a field's text is read.
#[derive(Debug, Clone, Copy, PartialEq, Eq, Structural)]
pub enum FieldKind {
    /// A page range, or blank for none.
    Pages,
    U8,
    U32,
    Usize,
    I32,
    /// A real number, kept as text.
    Real,
    /// A list of page ranges, blank for none.
    List,
}

/// Number of fields that are read from text.
pub const FIELD_COUNT: usize = 29;

/// The text of read field `k`, in the order the fields are read.
pub open spec fn field_text(f: BookScanForm, k: int) -> Seq<char> {
    if k == 0 { f.pages@ }
    else if k == 1 { f.blank_dark_delta@ }
    else if k == 2 { f.blank_max_dark@ }
    else if k == 3 { f.blank_edge_threshold@ }
    else if k == 4 { f.blank_max_edge@ }
    else if k == 5 { f.crop_exclude_pages@ }
    else if k == 6 { f.color_normalize_strength@ }
    else if k == 7 { f.color_normalize_radius@ }
    else if k == 8 { f.ink_neutralize_strength@ }
    else if k == 9 { f.ink_neutralize_exclude_pages@ }
    else if k == 10 { f.margins@ }
    else if k == 11 { f.dpi@ }
    else if k == 12 { f.output_dpi@ }
    else if k == 13 { f.despeckle@ }
    else if k == 14 { f.tolerance@ }
    else if k == 15 { f.output_scale@ }
    else if k == 16 { f.ai_scale@ }
    else if k == 17 { f.gpu_workers@ }
    else if k == 18 { f.cpu_workers@ }
    else if k == 19 { f.tile@ }
    else if k == 20 { f.gpu_id@ }
    else if k == 21 { f.stroke_strength@ }
    else if k == 22 { f.tone_boost_strength@ }
    else if k == 23 { f.tone_global_threshold@ }
    else if k == 24 { f.tone_tile_threshold@ }
    else if k == 25 { f.tone_exclude_pages@ }
    else if k == 26 { f.grayscale_pages@ }
    else if k == 27 { f.pre_stroke_strength@ }
    else { f.jpeg_quality@ }
}

/// How read field `k` is read, and the name its complaint uses (for page
/// fields, the whole complaint).
pub open spec fn field_spec(k: int) -> (FieldKind, Seq<char>) {
    if k == 0 { (FieldKind::Pages, "ページ範囲が不正です"@) }
    else if k == 1 { (FieldKind::U8, "空白判定dark差"@) }
    else if k == 2 { (FieldKind::Real, "空白判定最大dark比"@) }
    else if k == 3 { (FieldKind::U8, "空白判定edge輝度差"@) }
    else if k == 4 { (FieldKind::Real, "空白判定最大edge比"@) }
    else if k == 5 { (FieldKind::List, "crop除外ページが不正です"@) }
    else if k == 6 { (FieldKind::U8, "カラー紙面補正の強さ"@) }
    else if k == 7 { (FieldKind::U32, "カラー紙面補正の半径"@) }
    else if k == 8 { (FieldKind::U8, "黒インク色差補正の強さ"@) }
    else if k == 9 { (FieldKind::List, "黒インク色差補正の除外ページが不正です"@) }
    else if k == 10 { (FieldKind::Real, "余白"@) }
    else if k == 11 { (FieldKind::U32, "入力DPI"@) }
    else if k == 12 { (FieldKind::U32, "出力DPI"@) }
    else if k == 13 { (FieldKind::Real, "despeckle"@) }
    else if k == 14 { (FieldKind::Real, "ページ検出tolerance"@) }
    else if k == 15 { (FieldKind::U32, "最終画像倍率"@) }
    else if k == 16 { (FieldKind::U32, "AI内部倍率"@) }
    else if k == 17 { (FieldKind::Usize, "GPU worker数"@) }
    else if k == 18 { (FieldKind::Usize, "CPU worker数"@) }
    else if k == 19 { (FieldKind::U32, "tile size"@) }
    else if k == 20 { (FieldKind::I32, "GPU ID"@) }
    else if k == 21 { (FieldKind::U8, "文字太さ"@) }
    else if k == 22 { (FieldKind::U8, "tone boostの強さ"@) }
    else if k == 23 { (FieldKind::Real, "全体カラー閾値"@) }
    else if k == 24 { (FieldKind::Real, "局所カラー閾値"@) }
    else if k == 25 { (FieldKind::List, "tone補正の除外ページが不正です"@) }
    else if k == 26 { (FieldKind::List, "全体gray指定ページが不正です"@) }
    else if k == 27 { (FieldKind::U8, "超解像前の線補強"@) }
    else { (FieldKind::U8, "JPEG品質"@) }
}

/// Whether `t` reads as a field of this kind: numbers as std's parser reads
/// the trimmed text, page ranges as the page-range parser reads them.
pub open spec fn text_reads(kind: FieldKind, t: Seq<char>) -> bool {
    match kind {
        FieldKind::Pages => trim(t).len() == 0 || PageRange::from_text(t) is Some,
        FieldKind::U8 => parse_unsigned(trim(t), 0xff) is Some,
        FieldKind::U32 => parse_unsigned(trim(t), 0xffff_ffff) is Some,
        FieldKind::Usize => parse_unsigned(trim(t), usize::MAX as nat) is Some,
        FieldKind::I32 => parse_i32_spec(trim(t)) is Some,
        FieldKind::Real => float_literal(trim(t)),
        FieldKind::List => PageRange::list_from_text(t) is Some,
    }
}

/// The complaint about a field that does not read: the page fields' own
/// message, else `<name>の値が不正です: <text>`.
pub open spec fn complaint(kind: FieldKind, name: Seq<char>, t: Seq<char>) -> Seq<char> {
    match kind {
        FieldKind::Pages | FieldKind::List => name,
        _ => name + "の値が不正です: "@ + t,
    }
}

/// The complaint about the first field from `k` on that does not read.
pub open spec fn first_problem(f: BookScanForm, k: int) -> Option<Seq<char>>
    decreases FIELD_COUNT - k,
{
    if k < 0 || k >= FIELD_COUNT {
        None
    } else if !text_reads(field_spec(k).0, field_text(f, k)) {
        Some(complaint(field_spec(k).0, field_spec(k).1, field_text(f, k)))
    } else {
        first_problem(f, k + 1)
    }
}

/// What is wrong with the form: no input or output, else the first field
/// that does not read.
pub open spec fn form_problem(f: BookScanForm) -> Option<Seq<char>> {
    if trim(f.input_path@).len() == 0 || trim(f.output_path@).len() == 0 {
        Some("入力と出力PDFを指定してください"@)
    } else {
        first_problem(f, 0)
    }
}

/// The number in a text that reads as one no larger than `max`.
pub open spec fn number_in(t: Seq<char>, max: nat) -> nat {
    match parse_unsigned(trim(t), max) {
        Some(n) => n,
        None => 0,
    }
}

/// A path entry: the trimmed text, none when blank.
pub open spec fn optional_text(t: Seq<char>) -> Option<Seq<char>> {
    if trim(t).len() == 0 {
        None
    } else {
        Some(trim(t))
    }
}

pub open spec fn opt_view(s: Option<String>) -> Option<Seq<char>> {
    match s {
        Some(t) => Some(t@),
        None => None,
    }
}

/// Settings read from a form: the library's settings and the texts of the
/// real-valued ones.
#[derive(Debug, Clone)]
pub struct FormSettings {
    pub config: BookScanConfig,
    pub reals: RealOptionTexts,
}

/// The super-resolution mode a choice index stands for.
pub open spec fn superres_choice(i: i32) -> SuperResolutionMode {
    if i == 0 {
        SuperResolutionMode::Off
    } else if i == 2 {
        SuperResolutionMode::Lanczos
    } else {
        SuperResolutionMode::Anime
    }
}

/// The JPEG sampling a choice index stands for.
pub open spec fn sampling_choice(i: i32) -> JpegSampling {
    if i == 1 {
        JpegSampling::S422
    } else if i == 2 {
        JpegSampling::S420
    } else {
        JpegSampling::S444
    }
}

/// `s` holds what form `f` says, for a form without problems.
pub open spec fn read_from(f: BookScanForm, s: FormSettings) -> bool {
    let c = s.config;
    let scan = f.scantailor_enabled;
    &&& c.input_path@ == trim(f.input_path@)
    &&& c.output_pdf@ == trim(f.output_path@)
    &&& opt_view(c.work_dir) == optional_text(f.work_dir@)
    &&& c.pages == (if trim(f.pages@).len() == 0 {
        None
    } else {
        PageRange::from_text(f.pages@)
    })
    &&& c.blank_detection_enabled == f.blank_detection
    &&& c.blank_dark_delta == number_in(f.blank_dark_delta@, 0xff)
    &&& c.blank_edge_threshold == number_in(f.blank_edge_threshold@, 0xff)
    &&& c.scantailor_enabled == scan
    &&& c.crop_enabled == (scan && f.crop_enabled)
    &&& PageRange::list_from_text(f.crop_exclude_pages@) == Some(c.crop_exclude_pages@)
    &&& c.normalize_illumination == (scan && f.normalize)
    &&& c.color_normalization_enabled == f.color_normalize
    &&& c.color_normalization_strength == number_in(f.color_normalize_strength@, 0xff)
    &&& c.color_normalization_radius == number_in(f.color_normalize_radius@, 0xffff_ffff)
    &&& c.ink_neutralization_enabled == f.ink_neutralize
    &&& c.ink_neutralization_strength == number_in(f.ink_neutralize_strength@, 0xff)
    &&& PageRange::list_from_text(f.ink_neutralize_exclude_pages@) == Some(
        c.ink_neutralization_exclude_pages@,
    )
    &&& c.deskew_enabled == (scan && f.deskew)
    &&& c.dewarp_enabled == (scan && f.dewarp)
    &&& c.dpi == number_in(f.dpi@, 0xffff_ffff)
    &&& c.output_dpi == number_in(f.output_dpi@, 0xffff_ffff)
    &&& c.super_resolution == superres_choice(f.superres)
    &&& c.superres_output_scale == (if superres_choice(f.superres) == SuperResolutionMode::Off {
        1
    } else {
        number_in(f.output_scale@, 0xffff_ffff)
    })
    &&& c.superres_ai_scale == number_in(f.ai_scale@, 0xffff_ffff)
    &&& c.superres_model@ == f.model@
    &&& c.gpu_workers == number_in(f.gpu_workers@, usize::MAX as nat)
    &&& c.cpu_workers == number_in(f.cpu_workers@, usize::MAX as nat)
    &&& c.tile_size == number_in(f.tile@, 0xffff_ffff)
    &&& parse_i32_spec(trim(f.gpu_id@)) == Some(c.gpu_id as int)
    &&& c.tta_enabled == f.tta
    &&& c.stroke_enabled == f.stroke_enabled
    &&& c.stroke_strength == number_in(f.stroke_strength@, 0xff)
    &&& c.tone_boost_enabled == f.tone_boost
    &&& c.tone_boost_strength == number_in(f.tone_boost_strength@, 0xff)
    &&& c.partial_grayscale == PartialGrayscaleMode::Off
    &&& c.partial_grayscale_strength == 100
    &&& PageRange::list_from_text(f.tone_exclude_pages@) == Some(c.tone_exclude_pages@)
    &&& PageRange::list_from_text(f.grayscale_pages@) == Some(c.grayscale_pages@)
    &&& c.pre_stroke_enabled == f.pre_stroke
    &&& c.pre_stroke_strength == number_in(f.pre_stroke_strength@, 0xff)
    &&& c.jpeg_quality == number_in(f.jpeg_quality@, 0xff)
    &&& c.jpeg_sampling == sampling_choice(f.sampling)
    &&& c.preserve_position == f.preserve_position
    &&& opt_view(c.scantailor_path) == optional_text(f.scantailor_path@)
    &&& opt_view(c.realesrgan_path) == optional_text(f.realesrgan_path@)
    &&& opt_view(c.realesrgan_model_dir) == optional_text(f.model_dir@)
    &&& c.resume == f.resume
    &&& c.keep_work == f.keep_work
    &&& opt_view(s.reals.margins) == Some(trim(f.margins@))
    &&& opt_view(s.reals.blank_max_dark_ratio) == Some(trim(f.blank_max_dark@))
    &&& opt_view(s.reals.blank_max_edge_ratio) == Some(trim(f.blank_max_edge@))
    &&& opt_view(s.reals.despeckle) == Some(trim(f.despeckle@))
    &&& opt_view(s.reals.page_detection_tolerance) == Some(trim(f.tolerance@))
    &&& opt_view(s.reals.tone_color_global_threshold) == Some(trim(f.tone_global_threshold@))
    &&& opt_view(s.reals.tone_color_tile_threshold) == Some(trim(f.tone_tile_threshold@))
}

// ---------------------------------------------------------------------
// Reading the form

fn field_at(f: &BookScanForm, k: usize) -> (r: &String)
    requires
        k < FIELD_COUNT,
    ensures
        r@ == field_text(*f, k as int),
{
    if k == 0 { &f.pages }
    else if k == 1 { &f.blank_dark_delta }
    else if k == 2 { &f.blank_max_dark }
    else if k == 3 { &f.blank_edge_threshold }
    else if k == 4 { &f.blank_max_edge }
    else if k == 5 { &f.crop_exclude_pages }
    else if k == 6 { &f.color_normalize_strength }
    else if k == 7 { &f.color_normalize_radius }
    else if k == 8 { &f.ink_neutralize_strength }
    else if k == 9 { &f.ink_neutralize_exclude_pages }
    else if k == 10 { &f.margins }
    else if k == 11 { &f.dpi }
    else if k == 12 { &f.output_dpi }
    else if k == 13 { &f.despeckle }
    else if k == 14 { &f.tolerance }
    else if k == 15 { &f.output_scale }
    else if k == 16 { &f.ai_scale }
    else if k == 17 { &f.gpu_workers }
    else if k == 18 { &f.cpu_workers }
    else if k == 19 { &f.tile }
    else if k == 20 { &f.gpu_id }
    else if k == 21 { &f.stroke_strength }
    else if k == 22 { &f.tone_boost_strength }
    else if k == 23 { &f.tone_global_threshold }
    else if k == 24 { &f.tone_tile_threshold }
    else if k == 25 { &f.tone_exclude_pages }
    else if k == 26 { &f.grayscale_pages }
    else if k == 27 { &f.pre_stroke_strength }
    else { &f.jpeg_quality }
}

fn spec_at(k: usize) -> (r: (FieldKind, &'static str))
    requires
        k < FIELD_COUNT,
    ensures
        r.0 == field_spec(k as int).0,
        r.1@ == field_spec(k as int).1,
{
    if k == 0 { (FieldKind::Pages, "ページ範囲が不正です") }
    else if k == 1 { (FieldKind::U8, "空白判定dark差") }
    else if k == 2 { (FieldKind::Real, "空白判定最大dark比") }
    else if k == 3 { (FieldKind::U8, "空白判定edge輝度差") }
    else if k == 4 { (FieldKind::Real, "空白判定最大edge比") }
    else if k == 5 { (FieldKind::List, "crop除外ページが不正です") }
    else if k == 6 { (FieldKind::U8, "カラー紙面補正の強さ") }
    else if k == 7 { (FieldKind::U32, "カラー紙面補正の半径") }
    else if k == 8 { (FieldKind::U8, "黒インク色差補正の強さ") }
    else if k == 9 { (FieldKind::List, "黒インク色差補正の除外ページが不正です") }
    else if k == 10 { (FieldKind::Real, "余白") }
    else if k == 11 { (FieldKind::U32, "入力DPI") }
    else if k == 12 { (FieldKind::U32, "出力DPI") }
    else if k == 13 { (FieldKind::Real, "despeckle") }
    else if k == 14 { (FieldKind::Real, "ページ検出tolerance") }
    else if k == 15 { (FieldKind::U32, "最終画像倍率") }
    else if k == 16 { (FieldKind::U32, "AI内部倍率") }
    else if k == 17 { (FieldKind::Usize, "GPU worker数") }
    else if k == 18 { (FieldKind::Usize, "CPU worker数") }
    else if k == 19 { (FieldKind::U32, "tile size") }
    else if k == 20 { (FieldKind::I32, "GPU ID") }
    else if k == 21 { (FieldKind::U8, "文字太さ") }
    else if k == 22 { (FieldKind::U8, "tone boostの強さ") }
    else if k == 23 { (FieldKind::Real, "全体カラー閾値") }
    else if k == 24 { (FieldKind::Real, "局所カラー閾値") }
    else if k == 25 { (FieldKind::List, "tone補正の除外ページが不正です") }
    else if k == 26 { (FieldKind::List, "全体gray指定ページが不正です") }
    else if k == 27 { (FieldKind::U8, "超解像前の線補強") }
    else { (FieldKind::U8, "JPEG品質") }
}

fn trimmed(t: &String) -> (r: Vec<char>)
    ensures
        r@ == trim(t@),
{
    trim_chars(&chars_of(t.as_str()))
}

fn reads(kind: FieldKind, t: &String) -> (r: bool)
    ensures
        r == text_reads(kind, t@),
{
    let tc = trimmed(t);
    match kind {
        FieldKind::Pages => tc.len() == 0 || PageRange::parse(t.as_str()).is_some(),
        FieldKind::U8 => parse_unsigned_chars(&tc, 0xff).is_some(),
        FieldKind::U32 => parse_unsigned_chars(&tc, 0xffff_ffff).is_some(),
        FieldKind::Usize => parse_unsigned_chars(&tc, usize::MAX as u64).is_some(),
        FieldKind::I32 => parse_i32_chars(&tc).is_some(),
        FieldKind::Real => is_float_literal(&tc),
        FieldKind::List => PageRange::parse_list(t.as_str()).is_some(),
    }
}

fn complaint_of(kind: FieldKind, name: &str, t: &String) -> (r: String)
    ensures
        r@ == complaint(kind, name@, t@),
{
    match kind {
        FieldKind::Pages | FieldKind::List => name.to_string(),
        _ => {
            let mut m = chars_of(name);
            push_str(&mut m, "の値が不正です: ");
            push_str(&mut m, t.as_str());
            string_of(&m)
        },
    }
}

/// What is wrong with the form, if anything.
pub fn form_problem_of(f: &BookScanForm) -> (r: Option<String>)
    ensures
        match r {
            Some(m) => form_problem(*f) == Some(m@),
            None => form_problem(*f) is None,
        },
{
    if trimmed(&f.input_path).len() == 0 || trimmed(&f.output_path).len() == 0 {
        return Some("入力と出力PDFを指定してください".to_string());
    }
    let mut k: usize = 0;
    while k < FIELD_COUNT
        invariant
            k <= FIELD_COUNT,
            first_problem(*f, 0) == first_problem(*f, k as int),
            form_problem(*f) == first_problem(*f, 0),
        decreases FIELD_COUNT - k,
    {
        let t = field_at(f, k);
        let (kind, name) = spec_at(k);
        if !reads(kind, t) {
            let m = complaint_of(kind, name, t);
            assert(first_problem(*f, k as int) == Some(m@));
            return Some(m);
        }
        k = k + 1;
    }
    None
}

proof fn lemma_reads_from(f: BookScanForm, k: int, j: int)
    requires
        0 <= k <= j < FIELD_COUNT,
        first_problem(f, k) is None,
    ensures
        text_reads(field_spec(j).0, field_text(f, j)),
    decreases j - k,
{
    if k < j {
        lemma_reads_from(f, k + 1, j);
    }
}

fn u8_of(t: &String) -> (r: u8)
    requires
        text_reads(FieldKind::U8, t@),
    ensures
        r == number_in(t@, 0xff),
{
    match parse_unsigned_chars(&trimmed(t), 0xff) {
        Some(n) => n as u8,
        None => 0,
    }
}

fn u32_of(t: &String) -> (r: u32)
    requires
        text_reads(FieldKind::U32, t@),
    ensures
        r == number_in(t@, 0xffff_ffff),
{
    match parse_unsigned_chars(&trimmed(t), 0xffff_ffff) {
        Some(n) => n as u32,
        None => 0,
    }
}

fn usize_of(t: &String) -> (r: usize)
    requires
        text_reads(FieldKind::Usize, t@),
    ensures
        r == number_in(t@, usize::MAX as nat),
{
    match parse_unsigned_chars(&trimmed(t), usize::MAX as u64) {
        Some(n) => n as usize,
        None => 0,
    }
}

fn i32_of(t: &String) -> (r: i32)
    requires
        text_reads(FieldKind::I32, t@),
    ensures
        parse_i32_spec(trim(t@)) == Some(r as int),
{
    match parse_i32_chars(&trimmed(t)) {
        Some(n) => n,
        None => 0,
    }
}

fn real_of(t: &String) -> (r: Option<String>)
    ensures
        opt_view(r) == Some(trim(t@)),
{
    Some(string_of(&trimmed(t)))
}

fn list_of(t: &String) -> (r: Vec<PageRange>)
    requires
        text_reads(FieldKind::List, t@),
    ensures
        PageRange::list_from_text(t@) == Some(r@),
{
    match PageRange::parse_list(t.as_str()) {
        Some(v) => v,
        None => Vec::new(),
    }
}

fn pages_of(t: &String) -> (r: Option<PageRange>)
    ensures
        r == (if trim(t@).len() == 0 {
            None
        } else {
            PageRange::from_text(t@)
        }),
{
    if trimmed(t).len() == 0 {
        None
    } else {
        PageRange::parse(t.as_str())
    }
}

fn optional_of(t: &String) -> (r: Option<String>)
    ensures
        opt_view(r) == optional_text(t@),
{
    let tc = trimmed(t);
    if tc.len() == 0 {
        None
    } else {
        Some(string_of(&tc))
    }
}

/// Reads the form into settings: the first problem (see `form_problem`), or
/// the settings it describes. Super-resolution off makes the output scale
/// x1; the real-valued settings come back as their trimmed texts.
#[verifier::rlimit(40)]
pub fn settings_from_form(f: &BookScanForm) -> (r: Result<FormSettings, String>)
    ensures
        match r {
            Err(m) => form_problem(*f) == Some(m@),
            Ok(s) => form_problem(*f) is None && read_from(*f, s),
        },
{
    match form_problem_of(f) {
        Some(m) => {
            return Err(m);
        },
        None => {},
    }
    proof {
        assert forall|j: int| 0 <= j < FIELD_COUNT implies text_reads(field_spec(j).0, field_text(*f, j)) by {
            lemma_reads_from(*f, 0, j);
        }
        assert(text_reads(field_spec(1).0, field_text(*f, 1)));
        assert(text_reads(field_spec(3).0, field_text(*f, 3)));
        assert(text_reads(field_spec(5).0, field_text(*f, 5)));
        assert(text_reads(field_spec(6).0, field_text(*f, 6)));
        assert(text_reads(field_spec(7).0, field_text(*f, 7)));
        assert(text_reads(field_spec(8).0, field_text(*f, 8)));
        assert(text_reads(field_spec(9).0, field_text(*f, 9)));
        assert(text_reads(field_spec(11).0, field_text(*f, 11)));
        assert(text_reads(field_spec(12).0, field_text(*f, 12)));
        assert(text_reads(field_spec(15).0, field_text(*f, 15)));
        assert(text_reads(field_spec(16).0, field_text(*f, 16)));
        assert(text_reads(field_spec(17).0, field_text(*f, 17)));
        assert(text_reads(field_spec(18).0, field_text(*f, 18)));
        assert(text_reads(field_spec(19).0, field_text(*f, 19)));
        assert(text_reads(field_spec(20).0, field_text(*f, 20)));
        assert(text_reads(field_spec(21).0, field_text(*f, 21)));
        assert(text_reads(field_spec(22).0, field_text(*f, 22)));
        assert(text_reads(field_spec(25).0, field_text(*f, 25)));
        assert(text_reads(field_spec(26).0, field_text(*f, 26)));
        assert(text_reads(field_spec(27).0, field_text(*f, 27)));
        assert(text_reads(field_spec(28).0, field_text(*f, 28)));
    }
    let scan = f.scantailor_enabled;
    let super_resolution = if f.superres == 0 {
        SuperResolutionMode::Off
    } else if f.superres == 2 {
        SuperResolutionMode::Lanczos
    } else {
        SuperResolutionMode::Anime
    };
    let output_scale = if super_resolution == SuperResolutionMode::Off {
        1
    } else {
        u32_of(&f.output_scale)
    };
    let jpeg_sampling = if f.sampling == 1 {
        JpegSampling::S422
    } else if f.sampling == 2 {
        JpegSampling::S420
    } else {
        JpegSampling::S444
    };
    let config = BookScanConfig {
        input_path: string_of(&trimmed(&f.input_path)),
        output_pdf: string_of(&trimmed(&f.output_path)),
        work_dir: optional_of(&f.work_dir),
        pages: pages_of(&f.pages),
        blank_detection_enabled: f.blank_detection,
        blank_dark_delta: u8_of(&f.blank_dark_delta),
        blank_edge_threshold: u8_of(&f.blank_edge_threshold),
        scantailor_enabled: scan,
        crop_enabled: scan && f.crop_enabled,
        crop_exclude_pages: list_of(&f.crop_exclude_pages),
        normalize_illumination: scan && f.normalize,
        color_normalization_enabled: f.color_normalize,
        color_normalization_strength: u8_of(&f.color_normalize_strength),
        color_normalization_radius: u32_of(&f.color_normalize_radius),
        ink_neutralization_enabled: f.ink_neutralize,
        ink_neutralization_strength: u8_of(&f.ink_neutralize_strength),
        ink_neutralization_exclude_pages: list_of(&f.ink_neutralize_exclude_pages),
        deskew_enabled: scan && f.deskew,
        dewarp_enabled: scan && f.dewarp,
        dpi: u32_of(&f.dpi),
        output_dpi: u32_of(&f.output_dpi),
        super_resolution,
        superres_output_scale: output_scale,
        superres_ai_scale: u32_of(&f.ai_scale),
        superres_model: f.model.clone(),
        gpu_workers: usize_of(&f.gpu_workers),
        cpu_workers: usize_of(&f.cpu_workers),
        tile_size: u32_of(&f.tile),
        gpu_id: i32_of(&f.gpu_id),
        tta_enabled: f.tta,
        stroke_enabled: f.stroke_enabled,
        stroke_strength: u8_of(&f.stroke_strength),
        tone_boost_enabled: f.tone_boost,
        tone_boost_strength: u8_of(&f.tone_boost_strength),
        partial_grayscale: PartialGrayscaleMode::Off,
        partial_grayscale_strength: 100,
        tone_exclude_pages: list_of(&f.tone_exclude_pages),
        grayscale_pages: list_of(&f.grayscale_pages),
        pre_stroke_enabled: f.pre_stroke,
        pre_stroke_strength: u8_of(&f.pre_stroke_strength),
        jpeg_quality: u8_of(&f.jpeg_quality),
        jpeg_sampling,
        preserve_position: f.preserve_position,
        scantailor_path: optional_of(&f.scantailor_path),
        realesrgan_path: optional_of(&f.realesrgan_path),
        realesrgan_model_dir: optional_of(&f.model_dir),
        resume: f.resume,
        keep_work: f.keep_work,
    };
    let reals = RealOptionTexts {
        margins: real_of(&f.margins),
        blank_max_dark_ratio: real_of(&f.blank_max_dark),
        blank_max_edge_ratio: real_of(&f.blank_max_edge),
        despeckle: real_of(&f.despeckle),
        page_detection_tolerance: real_of(&f.tolerance),
        tone_color_global_threshold: real_of(&f.tone_global_threshold),
        tone_color_tile_threshold: real_of(&f.tone_tile_threshold),
    };
    Ok(FormSettings { config, reals })
}

} // verus!
