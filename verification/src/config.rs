//! Book-scan settings: the runtime modes, page ranges and the integer-valued
//! part of the configuration with its validation.
use vstd::prelude::*;
use crate::text::{
    lemma_decimal_reads_back, lemma_first_index, lemma_parse_decimal, lemma_split_char_append,
    lemma_split_char_push_sep, lemma_trim_no_whitespace, is_whitespace, first_index,
    chars_of, decimal, decimal_chars, is_text, parse_unsigned, parse_unsigned_chars, split_char,
    split_chars, split_once, split_once_chars, string_of, to_lower, to_lower_chars, trim, trim_chars,
    views,
};

verus! {

/// Super-resolution method.
#[derive(Debug, Clone, Copy, PartialEq, Eq, Structural)]
pub enum SuperResolutionMode {
    Off,
    Anime,
    Lanczos,
}

impl SuperResolutionMode {
    /// The mode a (case-insensitive) option value names.
    pub open spec fn from_text(v: Seq<char>) -> Option<Self> {
        let l = to_lower(v);
        if l == "off"@ || l == "none"@ || l == "0"@ {
            Some(SuperResolutionMode::Off)
        } else if l == "anime"@ || l == "anime-x2"@ || l == "realesr-animevideov3"@ {
            Some(SuperResolutionMode::Anime)
        } else if l == "lanczos"@ || l == "lanczos3"@ {
            Some(SuperResolutionMode::Lanczos)
        } else {
            None
        }
    }

    pub fn parse(value: &str) -> (r: Option<Self>)
        ensures
            r == Self::from_text(value@),
    {
        let l = to_lower_chars(&chars_of(value));
        if is_text(&l, "off") || is_text(&l, "none") || is_text(&l, "0") {
            Some(SuperResolutionMode::Off)
        } else if is_text(&l, "anime") || is_text(&l, "anime-x2") || is_text(
            &l,
            "realesr-animevideov3",
        ) {
            Some(SuperResolutionMode::Anime)
        } else if is_text(&l, "lanczos") || is_text(&l, "lanczos3") {
            Some(SuperResolutionMode::Lanczos)
        } else {
            None
        }
    }
}

/// JPEG chroma sampling.
#[derive(Debug, Clone, Copy, PartialEq, Eq, Structural)]
pub enum JpegSampling {
    S444,
    S422,
    S420,
}

/// `s` with every `:` removed.
pub open spec fn without_colons(s: Seq<char>) -> Seq<char> {
    s.filter(|c: char| c != ':')
}

impl JpegSampling {
    /// The sampling a value names, ignoring case and colons (`4:4:4`).
    pub open spec fn from_text(v: Seq<char>) -> Option<Self> {
        let l = without_colons(to_lower(v));
        if l == "444"@ {
            Some(JpegSampling::S444)
        } else if l == "422"@ {
            Some(JpegSampling::S422)
        } else if l == "420"@ {
            Some(JpegSampling::S420)
        } else {
            None
        }
    }

    pub fn parse(value: &str) -> (r: Option<Self>)
        ensures
            r == Self::from_text(value@),
    {
        let l = to_lower_chars(&chars_of(value));
        let mut kept: Vec<char> = Vec::new();
        let mut i: usize = 0;
        while i < l.len()
            invariant
                i <= l.len(),
                kept@ == without_colons(l@.take(i as int)),
            decreases l.len() - i,
        {
            if l[i] != ':' {
                kept.push(l[i]);
            }
            proof {
                reveal_with_fuel(Seq::filter, 1);
                assert(l@.take(i + 1).drop_last() =~= l@.take(i as int));
            }
            i = i + 1;
        }
        assert(l@.take(i as int) =~= l@);
        if is_text(&kept, "444") {
            Some(JpegSampling::S444)
        } else if is_text(&kept, "422") {
            Some(JpegSampling::S422)
        } else if is_text(&kept, "420") {
            Some(JpegSampling::S420)
        } else {
            None
        }
    }
}

/// Darkened-text grayscale mode (kept for older saved settings).
#[derive(Debug, Clone, Copy, PartialEq, Eq, Structural)]
pub enum PartialGrayscaleMode {
    Off,
    Auto,
    Force,
}

impl PartialGrayscaleMode {
    pub open spec fn from_text(v: Seq<char>) -> Option<Self> {
        let l = to_lower(v);
        if l == "off"@ || l == "none"@ || l == "0"@ {
            Some(PartialGrayscaleMode::Off)
        } else if l == "auto"@ || l == "automatic"@ {
            Some(PartialGrayscaleMode::Auto)
        } else if l == "force"@ || l == "on"@ || l == "1"@ {
            Some(PartialGrayscaleMode::Force)
        } else {
            None
        }
    }

    pub fn parse(value: &str) -> (r: Option<Self>)
        ensures
            r == Self::from_text(value@),
    {
        let l = to_lower_chars(&chars_of(value));
        if is_text(&l, "off") || is_text(&l, "none") || is_text(&l, "0") {
            Some(PartialGrayscaleMode::Off)
        } else if is_text(&l, "auto") || is_text(&l, "automatic") {
            Some(PartialGrayscaleMode::Auto)
        } else if is_text(&l, "force") || is_text(&l, "on") || is_text(&l, "1") {
            Some(PartialGrayscaleMode::Force)
        } else {
            None
        }
    }
}

/// An inclusive range of 1-based page numbers.
#[derive(Debug, Clone, Copy, PartialEq, Eq, Structural)]
pub struct PageRange {
    pub start: usize,
    pub end: usize,
}

/// `str::parse::<usize>()`.
pub open spec fn parse_usize(s: Seq<char>) -> Option<nat> {
    parse_unsigned(s, usize::MAX as nat)
}

impl PageRange {
    /// `N` or `START-END` (surrounding whitespace allowed), with `1 <= START <= END`.
    pub open spec fn from_text(v: Seq<char>) -> Option<PageRange> {
        let t = trim(v);
        match split_once(t, '-') {
            Some((a, b)) => match (parse_usize(trim(a)), parse_usize(trim(b))) {
                (Some(s), Some(e)) => if s >= 1 && e >= s {
                    Some(PageRange { start: s as usize, end: e as usize })
                } else {
                    None
                },
                _ => None,
            },
            None => match parse_usize(t) {
                Some(p) => if p >= 1 {
                    Some(PageRange { start: p as usize, end: p as usize })
                } else {
                    None
                },
                None => None,
            },
        }
    }

    /// A comma-separated list of ranges; blank text is the empty list.
    pub open spec fn list_from_text(v: Seq<char>) -> Option<Seq<PageRange>> {
        if trim(v).len() == 0 {
            Some(Seq::empty())
        } else {
            let parts = split_char(v, ',');
            if forall|i: int| 0 <= i < parts.len() ==> (#[trigger] Self::from_text(trim(parts[i])))
                is Some {
                Some(Seq::new(parts.len(), |i: int| Self::from_text(trim(parts[i]))->0))
            } else {
                None
            }
        }
    }

    /// `N` where the range holds one page, `START-END` otherwise.
    pub open spec fn text_of(r: PageRange) -> Seq<char> {
        if r.start == r.end {
            decimal(r.start as nat)
        } else {
            decimal(r.start as nat) + seq!['-'] + decimal(r.end as nat)
        }
    }

    /// The ranges' texts joined by commas.
    pub open spec fn list_text(rs: Seq<PageRange>) -> Seq<char>
        decreases rs.len(),
    {
        if rs.len() == 0 {
            Seq::empty()
        } else if rs.len() == 1 {
            Self::text_of(rs[0])
        } else {
            Self::list_text(rs.drop_last()) + seq![','] + Self::text_of(rs.last())
        }
    }

    /// Whether `page` lies in the range.
    pub open spec fn holds(self, page: int) -> bool {
        self.start <= page <= self.end
    }

    fn parse_chars(value: &Vec<char>) -> (r: Option<Self>)
        ensures
            r == Self::from_text(value@),
    {
        let t = trim_chars(value);
        match split_once_chars(&t, '-') {
            Some((a, b)) => {
                let a = trim_chars(&a);
                let b = trim_chars(&b);
                let s = parse_unsigned_chars(&a, usize::MAX as u64);
                let e = parse_unsigned_chars(&b, usize::MAX as u64);
                match (s, e) {
                    (Some(s), Some(e)) => {
                        if s >= 1 && e >= s {
                            Some(PageRange { start: s as usize, end: e as usize })
                        } else {
                            None
                        }
                    },
                    _ => None,
                }
            },
            None => match parse_unsigned_chars(&t, usize::MAX as u64) {
                Some(p) => {
                    if p >= 1 {
                        Some(PageRange { start: p as usize, end: p as usize })
                    } else {
                        None
                    }
                },
                None => None,
            },
        }
    }

    /// `--pages` style value: `7` or `10-20`.
    pub fn parse(value: &str) -> (r: Option<Self>)
        ensures
            r == Self::from_text(value@),
    {
        Self::parse_chars(&chars_of(value))
    }

    /// Number of pages in the range.
    pub fn len(self) -> (n: usize)
        requires
            !(self.start == 0 && self.end == usize::MAX),
        ensures
            n == if self.end < self.start {
                0
            } else {
                self.end - self.start + 1
            },
    {
        if self.is_empty() {
            0
        } else {
            self.end - self.start + 1
        }
    }

    pub fn is_empty(self) -> (b: bool)
        ensures
            b == (self.end < self.start),
    {
        self.end < self.start
    }

    /// `1,10-12,158` style list; blank text is the empty list.
    pub fn parse_list(value: &str) -> (r: Option<Vec<Self>>)
        ensures
            match r {
                Some(v) => Self::list_from_text(value@) == Some(v@),
                None => Self::list_from_text(value@) is None,
            },
    {
        let chars = chars_of(value);
        let t = trim_chars(&chars);
        if t.len() == 0 {
            return Some(Vec::new());
        }
        let parts = split_chars(&chars, ',');
        let ghost ps = split_char(chars@, ',');
        let mut out: Vec<PageRange> = Vec::new();
        let mut i: usize = 0;
        while i < parts.len()
            invariant
                i <= parts.len(),
                views(parts@) == ps,
                ps == split_char(value@, ','),
                trim(value@).len() != 0,
                out@.len() == i,
                forall|j: int| 0 <= j < i ==> (#[trigger] Self::from_text(trim(ps[j])))
                    == Some(out@[j]),
            decreases parts.len() - i,
        {
            let piece = trim_chars(&parts[i]);
            assert(parts@[i as int]@ == ps[i as int]);
            match Self::parse_chars(&piece) {
                Some(r) => out.push(r),
                None => {
                    assert(trim(value@).len() != 0);
                    assert(!(Self::from_text(trim(ps[i as int])) is Some));
                    return None;
                },
            }
            i = i + 1;
        }
        assert(out@ =~= Seq::new(ps.len(), |j: int| Self::from_text(trim(ps[j]))->0));
        Some(out)
    }

    fn text_chars(r: PageRange) -> (v: Vec<char>)
        ensures
            v@ == Self::text_of(r),
    {
        if r.start == r.end {
            decimal_chars(r.start as u128)
        } else {
            let mut v = decimal_chars(r.start as u128);
            v.push('-');
            let e = decimal_chars(r.end as u128);
            let mut i: usize = 0;
            let ghost base = v@;
            while i < e.len()
                invariant
                    i <= e.len(),
                    v@ == base + e@.take(i as int),
                decreases e.len() - i,
            {
                v.push(e[i]);
                i = i + 1;
                assert(v@ =~= base + e@.take(i as int));
            }
            assert(e@.take(i as int) =~= e@);
            v
        }
    }

    /// The list as text: `1,10-12,158`.
    pub fn format_list(ranges: &[Self]) -> (s: String)
        ensures
            s@ == Self::list_text(ranges@),
    {
        let mut v: Vec<char> = Vec::new();
        let mut i: usize = 0;
        while i < ranges.len()
            invariant
                i <= ranges.len(),
                v@ == Self::list_text(ranges@.take(i as int)),
            decreases ranges.len() - i,
        {
            let t = Self::text_chars(ranges[i]);
            let ghost before = v@;
            if i > 0 {
                v.push(',');
            }
            let mut k: usize = 0;
            let ghost base = v@;
            while k < t.len()
                invariant
                    k <= t.len(),
                    v@ == base + t@.take(k as int),
                decreases t.len() - k,
            {
                v.push(t[k]);
                k = k + 1;
                assert(v@ =~= base + t@.take(k as int));
            }
            assert(t@.take(k as int) =~= t@);
            proof {
                let rs = ranges@.take(i + 1);
                assert(rs.drop_last() =~= ranges@.take(i as int));
                assert(rs.last() == ranges@[i as int]);
                if i == 0 {
                    assert(v@ =~= Self::list_text(rs));
                } else {
                    assert(v@ =~= Self::list_text(rs));
                }
            }
            i = i + 1;
        }
        assert(ranges@.take(i as int) =~= ranges@);
        string_of(&v)
    }
}

/// Whether any of `ranges` holds `page`.
pub open spec fn listed(ranges: Seq<PageRange>, page: int) -> bool {
    exists|i: int| 0 <= i < ranges.len() && (#[trigger] ranges[i]).holds(page)
}

/// Whether any of `ranges` holds `page`.
pub fn in_ranges(ranges: &Vec<PageRange>, page: usize) -> (b: bool)
    ensures
        b == listed(ranges@, page as int),
{
    let mut i: usize = 0;
    while i < ranges.len()
        invariant
            i <= ranges.len(),
            forall|j: int| 0 <= j < i ==> !(#[trigger] ranges@[j]).holds(page as int),
        decreases ranges.len() - i,
    {
        if ranges[i].start <= page && page <= ranges[i].end {
            assert(ranges@[i as int].holds(page as int));
            return true;
        }
        i = i + 1;
    }
    false
}

/// Every character of a page range's text is a digit or `-`.
proof fn lemma_text_chars(r: PageRange)
    ensures
        forall|i: int|
            0 <= i < PageRange::text_of(r).len() ==> {
                let c = #[trigger] PageRange::text_of(r)[i];
                !is_whitespace(c) && c != ','
            },
        PageRange::text_of(r).len() > 0,
{
    lemma_decimal_reads_back(r.start as nat);
    lemma_decimal_reads_back(r.end as nat);
    let t = PageRange::text_of(r);
    let a = decimal(r.start as nat);
    let b = decimal(r.end as nat);
    assert forall|i: int| 0 <= i < t.len() implies {
        let c = #[trigger] t[i];
        !is_whitespace(c) && c != ','
    } by {
        if r.start == r.end {
            assert(t[i] == a[i]);
        } else if i < a.len() {
            assert(t[i] == a[i]);
        } else if i > a.len() {
            assert(t[i] == b[i - a.len() - 1]);
        }
    }
}

/// Reading back the text of a valid range gives the range.
pub proof fn lemma_range_text_round_trip(r: PageRange)
    requires
        r.start >= 1,
        r.end >= r.start,
    ensures
        PageRange::from_text(PageRange::text_of(r)) == Some(r),
{
    lemma_text_chars(r);
    let t = PageRange::text_of(r);
    lemma_trim_no_whitespace(t);
    let a = decimal(r.start as nat);
    let b = decimal(r.end as nat);
    lemma_decimal_reads_back(r.start as nat);
    lemma_decimal_reads_back(r.end as nat);
    lemma_parse_decimal(r.start as nat, usize::MAX as nat);
    lemma_parse_decimal(r.end as nat, usize::MAX as nat);
    lemma_trim_no_whitespace(a);
    lemma_trim_no_whitespace(b);
    if r.start == r.end {
        assert forall|j: int| 0 <= j < t.len() implies t[j] != '-' by {
            assert(crate::text::is_digit(a[j]));
        }
        lemma_first_index(t, '-', t.len() as int);
        assert(split_once(t, '-') is None);
    } else {
        assert forall|j: int| 0 <= j < a.len() implies t[j] != '-' by {
            assert(t[j] == a[j]);
            assert(crate::text::is_digit(a[j]));
        }
        assert(t[a.len() as int] == '-');
        lemma_first_index(t, '-', a.len() as int);
        assert(t.take(a.len() as int) =~= a);
        assert(t.skip(a.len() + 1int) =~= b);
    }
}

/// Splitting the list text at commas gives each range's text.
proof fn lemma_list_text_split(rs: Seq<PageRange>)
    requires
        rs.len() > 0,
    ensures
        split_char(PageRange::list_text(rs), ',') == rs.map_values(|r: PageRange| PageRange::text_of(r)),
    decreases rs.len(),
{
    let last = PageRange::text_of(rs.last());
    lemma_text_chars(rs.last());
    assert forall|i: int| 0 <= i < last.len() implies #[trigger] last[i] != ',' by {}
    if rs.len() == 1 {
        lemma_split_char_append(Seq::empty(), last, ',');
        assert(Seq::<char>::empty() + last =~= last);
        assert(split_char(Seq::<char>::empty(), ',') =~= seq![Seq::<char>::empty()]);
        assert(Seq::<char>::empty() + last =~= last);
        assert(rs.map_values(|r: PageRange| PageRange::text_of(r)) =~= seq![last]);
    } else {
        let front = PageRange::list_text(rs.drop_last());
        lemma_list_text_split(rs.drop_last());
        lemma_split_char_push_sep(front, ',');
        lemma_split_char_append(front.push(','), last, ',');
        assert(front + seq![','] + last =~= front.push(',') + last);
        assert(Seq::<char>::empty() + last =~= last);
        assert(rs.map_values(|r: PageRange| PageRange::text_of(r)) =~= rs.drop_last().map_values(
            |r: PageRange| PageRange::text_of(r),
        ).push(last));
    }
}

/// The list text has no whitespace and is non-empty for a non-empty list.
proof fn lemma_list_text_chars(rs: Seq<PageRange>)
    ensures
        forall|i: int|
            0 <= i < PageRange::list_text(rs).len() ==> !is_whitespace(
                #[trigger] PageRange::list_text(rs)[i],
            ),
        rs.len() > 0 ==> PageRange::list_text(rs).len() > 0,
    decreases rs.len(),
{
    if rs.len() == 1 {
        lemma_text_chars(rs[0]);
    } else if rs.len() > 1 {
        lemma_list_text_chars(rs.drop_last());
        lemma_text_chars(rs.last());
        let f = PageRange::list_text(rs.drop_last());
        let l = PageRange::text_of(rs.last());
        let t = PageRange::list_text(rs);
        assert forall|i: int| 0 <= i < t.len() implies !is_whitespace(#[trigger] t[i]) by {
            if i < f.len() {
                assert(t[i] == f[i]);
            } else if i > f.len() {
                assert(t[i] == l[i - f.len() - 1]);
            }
        }
    }
}

/// `PageRange::parse_list` reads back what `PageRange::format_list` writes
/// (their results are `list_from_text` and `list_text`), for ranges with
/// `1 <= start <= end`.
pub proof fn lemma_range_list_round_trip(rs: Seq<PageRange>)
    requires
        forall|i: int| 0 <= i < rs.len() ==> (#[trigger] rs[i]).start >= 1 && rs[i].end >= rs[i].start,
    ensures
        PageRange::list_from_text(PageRange::list_text(rs)) == Some(rs),
{
    let t = PageRange::list_text(rs);
    lemma_list_text_chars(rs);
    lemma_trim_no_whitespace(t);
    if rs.len() > 0 {
        lemma_list_text_split(rs);
        let parts = split_char(t, ',');
        assert forall|i: int| 0 <= i < parts.len() implies (#[trigger] PageRange::from_text(
            trim(parts[i]),
        )) == Some(rs[i]) by {
            assert(parts[i] == PageRange::text_of(rs[i]));
            lemma_text_chars(rs[i]);
            lemma_trim_no_whitespace(parts[i]);
            lemma_range_text_round_trip(rs[i]);
        }
        assert(Seq::new(parts.len(), |i: int| PageRange::from_text(trim(parts[i]))->0) =~= rs);
    } else {
        assert(rs =~= Seq::<PageRange>::empty());
    }
}

/// The book-scan settings that the pipeline's decisions read. The real-valued
/// tuning knobs (blank ratios, margins, despeckle, detection tolerance, colour
/// thresholds) travel beside it; see `ValidationFacts`.
#[derive(Debug, Clone)]
pub struct BookScanConfig {
    pub input_path: String,
    pub output_pdf: String,
    pub work_dir: Option<String>,
    pub pages: Option<PageRange>,
    pub blank_detection_enabled: bool,
    pub blank_dark_delta: u8,
    pub blank_edge_threshold: u8,
    pub scantailor_enabled: bool,
    pub crop_enabled: bool,
    pub crop_exclude_pages: Vec<PageRange>,
    pub normalize_illumination: bool,
    pub color_normalization_enabled: bool,
    pub color_normalization_strength: u8,
    pub color_normalization_radius: u32,
    pub ink_neutralization_enabled: bool,
    pub ink_neutralization_strength: u8,
    pub ink_neutralization_exclude_pages: Vec<PageRange>,
    pub deskew_enabled: bool,
    pub dewarp_enabled: bool,
    pub dpi: u32,
    pub output_dpi: u32,
    pub super_resolution: SuperResolutionMode,
    /// Pixel scale of the final page images relative to the ScanTailor output.
    pub superres_output_scale: u32,
    /// Scale Real-ESRGAN renders at; 0 is the legacy "auto".
    pub superres_ai_scale: u32,
    pub superres_model: String,
    pub gpu_workers: usize,
    pub cpu_workers: usize,
    pub tile_size: u32,
    pub gpu_id: i32,
    pub tta_enabled: bool,
    pub stroke_enabled: bool,
    pub stroke_strength: u8,
    pub tone_boost_enabled: bool,
    pub tone_boost_strength: u8,
    pub partial_grayscale: PartialGrayscaleMode,
    pub partial_grayscale_strength: u8,
    pub tone_exclude_pages: Vec<PageRange>,
    /// Pages written as one-component gray JPEGs; empty disables it.
    pub grayscale_pages: Vec<PageRange>,
    pub pre_stroke_enabled: bool,
    pub pre_stroke_strength: u8,
    pub jpeg_quality: u8,
    pub jpeg_sampling: JpegSampling,
    pub preserve_position: bool,
    pub scantailor_path: Option<String>,
    pub realesrgan_path: Option<String>,
    pub realesrgan_model_dir: Option<String>,
    pub resume: bool,
    pub keep_work: bool,
}

/// What validation learns from outside the integer settings: whether the
/// input exists on disk, and whether each real-valued setting is in range
/// (blank ratios in 0.0–0.1, despeckle in 1.0–3.0, page detection tolerance
/// in 0.0–1.0, colour thresholds in 0.0–1.0).
#[derive(Debug, Clone, Copy, PartialEq, Eq, Structural)]
pub struct ValidationFacts {
    pub input_exists: bool,
    pub blank_ratios_in_range: bool,
    pub despeckle_in_range: bool,
    pub page_detection_tolerance_in_range: bool,
    pub tone_thresholds_in_range: bool,
}

pub fn default_true() -> (b: bool)
    ensures
        b,
{
    true
}

pub fn default_blank_dark_delta() -> (v: u8)
    ensures
        v == 25,
{
    25
}

pub fn default_blank_edge_threshold() -> (v: u8)
    ensures
        v == 12,
{
    12
}

/// The first page alone.
pub open spec fn first_page_only() -> Seq<PageRange> {
    seq![PageRange { start: 1, end: 1 }]
}

pub fn default_crop_exclude_pages() -> (v: Vec<PageRange>)
    ensures
        v@ == first_page_only(),
{
    vec![PageRange { start: 1, end: 1 }]
}

pub fn default_color_normalization_strength() -> (v: u8)
    ensures
        v == 100,
{
    100
}

pub fn default_color_normalization_radius() -> (v: u32)
    ensures
        v == 40,
{
    40
}

pub fn default_ink_neutralization_strength() -> (v: u8)
    ensures
        v == 100,
{
    100
}

pub fn default_ink_neutralization_exclude_pages() -> (v: Vec<PageRange>)
    ensures
        v@ == first_page_only(),
{
    vec![PageRange { start: 1, end: 1 }]
}

pub fn default_pre_stroke_strength() -> (v: u8)
    ensures
        v == 5,
{
    5
}

pub fn default_tone_strength() -> (v: u8)
    ensures
        v == 100,
{
    100
}

pub fn default_partial_grayscale() -> (v: PartialGrayscaleMode)
    ensures
        v == PartialGrayscaleMode::Off,
{
    PartialGrayscaleMode::Off
}

pub fn default_tone_exclude_pages() -> (v: Vec<PageRange>)
    ensures
        v@ == first_page_only(),
{
    vec![PageRange { start: 1, end: 1 }]
}

pub fn default_superres_output_scale() -> (v: u32)
    ensures
        v == 1,
{
    1
}

pub fn default_superres_ai_scale() -> (v: u32)
    ensures
        v == 2,
{
    2
}

impl Default for BookScanConfig {
    fn default() -> (c: Self)
        ensures
            c.is_default(),
    {
        BookScanConfig {
            input_path: String::new(),
            output_pdf: String::new(),
            work_dir: None,
            pages: None,
            blank_detection_enabled: true,
            blank_dark_delta: default_blank_dark_delta(),
            blank_edge_threshold: default_blank_edge_threshold(),
            scantailor_enabled: true,
            crop_enabled: true,
            crop_exclude_pages: default_crop_exclude_pages(),
            normalize_illumination: true,
            color_normalization_enabled: true,
            color_normalization_strength: default_color_normalization_strength(),
            color_normalization_radius: default_color_normalization_radius(),
            ink_neutralization_enabled: false,
            ink_neutralization_strength: default_ink_neutralization_strength(),
            ink_neutralization_exclude_pages: default_ink_neutralization_exclude_pages(),
            deskew_enabled: false,
            dewarp_enabled: false,
            dpi: 300,
            output_dpi: 300,
            super_resolution: SuperResolutionMode::Anime,
            superres_output_scale: 1,
            superres_ai_scale: 2,
            superres_model: String::from_str("realesr-animevideov3"),
            gpu_workers: 4,
            cpu_workers: 2,
            tile_size: 0,
            gpu_id: -1,
            tta_enabled: false,
            stroke_enabled: false,
            stroke_strength: 15,
            tone_boost_enabled: true,
            tone_boost_strength: default_tone_strength(),
            partial_grayscale: default_partial_grayscale(),
            partial_grayscale_strength: default_tone_strength(),
            tone_exclude_pages: default_tone_exclude_pages(),
            grayscale_pages: Vec::new(),
            pre_stroke_enabled: false,
            pre_stroke_strength: default_pre_stroke_strength(),
            jpeg_quality: 90,
            jpeg_sampling: JpegSampling::S444,
            preserve_position: true,
            scantailor_path: None,
            realesrgan_path: None,
            realesrgan_model_dir: None,
            resume: true,
            keep_work: false,
        }
    }
}

impl BookScanConfig {
    /// The documented preset: ScanTailor with crop (cover excluded) and
    /// illumination/colour normalisation, anime AI at x2 written back at x1,
    /// tone boost on, stroke and grayscale pages off, JPEG Q90 4:4:4.
    pub open spec fn is_default(self) -> bool {
        &&& self.input_path@.len() == 0
        &&& self.output_pdf@.len() == 0
        &&& self.has_preset_settings()
    }

    /// Every setting but the input and output as the preset has it.
    pub open spec fn has_preset_settings(self) -> bool {
        &&& self.work_dir is None
        &&& self.pages is None
        &&& self.blank_detection_enabled
        &&& self.blank_dark_delta == 25
        &&& self.blank_edge_threshold == 12
        &&& self.scantailor_enabled
        &&& self.crop_enabled
        &&& self.crop_exclude_pages@ == first_page_only()
        &&& self.normalize_illumination
        &&& self.color_normalization_enabled
        &&& self.color_normalization_strength == 100
        &&& self.color_normalization_radius == 40
        &&& !self.ink_neutralization_enabled
        &&& self.ink_neutralization_strength == 100
        &&& self.ink_neutralization_exclude_pages@ == first_page_only()
        &&& !self.deskew_enabled
        &&& !self.dewarp_enabled
        &&& self.dpi == 300
        &&& self.output_dpi == 300
        &&& self.super_resolution == SuperResolutionMode::Anime
        &&& self.superres_output_scale == 1
        &&& self.superres_ai_scale == 2
        &&& self.superres_model@ == "realesr-animevideov3"@
        &&& self.gpu_workers == 4
        &&& self.cpu_workers == 2
        &&& self.tile_size == 0
        &&& self.gpu_id == -1
        &&& !self.tta_enabled
        &&& !self.stroke_enabled
        &&& self.stroke_strength == 15
        &&& self.tone_boost_enabled
        &&& self.tone_boost_strength == 100
        &&& self.partial_grayscale == PartialGrayscaleMode::Off
        &&& self.partial_grayscale_strength == 100
        &&& self.tone_exclude_pages@ == first_page_only()
        &&& self.grayscale_pages@.len() == 0
        &&& !self.pre_stroke_enabled
        &&& self.pre_stroke_strength == 5
        &&& self.jpeg_quality == 90
        &&& self.jpeg_sampling == JpegSampling::S444
        &&& self.preserve_position
        &&& self.scantailor_path is None
        &&& self.realesrgan_path is None
        &&& self.realesrgan_model_dir is None
        &&& self.resume
        &&& !self.keep_work
    }

    /// The scale Real-ESRGAN renders at: the legacy 0 means the output scale,
    /// but at least x2.
    pub open spec fn ai_scale(self) -> u32 {
        if self.superres_ai_scale == 0 {
            if self.superres_output_scale >= 2 {
                self.superres_output_scale
            } else {
                2
            }
        } else {
            self.superres_ai_scale
        }
    }

    /// Scale of the processed images: x1 whenever super-resolution is off.
    pub open spec fn output_scale(self) -> u32 {
        if self.super_resolution == SuperResolutionMode::Off {
            1
        } else {
            self.superres_output_scale
        }
    }

    pub fn resolved_ai_scale(&self) -> (s: u32)
        ensures
            s == self.ai_scale(),
    {
        if self.superres_ai_scale == 0 {
            if self.superres_output_scale >= 2 {
                self.superres_output_scale
            } else {
                2
            }
        } else {
            self.superres_ai_scale
        }
    }

    pub fn effective_output_scale(&self) -> (s: u32)
        ensures
            s == self.output_scale(),
    {
        if self.super_resolution == SuperResolutionMode::Off {
            1
        } else {
            self.superres_output_scale
        }
    }

    /// Whether ScanTailor's crop is skipped for `page_number`.
    pub fn crop_excluded(&self, page_number: usize) -> (b: bool)
        ensures
            b == (self.crop_enabled && listed(self.crop_exclude_pages@, page_number as int)),
    {
        self.crop_enabled && in_ranges(&self.crop_exclude_pages, page_number)
    }

    pub fn ink_neutralization_excluded(&self, page_number: usize) -> (b: bool)
        ensures
            b == listed(self.ink_neutralization_exclude_pages@, page_number as int),
    {
        in_ranges(&self.ink_neutralization_exclude_pages, page_number)
    }

    pub fn tone_excluded(&self, page_number: usize) -> (b: bool)
        ensures
            b == listed(self.tone_exclude_pages@, page_number as int),
    {
        in_ranges(&self.tone_exclude_pages, page_number)
    }

    pub fn grayscale_page(&self, page_number: usize) -> (b: bool)
        ensures
            b == listed(self.grayscale_pages@, page_number as int),
    {
        in_ranges(&self.grayscale_pages, page_number)
    }
}

impl BookScanConfig {
    /// The message of the first setting that validation rejects, in the order
    /// the checks run; `None` when the configuration is usable.
    pub open spec fn problem(self, facts: ValidationFacts) -> Option<Seq<char>> {
        if self.input_path@.len() == 0 || !facts.input_exists {
            Some("入力が見つかりません: "@ + self.input_path@)
        } else if self.output_pdf@.len() == 0 {
            Some("出力PDFを指定してください"@)
        } else if self.partial_grayscale != PartialGrayscaleMode::Off {
            Some("暗部の自動・強制グレースケール化は廃止しました。1成分Grayにするページをgrayscale_pagesで明示してください"@)
        } else if self.dpi == 0 || self.output_dpi == 0 {
            Some("DPIには1以上を指定してください"@)
        } else if self.blank_dark_delta == 0 || self.blank_edge_threshold == 0 {
            Some("空白判定のdark deltaとedge thresholdには1以上を指定してください"@)
        } else if !facts.blank_ratios_in_range {
            Some("空白判定の最大比率には0.0–0.1を指定してください"@)
        } else if !facts.despeckle_in_range {
            Some("despeckleには1.0–3.0を指定してください"@)
        } else if !facts.page_detection_tolerance_in_range {
            Some("page detection toleranceには0.0–1.0を指定してください"@)
        } else if !(1 <= self.superres_output_scale && self.superres_output_scale <= 4) {
            Some("最終画像倍率には1–4を指定してください"@)
        } else if self.superres_ai_scale > 4 {
            Some("AI推論倍率には0（auto）または1–4を指定してください"@)
        } else if self.super_resolution == SuperResolutionMode::Anime && !(2 <= self.ai_scale() && self.ai_scale() <= 4) {
            Some("animeのAI推論倍率には2–4を指定してください"@)
        } else if self.super_resolution == SuperResolutionMode::Anime && self.ai_scale() < self.superres_output_scale {
            Some("AI推論倍率は最終画像倍率以上を指定してください"@)
        } else if self.gpu_workers == 0 || self.gpu_workers > 8 {
            Some("GPU worker数には1–8を指定してください"@)
        } else if self.cpu_workers == 0 || self.cpu_workers > 64 {
            Some("CPU worker数には1–64を指定してください"@)
        } else if self.jpeg_quality == 0 || self.jpeg_quality > 100 {
            Some("JPEG品質には1–100を指定してください"@)
        } else if self.stroke_strength > 100 {
            Some("文字太さには0–100を指定してください"@)
        } else if self.pre_stroke_strength > 100 || self.color_normalization_strength > 100 || self.ink_neutralization_strength > 100 || self.tone_boost_strength > 100 || self.partial_grayscale_strength > 100 {
            Some("各種画像補正の強さには0–100を指定してください"@)
        } else if !facts.tone_thresholds_in_range {
            Some("カラー頁判定の比率には0.0–1.0を指定してください"@)
        } else if self.color_normalization_radius == 0 || self.color_normalization_radius > 256 {
            Some("カラー紙面補正の半径には1–256を指定してください"@)
        } else if !self.scantailor_enabled && (self.crop_enabled || self.normalize_illumination || self.deskew_enabled || self.dewarp_enabled) {
            Some("ScanTailorをOFFにする場合はcrop/normalize/deskew/dewarpもOFFにしてください"@)
        } else {
            None
        }
    }

    /// The preset is usable as it stands: with an input that exists, an
    /// output, and the real-valued settings in range, validation finds no
    /// problem.
    pub proof fn lemma_preset_is_valid(self, facts: ValidationFacts)
        requires
            self.has_preset_settings(),
            self.input_path@.len() > 0,
            self.output_pdf@.len() > 0,
            facts.input_exists,
            facts.blank_ratios_in_range,
            facts.despeckle_in_range,
            facts.page_detection_tolerance_in_range,
            facts.tone_thresholds_in_range,
        ensures
            self.problem(facts) is None,
    {
    }

    /// Checks the settings; `Err` carries the message of the first problem.
    pub fn validate(&self, facts: &ValidationFacts) -> (r: Result<(), String>)
        ensures
            match r {
                Ok(()) => self.problem(*facts) is None,
                Err(m) => self.problem(*facts) == Some(m@),
            },
    {
        if self.input_path.as_str().is_empty() || !facts.input_exists {
            let mut m = String::from_str("入力が見つかりません: ");
            m.append(self.input_path.as_str());
            return Err(m);
        }
        let ai = self.resolved_ai_scale();
        if self.output_pdf.as_str().is_empty() {
            return Err(String::from_str("出力PDFを指定してください"));
        }
        if self.partial_grayscale != PartialGrayscaleMode::Off {
            return Err(String::from_str("暗部の自動・強制グレースケール化は廃止しました。1成分Grayにするページをgrayscale_pagesで明示してください"));
        }
        if self.dpi == 0 || self.output_dpi == 0 {
            return Err(String::from_str("DPIには1以上を指定してください"));
        }
        if self.blank_dark_delta == 0 || self.blank_edge_threshold == 0 {
            return Err(String::from_str("空白判定のdark deltaとedge thresholdには1以上を指定してください"));
        }
        if !facts.blank_ratios_in_range {
            return Err(String::from_str("空白判定の最大比率には0.0–0.1を指定してください"));
        }
        if !facts.despeckle_in_range {
            return Err(String::from_str("despeckleには1.0–3.0を指定してください"));
        }
        if !facts.page_detection_tolerance_in_range {
            return Err(String::from_str("page detection toleranceには0.0–1.0を指定してください"));
        }
        if !(1 <= self.superres_output_scale && self.superres_output_scale <= 4) {
            return Err(String::from_str("最終画像倍率には1–4を指定してください"));
        }
        if self.superres_ai_scale > 4 {
            return Err(String::from_str("AI推論倍率には0（auto）または1–4を指定してください"));
        }
        if self.super_resolution == SuperResolutionMode::Anime && !(2 <= ai && ai <= 4) {
            return Err(String::from_str("animeのAI推論倍率には2–4を指定してください"));
        }
        if self.super_resolution == SuperResolutionMode::Anime && ai < self.superres_output_scale {
            return Err(String::from_str("AI推論倍率は最終画像倍率以上を指定してください"));
        }
        if self.gpu_workers == 0 || self.gpu_workers > 8 {
            return Err(String::from_str("GPU worker数には1–8を指定してください"));
        }
        if self.cpu_workers == 0 || self.cpu_workers > 64 {
            return Err(String::from_str("CPU worker数には1–64を指定してください"));
        }
        if self.jpeg_quality == 0 || self.jpeg_quality > 100 {
            return Err(String::from_str("JPEG品質には1–100を指定してください"));
        }
        if self.stroke_strength > 100 {
            return Err(String::from_str("文字太さには0–100を指定してください"));
        }
        if self.pre_stroke_strength > 100 || self.color_normalization_strength > 100 || self.ink_neutralization_strength > 100 || self.tone_boost_strength > 100 || self.partial_grayscale_strength > 100 {
            return Err(String::from_str("各種画像補正の強さには0–100を指定してください"));
        }
        if !facts.tone_thresholds_in_range {
            return Err(String::from_str("カラー頁判定の比率には0.0–1.0を指定してください"));
        }
        if self.color_normalization_radius == 0 || self.color_normalization_radius > 256 {
            return Err(String::from_str("カラー紙面補正の半径には1–256を指定してください"));
        }
        if !self.scantailor_enabled && (self.crop_enabled || self.normalize_illumination || self.deskew_enabled || self.dewarp_enabled) {
            return Err(String::from_str("ScanTailorをOFFにする場合はcrop/normalize/deskew/dewarpもOFFにしてください"));
        }
        Ok(())
    }
}

} // verus!
