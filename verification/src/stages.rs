//! The stages of a book-scan run: how far each page got, when the files an
//! earlier run left behind can be reused, and what the run does next.
use vstd::prelude::*;
use crate::config::{BookScanConfig, PageRange, SuperResolutionMode};
use crate::pipeline::{stage_update, BookScanProgress};
use crate::text::{chars_of, decimal, decimal_chars, push_all, push_str, string_of};

verus! {

/// How far a page has been carried, in order.
#[derive(Debug, Clone, Copy, PartialEq, Eq, Structural)]
pub enum BookScanStage {
    Extracted,
    ScanTailored,
    Upscaled,
    Encoded,
    PdfWritten,
}

impl BookScanStage {
    /// Position of the stage in the run.
    pub open spec fn rank(self) -> nat {
        match self {
            BookScanStage::Extracted => 0,
            BookScanStage::ScanTailored => 1,
            BookScanStage::Upscaled => 2,
            BookScanStage::Encoded => 3,
            BookScanStage::PdfWritten => 4,
        }
    }

    fn position(self) -> (r: u8)
        ensures
            r == self.rank(),
    {
        match self {
            BookScanStage::Extracted => 0,
            BookScanStage::ScanTailored => 1,
            BookScanStage::Upscaled => 2,
            BookScanStage::Encoded => 3,
            BookScanStage::PdfWritten => 4,
        }
    }

    /// Whether a page at this stage has got at least as far as `other`.
    pub fn reached(self, other: BookScanStage) -> (r: bool)
        ensures
            r == (self.rank() >= other.rank()),
    {
        self.position() >= other.position()
    }
}

/// A page of a saved run as far as reuse is concerned: its record, and the
/// size of each of its files as found on disk (`None` where the file is
/// missing, not a file, or unreadable as an image).
#[derive(Debug, Clone, Copy)]
pub struct StoredPage {
    pub stage: BookScanStage,
    pub is_blank: bool,
    pub source_width: u32,
    pub source_height: u32,
    pub crop_width: u32,
    pub crop_height: u32,
    pub source_found: Option<(u32, u32)>,
    pub crop_found: Option<(u32, u32)>,
    /// Whether the record names a processed image at all.
    pub has_processed_path: bool,
    pub processed_found: Option<(u32, u32)>,
    pub jpeg_found: Option<(u32, u32)>,
}

/// A file was found with exactly this size.
pub open spec fn size_is(found: Option<(u32, u32)>, width: int, height: int) -> bool {
    found matches Some(d) && d.0 == width && d.1 == height
}

/// The source image is there, at the recorded size.
pub open spec fn extracted_ok(p: StoredPage) -> bool {
    size_is(p.source_found, p.source_width as int, p.source_height as int)
}

/// ScanTailor's output is there, at the recorded crop size.
pub open spec fn cropped_ok(p: StoredPage) -> bool {
    p.stage.rank() >= 1 && size_is(p.crop_found, p.crop_width as int, p.crop_height as int)
}

/// A blank page has no processed image; another has one at the crop size
/// times `scale`.
pub open spec fn upscaled_ok(p: StoredPage, scale: nat) -> bool {
    &&& p.stage.rank() >= 2
    &&& (p.is_blank && !p.has_processed_path) || (!p.is_blank && size_is(
        p.processed_found,
        p.crop_width * scale,
        p.crop_height * scale,
    ))
}

/// The JPEG is there: at the source size for a blank page, at the crop
/// size times `scale` for another.
pub open spec fn encoded_ok(p: StoredPage, scale: nat) -> bool {
    &&& p.stage.rank() >= 3
    &&& if p.is_blank {
        size_is(p.jpeg_found, p.source_width as int, p.source_height as int)
    } else {
        size_is(p.jpeg_found, p.crop_width * scale, p.crop_height * scale)
    }
}

pub open spec fn extracted_valid(pages: Seq<StoredPage>) -> bool {
    pages.len() > 0 && forall|i: int| 0 <= i < pages.len() ==> extracted_ok(#[trigger] pages[i])
}

pub open spec fn cropped_valid(pages: Seq<StoredPage>) -> bool {
    extracted_valid(pages) && forall|i: int| 0 <= i < pages.len() ==> cropped_ok(#[trigger] pages[i])
}

pub open spec fn upscaled_valid(pages: Seq<StoredPage>, scale: nat) -> bool {
    cropped_valid(pages) && forall|i: int|
        0 <= i < pages.len() ==> upscaled_ok(#[trigger] pages[i], scale)
}

pub open spec fn encoded_valid(pages: Seq<StoredPage>, scale: nat) -> bool {
    upscaled_valid(pages, scale) && forall|i: int|
        0 <= i < pages.len() ==> encoded_ok(#[trigger] pages[i], scale)
}

fn size_matches(found: Option<(u32, u32)>, width: u64, height: u64) -> (r: bool)
    ensures
        r == size_is(found, width as int, height as int),
{
    match found {
        Some((w, h)) => w as u64 == width && h as u64 == height,
        None => false,
    }
}

/// Which per-page check a loop applies.
#[derive(Clone, Copy, PartialEq, Eq, Structural)]
enum PageCheck {
    Extracted,
    Cropped,
    Upscaled,
    Encoded,
}

spec fn check_ok(c: PageCheck, p: StoredPage, scale: nat) -> bool {
    match c {
        PageCheck::Extracted => extracted_ok(p),
        PageCheck::Cropped => cropped_ok(p),
        PageCheck::Upscaled => upscaled_ok(p, scale),
        PageCheck::Encoded => encoded_ok(p, scale),
    }
}

fn scaled(width: u32, height: u32, scale: u32) -> (r: (u64, u64))
    ensures
        r.0 == width * scale,
        r.1 == height * scale,
{
    let w = width as u64;
    let h = height as u64;
    let s = scale as u64;
    assert(w * s <= 0xffff_ffff * 0xffff_ffff) by (nonlinear_arith)
        requires
            w <= 0xffff_ffff,
            s <= 0xffff_ffff,
    ;
    assert(h * s <= 0xffff_ffff * 0xffff_ffff) by (nonlinear_arith)
        requires
            h <= 0xffff_ffff,
            s <= 0xffff_ffff,
    ;
    (w * s, h * s)
}

fn page_passes(c: PageCheck, p: &StoredPage, scale: u32) -> (r: bool)
    ensures
        r == check_ok(c, *p, scale as nat),
{
    let (cw, ch) = scaled(p.crop_width, p.crop_height, scale);
    match c {
        PageCheck::Extracted => size_matches(p.source_found, p.source_width as u64, p.source_height as u64),
        PageCheck::Cropped => p.stage.reached(BookScanStage::ScanTailored) && size_matches(
            p.crop_found,
            p.crop_width as u64,
            p.crop_height as u64,
        ),
        PageCheck::Upscaled => p.stage.reached(BookScanStage::Upscaled) && ((p.is_blank
            && !p.has_processed_path) || (!p.is_blank && size_matches(p.processed_found, cw, ch))),
        PageCheck::Encoded => p.stage.reached(BookScanStage::Encoded) && if p.is_blank {
            size_matches(p.jpeg_found, p.source_width as u64, p.source_height as u64)
        } else {
            size_matches(p.jpeg_found, cw, ch)
        },
    }
}

fn all_pass(c: PageCheck, pages: &Vec<StoredPage>, scale: u32) -> (r: bool)
    ensures
        r == forall|i: int| 0 <= i < pages@.len() ==> check_ok(c, #[trigger] pages@[i], scale as nat),
{
    let mut i: usize = 0;
    while i < pages.len()
        invariant
            i <= pages.len(),
            forall|j: int| 0 <= j < i ==> check_ok(c, #[trigger] pages@[j], scale as nat),
        decreases pages.len() - i,
    {
        if !page_passes(c, &pages[i], scale) {
            return false;
        }
        i = i + 1;
    }
    true
}

/// Whether every page's source image is still there, at its recorded size.
pub fn extracted_pages_valid(pages: &Vec<StoredPage>) -> (r: bool)
    ensures
        r == extracted_valid(pages@),
{
    if pages.len() == 0 {
        return false;
    }
    let r = all_pass(PageCheck::Extracted, pages, 1);
    proof {
        if r {
            assert forall|i: int| 0 <= i < pages@.len() implies extracted_ok(#[trigger] pages@[i]) by {
                assert(check_ok(PageCheck::Extracted, pages@[i], 1));
            }
        } else {
            let i = choose|i: int| 0 <= i < pages@.len() && !check_ok(PageCheck::Extracted, #[trigger] pages@[i], 1);
            assert(!extracted_ok(pages@[i]));
        }
    }
    r
}

/// Whether, beyond that, every page's ScanTailor output can be reused.
pub fn crop_pages_valid(pages: &Vec<StoredPage>) -> (r: bool)
    ensures
        r == cropped_valid(pages@),
{
    if !extracted_pages_valid(pages) {
        return false;
    }
    let r = all_pass(PageCheck::Cropped, pages, 1);
    proof {
        if r {
            assert forall|i: int| 0 <= i < pages@.len() implies cropped_ok(#[trigger] pages@[i]) by {
                assert(check_ok(PageCheck::Cropped, pages@[i], 1));
            }
        } else {
            let i = choose|i: int| 0 <= i < pages@.len() && !check_ok(PageCheck::Cropped, #[trigger] pages@[i], 1);
            assert(!cropped_ok(pages@[i]));
        }
    }
    r
}

/// Whether, beyond that, every page's super-resolved image can be reused.
pub fn processed_pages_valid(config: &BookScanConfig, pages: &Vec<StoredPage>) -> (r: bool)
    ensures
        r == upscaled_valid(pages@, config.output_scale() as nat),
{
    let scale = config.effective_output_scale();
    if !crop_pages_valid(pages) {
        return false;
    }
    let r = all_pass(PageCheck::Upscaled, pages, scale);
    proof {
        if r {
            assert forall|i: int| 0 <= i < pages@.len() implies upscaled_ok(#[trigger] pages@[i], scale as nat) by {
                assert(check_ok(PageCheck::Upscaled, pages@[i], scale as nat));
            }
        } else {
            let i = choose|i: int|
                0 <= i < pages@.len() && !check_ok(PageCheck::Upscaled, #[trigger] pages@[i], scale as nat);
            assert(!upscaled_ok(pages@[i], scale as nat));
        }
    }
    r
}

/// Whether, beyond that, every page's JPEG can be reused.
pub fn encoded_pages_valid(config: &BookScanConfig, pages: &Vec<StoredPage>) -> (r: bool)
    ensures
        r == encoded_valid(pages@, config.output_scale() as nat),
{
    let scale = config.effective_output_scale();
    if !processed_pages_valid(config, pages) {
        return false;
    }
    let r = all_pass(PageCheck::Encoded, pages, scale);
    proof {
        if r {
            assert forall|i: int| 0 <= i < pages@.len() implies encoded_ok(#[trigger] pages@[i], scale as nat) by {
                assert(check_ok(PageCheck::Encoded, pages@[i], scale as nat));
            }
        } else {
            let i = choose|i: int|
                0 <= i < pages@.len() && !check_ok(PageCheck::Encoded, #[trigger] pages@[i], scale as nat);
            assert(!encoded_ok(pages@[i], scale as nat));
        }
    }
    r
}

/// Reuse is cumulative: a stage's files are only reused when every earlier
/// stage's are, and every page of a reused stage has reached it.
pub proof fn lemma_reuse_is_cumulative(pages: Seq<StoredPage>, scale: nat)
    ensures
        encoded_valid(pages, scale) ==> upscaled_valid(pages, scale),
        upscaled_valid(pages, scale) ==> cropped_valid(pages),
        cropped_valid(pages) ==> extracted_valid(pages),
        encoded_valid(pages, scale) ==> forall|i: int|
            0 <= i < pages.len() ==> (#[trigger] pages[i]).stage.rank() >= 3,
        upscaled_valid(pages, scale) ==> forall|i: int|
            0 <= i < pages.len() ==> (#[trigger] pages[i]).stage.rank() >= 2,
        cropped_valid(pages) ==> forall|i: int|
            0 <= i < pages.len() ==> (#[trigger] pages[i]).stage.rank() >= 1,
{
    if encoded_valid(pages, scale) {
        assert forall|i: int| 0 <= i < pages.len() implies (#[trigger] pages[i]).stage.rank() >= 3 by {
            assert(encoded_ok(pages[i], scale));
        }
    }
    if upscaled_valid(pages, scale) {
        assert forall|i: int| 0 <= i < pages.len() implies (#[trigger] pages[i]).stage.rank() >= 2 by {
            assert(upscaled_ok(pages[i], scale));
        }
    }
    if cropped_valid(pages) {
        assert forall|i: int| 0 <= i < pages.len() implies (#[trigger] pages[i]).stage.rank() >= 1 by {
            assert(cropped_ok(pages[i]));
        }
    }
}

// ---------------------------------------------------------------------
// What the run does next

/// The outside work of a run after the pages are extracted, in order.
#[derive(Debug, Clone, Copy, PartialEq, Eq, Structural)]
pub enum NextWork {
    ScanTailor,
    SuperResolution,
    Encode,
    WritePdf,
}

/// The work that follows a finished stage.
pub open spec fn work_after(done: BookScanStage) -> NextWork {
    match done {
        BookScanStage::Extracted => NextWork::ScanTailor,
        BookScanStage::ScanTailored => NextWork::SuperResolution,
        BookScanStage::Upscaled => NextWork::Encode,
        _ => NextWork::WritePdf,
    }
}

/// The stage number a work reports under.
pub open spec fn stage_number(work: NextWork) -> nat {
    match work {
        NextWork::ScanTailor => 2,
        NextWork::SuperResolution => 3,
        NextWork::Encode => 4,
        NextWork::WritePdf => 5,
    }
}

/// Whether the files an earlier run left for this work can stand in for
/// doing it again.
pub open spec fn reusable(work: NextWork, pages: Seq<StoredPage>, scale: nat) -> bool {
    match work {
        NextWork::ScanTailor => cropped_valid(pages),
        NextWork::SuperResolution => upscaled_valid(pages, scale),
        NextWork::Encode => encoded_valid(pages, scale),
        NextWork::WritePdf => false,
    }
}

/// The name a super-resolution mode is reported under.
pub open spec fn mode_name(mode: SuperResolutionMode) -> Seq<char> {
    match mode {
        SuperResolutionMode::Off => "Off"@,
        SuperResolutionMode::Anime => "Anime"@,
        SuperResolutionMode::Lanczos => "Lanczos"@,
    }
}

/// What the super-resolution stage announces when it runs.
pub open spec fn superres_message(config: BookScanConfig) -> Seq<char> {
    if config.super_resolution == SuperResolutionMode::Off {
        "超解像はOFFです"@
    } else {
        mode_name(config.super_resolution) + " AI x"@ + decimal(config.ai_scale() as nat) + " → 出力x"@
            + decimal(config.output_scale() as nat) + "（GPU worker "@ + decimal(config.gpu_workers as nat)
            + "）"@
    }
}

/// What a stage announces: that it reuses the earlier files, or what it
/// does.
pub open spec fn step_message(config: BookScanConfig, work: NextWork, reuse: bool) -> Seq<char> {
    match work {
        NextWork::ScanTailor => if reuse {
            "ScanTailor出力を再利用します"@
        } else {
            "ScanTailor前処理を実行します"@
        },
        NextWork::SuperResolution => if reuse {
            "超解像出力を再利用します"@
        } else {
            superres_message(config)
        },
        NextWork::Encode => if reuse {
            "JPEGを再利用します"@
        } else {
            "階調・文字色・太さ調整とJPEG化を実行します"@
        },
        NextWork::WritePdf => "A4 PDFへ書き出します"@,
    }
}

/// The next step of a run: the work, whether the earlier files are reused
/// in its place, and the progress message announcing it.
#[derive(Debug, Clone)]
pub struct PlannedStep {
    pub work: NextWork,
    pub reuse: bool,
    pub progress: BookScanProgress,
}

fn mode_text(mode: SuperResolutionMode) -> (r: &'static str)
    ensures
        r@ == mode_name(mode),
{
    match mode {
        SuperResolutionMode::Off => "Off",
        SuperResolutionMode::Anime => "Anime",
        SuperResolutionMode::Lanczos => "Lanczos",
    }
}

fn superres_text(config: &BookScanConfig) -> (r: String)
    ensures
        r@ == superres_message(*config),
{
    if config.super_resolution == SuperResolutionMode::Off {
        return "超解像はOFFです".to_string();
    }
    let mut m = chars_of(mode_text(config.super_resolution));
    push_str(&mut m, " AI x");
    push_all(&mut m, &decimal_chars(config.resolved_ai_scale() as u128));
    push_str(&mut m, " → 出力x");
    push_all(&mut m, &decimal_chars(config.effective_output_scale() as u128));
    push_str(&mut m, "（GPU worker ");
    push_all(&mut m, &decimal_chars(config.gpu_workers as u128));
    push_str(&mut m, "）");
    string_of(&m)
}

/// What the run does after stage `done`, given the pages as they stand on
/// disk: each of ScanTailor, super-resolution and encoding is skipped when
/// every page's output of it (and of the stages before) is there at the
/// expected size.
pub fn plan_after(config: &BookScanConfig, done: BookScanStage, pages: &Vec<StoredPage>) -> (r:
    PlannedStep)
    requires
        done != BookScanStage::PdfWritten,
    ensures
        r.work == work_after(done),
        r.reuse == reusable(r.work, pages@, config.output_scale() as nat),
        r.progress.stage == stage_number(r.work),
        r.progress.total_stages == crate::pipeline::TOTAL_STAGES,
        r.progress.message@ == step_message(*config, r.work, r.reuse),
        r.progress.completed is None,
        r.progress.total is None,
{
    match done {
        BookScanStage::Extracted => {
            let reuse = crop_pages_valid(pages);
            let m = if reuse {
                "ScanTailor出力を再利用します"
            } else {
                "ScanTailor前処理を実行します"
            };
            PlannedStep { work: NextWork::ScanTailor, reuse, progress: stage_update(2, m) }
        },
        BookScanStage::ScanTailored => {
            let reuse = processed_pages_valid(config, pages);
            let m = if reuse {
                "超解像出力を再利用します".to_string()
            } else {
                superres_text(config)
            };
            PlannedStep { work: NextWork::SuperResolution, reuse, progress: stage_update(3, m.as_str()) }
        },
        BookScanStage::Upscaled => {
            let reuse = encoded_pages_valid(config, pages);
            let m = if reuse {
                "JPEGを再利用します"
            } else {
                "階調・文字色・太さ調整とJPEG化を実行します"
            };
            PlannedStep { work: NextWork::Encode, reuse, progress: stage_update(4, m) }
        },
        _ => PlannedStep {
            work: NextWork::WritePdf,
            reuse: false,
            progress: stage_update(5, "A4 PDFへ書き出します"),
        },
    }
}

// ---------------------------------------------------------------------
// How a run starts

/// What a saved run left: whether its configuration asks for the same work
/// as this one, whether it finished, and its pages as they stand on disk.
#[derive(Debug, Clone)]
pub struct SavedRun {
    pub config_matches: bool,
    pub completed: bool,
    pub pages: Vec<StoredPage>,
}

/// How a run starts: with nothing to do, from the earlier run's extracted
/// pages, or by extracting the pages.
#[derive(Debug, Clone, Copy, PartialEq, Eq, Structural)]
pub enum RunStart {
    AlreadyDone,
    ReuseExtracted,
    Extract,
}

/// A resumed run whose earlier run finished the same work, with its PDF
/// still there, has nothing to do; one whose earlier run's source images are
/// all there reuses them; any other extracts the pages.
pub open spec fn start_of(resume: bool, saved: Option<SavedRun>, output_is_file: bool) -> RunStart {
    match saved {
        Some(s) => if resume && s.config_matches && s.completed && output_is_file {
            RunStart::AlreadyDone
        } else if resume && s.config_matches && extracted_valid(s.pages@) {
            RunStart::ReuseExtracted
        } else {
            RunStart::Extract
        },
        None => RunStart::Extract,
    }
}

/// How a run starts, given whether it resumes, the saved run if one could
/// be read, and whether the output PDF is a file; with the progress message
/// that announces it.
pub fn plan_start(resume: bool, saved: &Option<SavedRun>, output_is_file: bool) -> (r: (
    RunStart,
    BookScanProgress,
))
    ensures
        r.0 == start_of(resume, *saved, output_is_file),
        r.0 == RunStart::AlreadyDone ==> r.1.stage == 5 && r.1.total_stages == 5 && r.1.message@
            == "完了済みPDFを確認しました"@ && r.1.completed == Some(1usize) && r.1.total == Some(1usize),
        r.0 == RunStart::ReuseExtracted ==> r.1.stage == 1 && r.1.total_stages == 5 && r.1.message@
            == "検証済み入力画像を再利用します"@ && r.1.completed is None && r.1.total is None,
        r.0 == RunStart::Extract ==> r.1.stage == 1 && r.1.total_stages == 5 && r.1.message@
            == "入力ページを抽出して空白を判定します"@ && r.1.completed is None && r.1.total is None,
{
    let start = match saved {
        Some(s) => if resume && s.config_matches && s.completed && output_is_file {
            RunStart::AlreadyDone
        } else if resume && s.config_matches && extracted_pages_valid(&s.pages) {
            RunStart::ReuseExtracted
        } else {
            RunStart::Extract
        },
        None => RunStart::Extract,
    };
    let progress = match start {
        RunStart::AlreadyDone => BookScanProgress {
            stage: 5,
            total_stages: 5,
            message: "完了済みPDFを確認しました".to_string(),
            completed: Some(1),
            total: Some(1),
        },
        RunStart::ReuseExtracted => stage_update(1, "検証済み入力画像を再利用します"),
        RunStart::Extract => stage_update(1, "入力ページを抽出して空白を判定します"),
    };
    (start, progress)
}

/// The number of blank pages.
pub open spec fn count_blank(pages: Seq<StoredPage>) -> nat
    decreases pages.len(),
{
    if pages.len() == 0 {
        0
    } else {
        count_blank(pages.drop_last()) + if pages.last().is_blank {
            1nat
        } else {
            0
        }
    }
}

/// The number of blank pages, as a run reports it.
pub fn blank_page_count(pages: &Vec<StoredPage>) -> (n: usize)
    ensures
        n == count_blank(pages@),
{
    let mut n: usize = 0;
    let mut i: usize = 0;
    while i < pages.len()
        invariant
            i <= pages.len(),
            n == count_blank(pages@.take(i as int)),
            n <= i,
        decreases pages.len() - i,
    {
        assert(pages@.take(i + 1).drop_last() =~= pages@.take(i as int));
        if pages[i].is_blank {
            n = n + 1;
        }
        i = i + 1;
    }
    assert(pages@.take(i as int) =~= pages@);
    n
}

/// After extraction with blank detection on: how many pages were found
/// blank. Nothing when detection is off.
pub fn extraction_notice(blank_detection_enabled: bool, blank_count: usize) -> (r: Option<
    BookScanProgress,
>)
    ensures
        blank_detection_enabled <==> r is Some,
        r matches Some(p) ==> p.stage == 1 && p.total_stages == 5 && p.message@ == "入力抽出完了（空白"@
            + decimal(blank_count as nat) + "ページ）"@ && p.completed is None && p.total is None,
{
    if !blank_detection_enabled {
        return None;
    }
    let mut m = chars_of("入力抽出完了（空白");
    push_all(&mut m, &decimal_chars(blank_count as u128));
    push_str(&mut m, "ページ）");
    Some(stage_update(1, string_of(&m).as_str()))
}

/// Before encoding: which pages are made one-component gray. Nothing when
/// none are.
pub fn grayscale_notice(grayscale_pages: &Vec<PageRange>) -> (r: Option<BookScanProgress>)
    ensures
        grayscale_pages@.len() > 0 <==> r is Some,
        r matches Some(p) ==> p.stage == 4 && p.total_stages == 5 && p.message@ == "指定ページ ["@
            + PageRange::list_text(grayscale_pages@) + "] を1成分Gray化"@ && p.completed is None
            && p.total is None,
{
    if grayscale_pages.len() == 0 {
        return None;
    }
    let mut m = chars_of("指定ページ [");
    push_str(&mut m, PageRange::format_list(grayscale_pages.as_slice()).as_str());
    push_str(&mut m, "] を1成分Gray化");
    Some(stage_update(4, string_of(&m).as_str()))
}

} // verus!
