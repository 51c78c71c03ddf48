//! ScanTailor preprocessing: which pages it sees, and the command line it
//! is run with.
use vstd::prelude::*;
use crate::cli::string_views;
use crate::config::{listed, BookScanConfig};
use crate::text::{chars_of, decimal, decimal_chars, push_all, push_str, string_of};

verus! {

/// The switches that keep ScanTailor from deskewing. Automatic deskew is
/// ScanTailor's default; naming it on the command line would select manual
/// mode at angle 0, so nothing is passed when deskew is wanted.
pub open spec fn deskew_args(enabled: bool) -> Seq<Seq<char>> {
    if enabled {
        Seq::empty()
    } else {
        seq!["--rotate=0"@, "--deskew=manual"@]
    }
}

/// The deskew switches for ScanTailor.
pub fn configure_deskew(enabled: bool) -> (r: Vec<String>)
    ensures
        string_views(r@) == deskew_args(enabled),
{
    let mut r: Vec<String> = Vec::new();
    if !enabled {
        r.push("--rotate=0".to_string());
        r.push("--deskew=manual".to_string());
    }
    assert(string_views(r@) =~= deskew_args(enabled));
    r
}

/// `prefix` followed by `value`.
pub open spec fn with_value(prefix: Seq<char>, value: Seq<char>) -> Seq<char> {
    prefix + value
}

/// ScanTailor's command line, with the real-valued settings already written
/// out as text.
pub open spec fn scantailor_args(
    c: BookScanConfig,
    margins: Seq<char>,
    despeckle: Seq<char>,
    tolerance: Seq<char>,
    project: Seq<char>,
    source_dir: Seq<char>,
    output_dir: Seq<char>,
) -> Seq<Seq<char>> {
    seq!["--layout=1"@] + deskew_args(c.deskew_enabled) + seq![
        "--dpi="@ + decimal(c.dpi as nat),
        "--output-dpi="@ + decimal(c.output_dpi as nat),
        "--margins="@ + margins,
        "--alignment=original"@,
        "--match-layout=false"@,
        "--color-mode=color_grayscale"@,
        "--despeckle="@ + despeckle,
        if c.dewarp_enabled {
            "--dewarping=auto"@
        } else {
            "--dewarping=off"@
        },
        "--tiff-force-rgb"@,
        "--output-project="@ + project,
    ] + (if c.crop_enabled {
        seq![
            "--enable-page-detection"@,
            "--enable-fine-tuning"@,
            "--page-detection-tolerance="@ + tolerance,
        ]
    } else {
        seq!["--force-disable-page-detection"@, "--disable-content-detection"@]
    }) + (if c.normalize_illumination {
        seq!["--normalize-illumination"@]
    } else {
        Seq::empty()
    }) + seq![source_dir, output_dir]
}

fn joined(prefix: &str, value: &Vec<char>) -> (r: String)
    ensures
        r@ == prefix@ + value@,
{
    let mut v = chars_of(prefix);
    push_all(&mut v, value);
    string_of(&v)
}

/// ScanTailor's command line.
pub fn scantailor_arguments(
    config: &BookScanConfig,
    margins: &str,
    despeckle: &str,
    tolerance: &str,
    project: &str,
    source_dir: &str,
    output_dir: &str,
) -> (r: Vec<String>)
    ensures
        string_views(r@) == scantailor_args(
            *config,
            margins@,
            despeckle@,
            tolerance@,
            project@,
            source_dir@,
            output_dir@,
        ),
{
    let mut r: Vec<String> = Vec::new();
    r.push("--layout=1".to_string());
    if !config.deskew_enabled {
        r.push("--rotate=0".to_string());
        r.push("--deskew=manual".to_string());
    }
    let ghost a = seq!["--layout=1"@] + deskew_args(config.deskew_enabled);
    assert(string_views(r@) =~= a);
    r.push(joined("--dpi=", &decimal_chars(config.dpi as u128)));
    r.push(joined("--output-dpi=", &decimal_chars(config.output_dpi as u128)));
    r.push(joined("--margins=", &chars_of(margins)));
    r.push("--alignment=original".to_string());
    r.push("--match-layout=false".to_string());
    r.push("--color-mode=color_grayscale".to_string());
    r.push(joined("--despeckle=", &chars_of(despeckle)));
    if config.dewarp_enabled {
        r.push("--dewarping=auto".to_string());
    } else {
        r.push("--dewarping=off".to_string());
    }
    r.push("--tiff-force-rgb".to_string());
    r.push(joined("--output-project=", &chars_of(project)));
    let ghost b = a + seq![
        "--dpi="@ + decimal(config.dpi as nat),
        "--output-dpi="@ + decimal(config.output_dpi as nat),
        "--margins="@ + margins@,
        "--alignment=original"@,
        "--match-layout=false"@,
        "--color-mode=color_grayscale"@,
        "--despeckle="@ + despeckle@,
        if config.dewarp_enabled {
            "--dewarping=auto"@
        } else {
            "--dewarping=off"@
        },
        "--tiff-force-rgb"@,
        "--output-project="@ + project@,
    ];
    assert(string_views(r@) =~= b);
    if config.crop_enabled {
        r.push("--enable-page-detection".to_string());
        r.push("--enable-fine-tuning".to_string());
        r.push(joined("--page-detection-tolerance=", &chars_of(tolerance)));
    } else {
        r.push("--force-disable-page-detection".to_string());
        r.push("--disable-content-detection".to_string());
    }
    if config.normalize_illumination {
        r.push("--normalize-illumination".to_string());
    }
    r.push(source_dir.to_string());
    r.push(output_dir.to_string());
    assert(string_views(r@) =~= scantailor_args(
        *config,
        margins@,
        despeckle@,
        tolerance@,
        project@,
        source_dir@,
        output_dir@,
    ));
    r
}

/// A page ScanTailor does not see: blank, or excluded from cropping.
pub open spec fn passes_through(c: BookScanConfig, is_blank: bool, page_number: usize) -> bool {
    is_blank || (c.crop_enabled && listed(c.crop_exclude_pages@, page_number as int))
}

/// For each page, whether it is used as it is rather than through
/// ScanTailor; every page is when ScanTailor is off.
pub fn passthrough_pages(config: &BookScanConfig, blank: &Vec<bool>, page_numbers: &Vec<usize>) -> (r:
    Vec<bool>)
    requires
        blank@.len() == page_numbers@.len(),
    ensures
        r@.len() == blank@.len(),
        forall|i: int|
            0 <= i < r@.len() ==> #[trigger] r@[i] == (!config.scantailor_enabled || passes_through(
                *config,
                blank@[i],
                page_numbers@[i],
            )),
{
    let mut r: Vec<bool> = Vec::new();
    let mut i: usize = 0;
    while i < blank.len()
        invariant
            i <= blank.len() == page_numbers.len(),
            r@.len() == i,
            forall|j: int|
                0 <= j < i ==> #[trigger] r@[j] == (!config.scantailor_enabled || passes_through(
                    *config,
                    blank@[j],
                    page_numbers@[j],
                )),
        decreases blank.len() - i,
    {
        let through = !config.scantailor_enabled || blank[i] || config.crop_excluded(page_numbers[i]);
        r.push(through);
        i = i + 1;
    }
    r
}

/// Whether ScanTailor has to run: some page does not pass through.
pub fn scantailor_needed(passthrough: &Vec<bool>) -> (r: bool)
    ensures
        r == exists|i: int| 0 <= i < passthrough@.len() && !passthrough@[i],
{
    let mut i: usize = 0;
    while i < passthrough.len()
        invariant
            i <= passthrough.len(),
            forall|j: int| 0 <= j < i ==> passthrough@[j],
        decreases passthrough.len() - i,
    {
        if !passthrough[i] {
            return true;
        }
        i = i + 1;
    }
    false
}

/// What the ScanTailor step does for the pages: nothing when it is
/// switched off, nothing when every page passes through, else a run.
#[derive(Debug, Clone, Copy, PartialEq, Eq, Structural)]
pub enum ScanTailorRun {
    Disabled,
    AllPassThrough,
    Run,
}

impl ScanTailorRun {
    /// The project file the step leaves in the work folder (a placeholder
    /// name where ScanTailor does not run).
    pub fn project_file_name(self) -> (r: &'static str)
        ensures
            r@ == match self {
                ScanTailorRun::Disabled => "scantailor-disabled.ScanTailor"@,
                ScanTailorRun::AllPassThrough => "all-pages-blank.ScanTailor"@,
                ScanTailorRun::Run => "book.ScanTailor"@,
            },
    {
        match self {
            ScanTailorRun::Disabled => "scantailor-disabled.ScanTailor",
            ScanTailorRun::AllPassThrough => "all-pages-blank.ScanTailor",
            ScanTailorRun::Run => "book.ScanTailor",
        }
    }
}

/// Whether ScanTailor runs, given whether it is enabled and which pages
/// pass through it.
pub fn scantailor_run(enabled: bool, passthrough: &Vec<bool>) -> (r: ScanTailorRun)
    ensures
        r == if !enabled {
            ScanTailorRun::Disabled
        } else if forall|i: int| 0 <= i < passthrough@.len() ==> passthrough@[i] {
            ScanTailorRun::AllPassThrough
        } else {
            ScanTailorRun::Run
        },
{
    if !enabled {
        ScanTailorRun::Disabled
    } else if scantailor_needed(passthrough) {
        ScanTailorRun::Run
    } else {
        ScanTailorRun::AllPassThrough
    }
}

/// The message for a ScanTailor output of the wrong size.
pub fn output_size_mismatch(stem: &str, expected: (u32, u32), actual: (u32, u32)) -> (m: String)
    ensures
        m@ == "ScanTailor出力寸法が不一致です: "@ + stem@ + " expected="@ + decimal(expected.0 as nat)
            + "x"@ + decimal(expected.1 as nat) + " actual="@ + decimal(actual.0 as nat) + "x"@
            + decimal(actual.1 as nat),
{
    let mut v = chars_of("ScanTailor出力寸法が不一致です: ");
    push_str(&mut v, stem);
    push_str(&mut v, " expected=");
    push_all(&mut v, &decimal_chars(expected.0 as u128));
    push_str(&mut v, "x");
    push_all(&mut v, &decimal_chars(expected.1 as u128));
    push_str(&mut v, " actual=");
    push_all(&mut v, &decimal_chars(actual.0 as u128));
    push_str(&mut v, "x");
    push_all(&mut v, &decimal_chars(actual.1 as u128));
    string_of(&v)
}

} // verus!
