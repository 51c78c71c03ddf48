//! Command-line parsing: the three modes, the book-scan option table, and the
//! rules by which option values are read, checked and reported.
use vstd::prelude::*;
use crate::config::{
    default_crop_exclude_pages, default_ink_neutralization_exclude_pages, default_tone_exclude_pages,
    first_page_only, BookScanConfig, JpegSampling, PageRange, PartialGrayscaleMode, SuperResolutionMode,
};
use crate::paths::{
    book_output_name, default_book_output_path, default_image_output_folder, image_folder_name,
    joined_either, opt_text, output_base, parent_part, simple_path,
};
use crate::pdf2img::OutputImageFormat;
use crate::constants::DEFAULT_WIDTH;
use crate::text::{
    chars_eq, chars_of, contains_char, decimal, decimal_chars, float_literal, is_float_literal, parse_i32_chars,
    parse_i32_spec, parse_unsigned, parse_unsigned_chars, starts_with_chars, has_prefix, is_text, push_all, push_str, slice_chars, split_once,
    split_once_chars, starts_with_text, string_of, to_lower, to_lower_chars, views,
};

verus! {

/// Where an option is listed in the book-scan help.
#[derive(Debug, Clone, Copy, PartialEq, Eq, Structural)]
pub enum BookOptionSection {
    Page,
    Blank,
    ScanTailor,
    SuperResolution,
    ToneAndJpeg,
    Shortcut,
}

/// Whether an option takes a value.
#[derive(Debug, Clone, Copy, PartialEq, Eq, Structural)]
pub enum BookOptionArity {
    Value,
    OptionalValue,
    Flag,
}

/// One row of the book-scan option table.
#[derive(Debug, Clone, Copy)]
pub struct BookOptionSpec {
    pub name: &'static str,
    pub value: &'static str,
    pub arity: BookOptionArity,
    pub section: BookOptionSection,
    pub description: &'static str,
    pub default: &'static str,
}

/// Number of rows in the book-scan option table.
pub const BOOK_OPTION_COUNT: usize = 64;

pub open spec fn valued(
    name: &'static str,
    value: &'static str,
    section: BookOptionSection,
    description: &'static str,
    default: &'static str,
) -> BookOptionSpec {
    BookOptionSpec { name, value, arity: BookOptionArity::Value, section, description, default }
}

pub open spec fn flag(
    name: &'static str,
    section: BookOptionSection,
    description: &'static str,
) -> BookOptionSpec {
    BookOptionSpec {
        name,
        value: "",
        arity: BookOptionArity::Flag,
        section,
        description,
        default: "",
    }
}

fn valued_option(
    name: &'static str,
    value: &'static str,
    section: BookOptionSection,
    description: &'static str,
    default: &'static str,
) -> (r: BookOptionSpec)
    ensures
        r == valued(name, value, section, description, default),
{
    BookOptionSpec { name, value, arity: BookOptionArity::Value, section, description, default }
}

fn flag_option(
    name: &'static str,
    section: BookOptionSection,
    description: &'static str,
) -> (r: BookOptionSpec)
    ensures
        r == flag(name, section, description),
{
    BookOptionSpec {
        name,
        value: "",
        arity: BookOptionArity::Flag,
        section,
        description,
        default: "",
    }
}

/// Row `i` of the book-scan option table, in help order.
pub open spec fn book_option(i: int) -> BookOptionSpec
    recommends
        0 <= i < BOOK_OPTION_COUNT,
{
    if i == 0 {
        valued("--pages", "<N|START-END>", BookOptionSection::Page, "処理対象ページ", "全ページ")
    } else if i == 1 {
        valued("--work-dir", "<PATH>", BookOptionSection::Page, "作業フォルダ", "$TMPDIR/img2pdf-book-...")
    } else if i == 2 {
        valued("--resume", "<on|off>", BookOptionSection::Page, "検証済み段階を再利用", "on")
    } else if i == 3 {
        BookOptionSpec {
            name: "--keep-work",
            value: "[on|off]",
            arity: BookOptionArity::OptionalValue,
            section: BookOptionSection::Page,
            description: "成功後も中間画像を保持",
            default: "off",
        }
    } else if i == 4 {
        valued("--blank-detection", "<on|off>", BookOptionSection::Blank, "保守的な空白判定", "on")
    } else if i == 5 {
        valued("--blank-dark-delta", "<1..255>", BookOptionSection::Blank, "背景から暗部とみなす差", "25")
    } else if i == 6 {
        valued("--blank-max-dark-ratio", "<0..0.1>", BookOptionSection::Blank, "空白とみなす最大暗部比率", "0.0005")
    } else if i == 7 {
        valued("--blank-edge-threshold", "<1..255>", BookOptionSection::Blank, "エッジの輝度差", "12")
    } else if i == 8 {
        valued("--blank-max-edge-ratio", "<0..0.1>", BookOptionSection::Blank, "空白とみなす最大エッジ比率", "0.0005")
    } else if i == 9 {
        valued("--scantailor", "<on|off>", BookOptionSection::ScanTailor, "ScanTailor全体", "on")
    } else if i == 10 {
        valued("--crop", "<on|off>", BookOptionSection::ScanTailor, "ページ領域検出", "on")
    } else if i == 11 {
        valued("--crop-exclude-pages", "<LIST>", BookOptionSection::ScanTailor, "cropしないページ（例: 1,10-12）", "1")
    } else if i == 12 {
        valued("--normalize", "<on|off>", BookOptionSection::ScanTailor, "背景照明正規化", "on")
    } else if i == 13 {
        valued("--color-normalize", "<on|off>", BookOptionSection::ScanTailor, "RGBのカラー紙面補正", "on")
    } else if i == 14 {
        valued("--color-normalize-strength", "<0..100>", BookOptionSection::ScanTailor, "カラー紙面補正の強さ", "100")
    } else if i == 15 {
        valued("--color-normalize-radius", "<1..256>", BookOptionSection::ScanTailor, "背景推定半径", "40")
    } else if i == 16 {
        valued("--ink-neutralize", "<on|off>", BookOptionSection::ScanTailor, "黒文字近傍だけ色差を除去", "off")
    } else if i == 17 {
        valued("--ink-neutralize-strength", "<0..100>", BookOptionSection::ScanTailor, "黒インク補正の強さ", "100")
    } else if i == 18 {
        valued("--ink-neutralize-exclude-pages", "<LIST>", BookOptionSection::ScanTailor, "黒インク補正をしないページ", "1")
    } else if i == 19 {
        valued("--deskew", "<on|off>", BookOptionSection::ScanTailor, "傾き補正", "off")
    } else if i == 20 {
        valued("--dewarp", "<on|off>", BookOptionSection::ScanTailor, "湾曲補正", "off")
    } else if i == 21 {
        valued("--margins", "<NUMBER>", BookOptionSection::ScanTailor, "余白", "0")
    } else if i == 22 {
        valued("--dpi", "<NUMBER>", BookOptionSection::ScanTailor, "入力DPI", "300")
    } else if i == 23 {
        valued("--output-dpi", "<NUMBER>", BookOptionSection::ScanTailor, "出力DPI", "300")
    } else if i == 24 {
        valued("--despeckle", "<1.0..3.0>", BookOptionSection::ScanTailor, "ノイズ除去", "1.0")
    } else if i == 25 {
        valued("--page-detection-tolerance", "<0..1>", BookOptionSection::ScanTailor, "ページ検出許容値", "0.1")
    } else if i == 26 {
        valued("--scantailor-path", "<PATH>", BookOptionSection::ScanTailor, "scantailor-cliの明示パス", "自動検出")
    } else if i == 27 {
        valued("--superres", "<off|anime|lanczos>", BookOptionSection::SuperResolution, "超解像方式", "anime")
    } else if i == 28 {
        valued("--output-scale", "<1..4>", BookOptionSection::SuperResolution, "最終画像の画素倍率", "1")
    } else if i == 29 {
        valued("--ai-scale", "<2..4>", BookOptionSection::SuperResolution, "Real-ESRGAN内部倍率", "2")
    } else if i == 30 {
        valued("--scale", "<1..4>", BookOptionSection::SuperResolution, "--output-scaleの旧名", "1")
    } else if i == 31 {
        valued("--inference-scale", "<2..4>", BookOptionSection::SuperResolution, "--ai-scaleの旧名", "2")
    } else if i == 32 {
        valued("--model", "<NAME>", BookOptionSection::SuperResolution, "Real-ESRGAN model", "realesr-animevideov3")
    } else if i == 33 {
        valued("--gpu-workers", "<1..8>", BookOptionSection::SuperResolution, "GPUプロセス数", "4")
    } else if i == 34 {
        valued("--cpu-workers", "<1..64>", BookOptionSection::SuperResolution, "CPU後処理worker数", "2")
    } else if i == 35 {
        valued("--tile", "<NUMBER>", BookOptionSection::SuperResolution, "ncnn tile size（0はauto）", "0")
    } else if i == 36 {
        valued("--gpu-id", "<NUMBER>", BookOptionSection::SuperResolution, "GPU ID（-1はauto）", "-1")
    } else if i == 37 {
        valued("--tta", "<on|off>", BookOptionSection::SuperResolution, "TTA", "off")
    } else if i == 38 {
        valued("--realesrgan-path", "<PATH>", BookOptionSection::SuperResolution, "realesrgan-ncnn-vulkanの明示パス", "自動検出")
    } else if i == 39 {
        valued("--model-dir", "<PATH>", BookOptionSection::SuperResolution, "modelフォルダ", "実行ファイル隣接")
    } else if i == 40 {
        valued("--pre-stroke", "<on|off>", BookOptionSection::SuperResolution, "超解像前の線補強", "off")
    } else if i == 41 {
        valued("--pre-stroke-strength", "<0..100>", BookOptionSection::SuperResolution, "超解像前Minimum blend率", "5")
    } else if i == 42 {
        valued("--tone-boost", "<on|off>", BookOptionSection::ToneAndJpeg, "紙・インク基準の階調補正", "on")
    } else if i == 43 {
        valued("--tone-boost-strength", "<0..100>", BookOptionSection::ToneAndJpeg, "階調補正の強さ", "100")
    } else if i == 44 {
        valued("--stroke", "<on|off>", BookOptionSection::ToneAndJpeg, "文字太さ調整", "off")
    } else if i == 45 {
        valued("--stroke-strength", "<0..100>", BookOptionSection::ToneAndJpeg, "Minimum blend率", "15")
    } else if i == 46 {
        valued("--tone-color-global-threshold", "<0..1>", BookOptionSection::ToneAndJpeg, "tone boost用の全体色面積閾値", "0.01")
    } else if i == 47 {
        valued("--tone-color-tile-threshold", "<0..1>", BookOptionSection::ToneAndJpeg, "tone boost用の局所色面積閾値", "0.30")
    } else if i == 48 {
        valued("--tone-exclude-pages", "<LIST>", BookOptionSection::ToneAndJpeg, "tone boostを適用しないページ", "1")
    } else if i == 49 {
        valued("--grayscale-pages", "<LIST>", BookOptionSection::ToneAndJpeg, "指定ページだけ全体を1成分Gray化", "無効")
    } else if i == 50 {
        valued("--jpeg-quality", "<1..100>", BookOptionSection::ToneAndJpeg, "JPEG品質", "90")
    } else if i == 51 {
        valued("--jpeg-sampling", "<444|422|420>", BookOptionSection::ToneAndJpeg, "chroma sampling", "444")
    } else if i == 52 {
        valued("--preserve-position", "<on|off>", BookOptionSection::ToneAndJpeg, "A4上で元位置・等倍比を保持", "on")
    } else if i == 53 {
        flag("--no-scantailor", BookOptionSection::Shortcut, "ScanTailor全体を無効化")
    } else if i == 54 {
        flag("--no-blank-detection", BookOptionSection::Shortcut, "空白判定を無効化")
    } else if i == 55 {
        flag("--no-crop", BookOptionSection::Shortcut, "cropを無効化")
    } else if i == 56 {
        flag("--no-normalize", BookOptionSection::Shortcut, "背景照明正規化を無効化")
    } else if i == 57 {
        flag("--no-color-normalize", BookOptionSection::Shortcut, "カラー紙面補正を無効化")
    } else if i == 58 {
        flag("--no-ink-neutralize", BookOptionSection::Shortcut, "黒インク補正を無効化")
    } else if i == 59 {
        flag("--no-tone-boost", BookOptionSection::Shortcut, "tone boostを無効化")
    } else if i == 60 {
        flag("--no-stroke", BookOptionSection::Shortcut, "文字太さ調整を無効化")
    } else if i == 61 {
        flag("--no-resume", BookOptionSection::Shortcut, "中断再開を無効化")
    } else if i == 62 {
        flag("--max-performance", BookOptionSection::Shortcut, "最大性能モード")
    } else {
        flag("--no-max-performance", BookOptionSection::Shortcut, "最大性能モードを無効化")
    }
}

/// Row `i` of the book-scan option table.
pub fn book_option_at(i: usize) -> (r: BookOptionSpec)
    requires
        i < BOOK_OPTION_COUNT,
    ensures
        r == book_option(i as int),
{
    match i {
        0 => valued_option("--pages", "<N|START-END>", BookOptionSection::Page, "処理対象ページ", "全ページ"),
        1 => valued_option("--work-dir", "<PATH>", BookOptionSection::Page, "作業フォルダ", "$TMPDIR/img2pdf-book-..."),
        2 => valued_option("--resume", "<on|off>", BookOptionSection::Page, "検証済み段階を再利用", "on"),
        3 => BookOptionSpec {
            name: "--keep-work",
            value: "[on|off]",
            arity: BookOptionArity::OptionalValue,
            section: BookOptionSection::Page,
            description: "成功後も中間画像を保持",
            default: "off",
        },
        4 => valued_option("--blank-detection", "<on|off>", BookOptionSection::Blank, "保守的な空白判定", "on"),
        5 => valued_option("--blank-dark-delta", "<1..255>", BookOptionSection::Blank, "背景から暗部とみなす差", "25"),
        6 => valued_option("--blank-max-dark-ratio", "<0..0.1>", BookOptionSection::Blank, "空白とみなす最大暗部比率", "0.0005"),
        7 => valued_option("--blank-edge-threshold", "<1..255>", BookOptionSection::Blank, "エッジの輝度差", "12"),
        8 => valued_option("--blank-max-edge-ratio", "<0..0.1>", BookOptionSection::Blank, "空白とみなす最大エッジ比率", "0.0005"),
        9 => valued_option("--scantailor", "<on|off>", BookOptionSection::ScanTailor, "ScanTailor全体", "on"),
        10 => valued_option("--crop", "<on|off>", BookOptionSection::ScanTailor, "ページ領域検出", "on"),
        11 => valued_option("--crop-exclude-pages", "<LIST>", BookOptionSection::ScanTailor, "cropしないページ（例: 1,10-12）", "1"),
        12 => valued_option("--normalize", "<on|off>", BookOptionSection::ScanTailor, "背景照明正規化", "on"),
        13 => valued_option("--color-normalize", "<on|off>", BookOptionSection::ScanTailor, "RGBのカラー紙面補正", "on"),
        14 => valued_option("--color-normalize-strength", "<0..100>", BookOptionSection::ScanTailor, "カラー紙面補正の強さ", "100"),
        15 => valued_option("--color-normalize-radius", "<1..256>", BookOptionSection::ScanTailor, "背景推定半径", "40"),
        16 => valued_option("--ink-neutralize", "<on|off>", BookOptionSection::ScanTailor, "黒文字近傍だけ色差を除去", "off"),
        17 => valued_option("--ink-neutralize-strength", "<0..100>", BookOptionSection::ScanTailor, "黒インク補正の強さ", "100"),
        18 => valued_option("--ink-neutralize-exclude-pages", "<LIST>", BookOptionSection::ScanTailor, "黒インク補正をしないページ", "1"),
        19 => valued_option("--deskew", "<on|off>", BookOptionSection::ScanTailor, "傾き補正", "off"),
        20 => valued_option("--dewarp", "<on|off>", BookOptionSection::ScanTailor, "湾曲補正", "off"),
        21 => valued_option("--margins", "<NUMBER>", BookOptionSection::ScanTailor, "余白", "0"),
        22 => valued_option("--dpi", "<NUMBER>", BookOptionSection::ScanTailor, "入力DPI", "300"),
        23 => valued_option("--output-dpi", "<NUMBER>", BookOptionSection::ScanTailor, "出力DPI", "300"),
        24 => valued_option("--despeckle", "<1.0..3.0>", BookOptionSection::ScanTailor, "ノイズ除去", "1.0"),
        25 => valued_option("--page-detection-tolerance", "<0..1>", BookOptionSection::ScanTailor, "ページ検出許容値", "0.1"),
        26 => valued_option("--scantailor-path", "<PATH>", BookOptionSection::ScanTailor, "scantailor-cliの明示パス", "自動検出"),
        27 => valued_option("--superres", "<off|anime|lanczos>", BookOptionSection::SuperResolution, "超解像方式", "anime"),
        28 => valued_option("--output-scale", "<1..4>", BookOptionSection::SuperResolution, "最終画像の画素倍率", "1"),
        29 => valued_option("--ai-scale", "<2..4>", BookOptionSection::SuperResolution, "Real-ESRGAN内部倍率", "2"),
        30 => valued_option("--scale", "<1..4>", BookOptionSection::SuperResolution, "--output-scaleの旧名", "1"),
        31 => valued_option("--inference-scale", "<2..4>", BookOptionSection::SuperResolution, "--ai-scaleの旧名", "2"),
        32 => valued_option("--model", "<NAME>", BookOptionSection::SuperResolution, "Real-ESRGAN model", "realesr-animevideov3"),
        33 => valued_option("--gpu-workers", "<1..8>", BookOptionSection::SuperResolution, "GPUプロセス数", "4"),
        34 => valued_option("--cpu-workers", "<1..64>", BookOptionSection::SuperResolution, "CPU後処理worker数", "2"),
        35 => valued_option("--tile", "<NUMBER>", BookOptionSection::SuperResolution, "ncnn tile size（0はauto）", "0"),
        36 => valued_option("--gpu-id", "<NUMBER>", BookOptionSection::SuperResolution, "GPU ID（-1はauto）", "-1"),
        37 => valued_option("--tta", "<on|off>", BookOptionSection::SuperResolution, "TTA", "off"),
        38 => valued_option("--realesrgan-path", "<PATH>", BookOptionSection::SuperResolution, "realesrgan-ncnn-vulkanの明示パス", "自動検出"),
        39 => valued_option("--model-dir", "<PATH>", BookOptionSection::SuperResolution, "modelフォルダ", "実行ファイル隣接"),
        40 => valued_option("--pre-stroke", "<on|off>", BookOptionSection::SuperResolution, "超解像前の線補強", "off"),
        41 => valued_option("--pre-stroke-strength", "<0..100>", BookOptionSection::SuperResolution, "超解像前Minimum blend率", "5"),
        42 => valued_option("--tone-boost", "<on|off>", BookOptionSection::ToneAndJpeg, "紙・インク基準の階調補正", "on"),
        43 => valued_option("--tone-boost-strength", "<0..100>", BookOptionSection::ToneAndJpeg, "階調補正の強さ", "100"),
        44 => valued_option("--stroke", "<on|off>", BookOptionSection::ToneAndJpeg, "文字太さ調整", "off"),
        45 => valued_option("--stroke-strength", "<0..100>", BookOptionSection::ToneAndJpeg, "Minimum blend率", "15"),
        46 => valued_option("--tone-color-global-threshold", "<0..1>", BookOptionSection::ToneAndJpeg, "tone boost用の全体色面積閾値", "0.01"),
        47 => valued_option("--tone-color-tile-threshold", "<0..1>", BookOptionSection::ToneAndJpeg, "tone boost用の局所色面積閾値", "0.30"),
        48 => valued_option("--tone-exclude-pages", "<LIST>", BookOptionSection::ToneAndJpeg, "tone boostを適用しないページ", "1"),
        49 => valued_option("--grayscale-pages", "<LIST>", BookOptionSection::ToneAndJpeg, "指定ページだけ全体を1成分Gray化", "無効"),
        50 => valued_option("--jpeg-quality", "<1..100>", BookOptionSection::ToneAndJpeg, "JPEG品質", "90"),
        51 => valued_option("--jpeg-sampling", "<444|422|420>", BookOptionSection::ToneAndJpeg, "chroma sampling", "444"),
        52 => valued_option("--preserve-position", "<on|off>", BookOptionSection::ToneAndJpeg, "A4上で元位置・等倍比を保持", "on"),
        53 => flag_option("--no-scantailor", BookOptionSection::Shortcut, "ScanTailor全体を無効化"),
        54 => flag_option("--no-blank-detection", BookOptionSection::Shortcut, "空白判定を無効化"),
        55 => flag_option("--no-crop", BookOptionSection::Shortcut, "cropを無効化"),
        56 => flag_option("--no-normalize", BookOptionSection::Shortcut, "背景照明正規化を無効化"),
        57 => flag_option("--no-color-normalize", BookOptionSection::Shortcut, "カラー紙面補正を無効化"),
        58 => flag_option("--no-ink-neutralize", BookOptionSection::Shortcut, "黒インク補正を無効化"),
        59 => flag_option("--no-tone-boost", BookOptionSection::Shortcut, "tone boostを無効化"),
        60 => flag_option("--no-stroke", BookOptionSection::Shortcut, "文字太さ調整を無効化"),
        61 => flag_option("--no-resume", BookOptionSection::Shortcut, "中断再開を無効化"),
        62 => flag_option("--max-performance", BookOptionSection::Shortcut, "最大性能モード"),
        _ => flag_option("--no-max-performance", BookOptionSection::Shortcut, "最大性能モードを無効化"),
    }
}


/// The first row named `name` at or after row `i`.
pub open spec fn option_index_from(name: Seq<char>, i: int) -> Option<int>
    decreases BOOK_OPTION_COUNT - i,
{
    if i < 0 || i >= BOOK_OPTION_COUNT {
        None
    } else if book_option(i).name@ == name {
        Some(i)
    } else {
        option_index_from(name, i + 1)
    }
}

/// The row of the table named `name`, if any.
pub open spec fn option_index(name: Seq<char>) -> Option<int> {
    option_index_from(name, 0)
}

pub proof fn lemma_option_index_range(name: Seq<char>, i: int)
    requires
        0 <= i,
    ensures
        option_index_from(name, i) matches Some(k) ==> i <= k < BOOK_OPTION_COUNT
            && book_option(k).name@ == name,
    decreases BOOK_OPTION_COUNT - i,
{
    if i < BOOK_OPTION_COUNT && book_option(i).name@ != name {
        lemma_option_index_range(name, i + 1);
    }
}

/// Looks a name up in the option table.
fn find_option(name: &Vec<char>) -> (r: Option<usize>)
    ensures
        r matches Some(k) ==> option_index(name@) == Some(k as int) && k < BOOK_OPTION_COUNT,
        r is None ==> option_index(name@) is None,
{
    let mut i: usize = 0;
    while i < BOOK_OPTION_COUNT
        invariant
            i <= BOOK_OPTION_COUNT,
            option_index(name@) == option_index_from(name@, i as int),
        decreases BOOK_OPTION_COUNT - i,
    {
        let o = book_option_at(i);
        if is_text(name, o.name) {
            return Some(i);
        }
        i = i + 1;
    }
    None
}

// ---------------------------------------------------------------------
// Reading option values

/// From position `i`: the value after the first `name value` pair whose
/// value does not start with `--`.
pub open spec fn pair_value_from(args: Seq<Seq<char>>, name: Seq<char>, i: int) -> Option<Seq<char>>
    decreases args.len() - i,
{
    if i < 0 || i + 1 >= args.len() {
        None
    } else if args[i] == name && !has_prefix(args[i + 1], "--"@) {
        Some(args[i + 1])
    } else {
        pair_value_from(args, name, i + 1)
    }
}

/// From position `i`: the rest of the first argument that starts with `prefix`.
pub open spec fn prefixed_value_from(args: Seq<Seq<char>>, prefix: Seq<char>, i: int) -> Option<
    Seq<char>,
>
    decreases args.len() - i,
{
    if i < 0 || i >= args.len() {
        None
    } else if has_prefix(args[i], prefix) {
        Some(args[i].skip(prefix.len() as int))
    } else {
        prefixed_value_from(args, prefix, i + 1)
    }
}

/// The value given to option `name`: `name value` (value not an option)
/// first, otherwise `name=value`.
pub open spec fn option_value_of(args: Seq<Seq<char>>, name: Seq<char>) -> Option<Seq<char>> {
    match pair_value_from(args, name, 0) {
        Some(v) => Some(v),
        None => prefixed_value_from(args, name + "="@, 0),
    }
}

/// The value given to option `name`, if any.
pub fn option_value(args: &Vec<Vec<char>>, name: &str) -> (r: Option<Vec<char>>)
    ensures
        match r {
            Some(v) => option_value_of(views(args@), name@) == Some(v@),
            None => option_value_of(views(args@), name@) is None,
        },
{
    let ghost a = views(args@);
    let n = chars_of(name);
    let mut i: usize = 0;
    while args.len() > 0 && i < args.len() - 1
        invariant
            a == views(args@),
            n@ == name@,
            pair_value_from(a, name@, 0) == pair_value_from(a, name@, i as int),
        decreases args.len() - i,
    {
        assert(a[i as int] == args@[i as int]@ && a[i + 1] == args@[i + 1]@);
        if chars_eq(&args[i], &n) && !starts_with_text(&args[i + 1], "--") {
            return Some(args[i + 1].clone());
        }
        i = i + 1;
    }
    let mut prefix = n.clone();
    prefix.push('=');
    proof {
        reveal_strlit("=");
        assert(prefix@ =~= name@ + "="@);
    }
    let mut j: usize = 0;
    while j < args.len()
        invariant
            a == views(args@),
            prefix@ == name@ + "="@,
            pair_value_from(a, name@, 0) is None,
            prefixed_value_from(a, prefix@, 0) == prefixed_value_from(a, prefix@, j as int),
        decreases args.len() - j,
    {
        assert(a[j as int] == args@[j as int]@);
        if starts_with_chars(&args[j], &prefix) {
            let rest = slice_chars(&args[j], prefix.len(), args[j].len());
            assert(rest@ == a[j as int].skip(prefix@.len() as int));
            return Some(rest);
        }
        j = j + 1;
    }
    None
}


/// `on`/`true`/`yes`/`1` and `off`/`false`/`no`/`0`, ASCII case ignored.
pub open spec fn on_off(value: Seq<char>) -> Option<bool> {
    let l = to_lower(value);
    if l == "on"@ || l == "true"@ || l == "yes"@ || l == "1"@ {
        Some(true)
    } else if l == "off"@ || l == "false"@ || l == "no"@ || l == "0"@ {
        Some(false)
    } else {
        None
    }
}

/// Reads a switch value.
pub fn parse_on_off(value: &Vec<char>) -> (r: Option<bool>)
    ensures
        r == on_off(value@),
{
    let l = to_lower_chars(value);
    if is_text(&l, "on") || is_text(&l, "true") || is_text(&l, "yes") || is_text(&l, "1") {
        Some(true)
    } else if is_text(&l, "off") || is_text(&l, "false") || is_text(&l, "no") || is_text(&l, "0") {
        Some(false)
    } else {
        None
    }
}

/// What the help shows as the expected value of option `name`.
pub open spec fn expected_value(name: Seq<char>) -> Seq<char> {
    match option_index(name) {
        Some(i) => if book_option(i).value@.len() > 0 {
            book_option(i).value@
        } else {
            "有効な値"@
        },
        None => "有効な値"@,
    }
}

/// The message for a value that option `name` does not accept.
pub open spec fn value_error(name: Seq<char>, value: Seq<char>) -> Seq<char> {
    name + " の値が不正です: "@ + value + "（期待: "@ + expected_value(name) + "）"@
}

/// The message for a value that option `name` does not accept.
pub fn book_option_value_error(name: &str, value: &Vec<char>) -> (r: Vec<char>)
    ensures
        r@ == value_error(name@, value@),
{
    let n = chars_of(name);
    let mut r = n.clone();
    push_str(&mut r, " の値が不正です: ");
    push_all(&mut r, value);
    push_str(&mut r, "（期待: ");
    match find_option(&n) {
        Some(k) => {
            let o = book_option_at(k);
            let v = chars_of(o.value);
            if v.len() > 0 {
                push_all(&mut r, &v);
            } else {
                push_str(&mut r, "有効な値");
            }
        },
        None => {
            push_str(&mut r, "有効な値");
        },
    }
    push_str(&mut r, "）");
    r
}

// ---------------------------------------------------------------------
// Checking option names

/// The option name of an argument: the part before the first `=`.
pub open spec fn arg_name(arg: Seq<char>) -> Seq<char> {
    match split_once(arg, '=') {
        Some((a, _)) => a,
        None => arg,
    }
}

/// The complaints about argument `index`: an unknown option, a value given
/// to a flag, or a missing value.
pub open spec fn arg_errors(args: Seq<Seq<char>>, index: int) -> Seq<Seq<char>> {
    let arg = args[index];
    if !has_prefix(arg, "--"@) {
        Seq::empty()
    } else {
        let name = arg_name(arg);
        match option_index(name) {
            None => seq!["不明なオプションです: "@ + name],
            Some(i) => {
                let o = book_option(i);
                if o.arity == BookOptionArity::Flag && arg.contains('=') {
                    seq![name + " は値を取りません"@]
                } else if o.arity == BookOptionArity::Value && !arg.contains('=') && (index + 1
                    >= args.len() || has_prefix(args[index + 1], "--"@)) {
                    seq![name + " に値がありません（期待: "@ + o.value@ + "）"@]
                } else {
                    Seq::empty()
                }
            },
        }
    }
}

/// The complaints about the first `n` arguments, in order.
pub open spec fn name_errors(args: Seq<Seq<char>>, n: int) -> Seq<Seq<char>>
    decreases n,
{
    if n <= 0 {
        Seq::empty()
    } else {
        name_errors(args, n - 1) + arg_errors(args, n - 1)
    }
}

/// Appends the complaints about every argument's option name to `errors`.
pub fn validate_book_option_names(args: &Vec<Vec<char>>, errors: &mut Vec<Vec<char>>)
    ensures
        views(final(errors)@) == views(old(errors)@) + name_errors(views(args@), args@.len() as int),
{
    let ghost a = views(args@);
    let ghost start = views(errors@);
    let mut index: usize = 0;
    while index < args.len()
        invariant
            index <= args.len(),
            a == views(args@),
            views(errors@) == start + name_errors(a, index as int),
        decreases args.len() - index,
    {
        let argument = &args[index];
        assert(a[index as int] == argument@);
        let ghost before = errors@;
        if starts_with_text(argument, "--") {
            let name = match split_once_chars(argument, '=') {
                Some((head, _)) => head,
                None => argument.clone(),
            };
            assert(name@ == arg_name(argument@));
            match find_option(&name) {
                None => {
                    let mut m: Vec<char> = Vec::new();
                    push_str(&mut m, "不明なオプションです: ");
                    push_all(&mut m, &name);
                    errors.push(m);
                    assert(views(errors@) =~= views(before).push(m@));
                },
                Some(k) => {
                    let o = book_option_at(k);
                    let has_eq = contains_char(argument, '=');
                    let missing = index + 1 >= args.len() || starts_with_text(&args[index + 1], "--");
                    proof {
                        if index + 1 < args.len() {
                            assert(a[index + 1] == args@[index + 1]@);
                        }
                    }
                    if o.arity == BookOptionArity::Flag && has_eq {
                        let mut m = name.clone();
                        push_str(&mut m, " は値を取りません");
                        errors.push(m);
                        assert(views(errors@) =~= views(before).push(m@));
                    } else if o.arity == BookOptionArity::Value && !has_eq && missing {
                        let mut m = name.clone();
                        push_str(&mut m, " に値がありません（期待: ");
                        push_str(&mut m, o.value);
                        push_str(&mut m, "）");
                        errors.push(m);
                        assert(views(errors@) =~= views(before).push(m@));
                    } else {
                        assert(views(errors@) =~= views(before));
                    }
                },
            }
        } else {
            assert(views(errors@) =~= views(before));
        }
        index = index + 1;
        assert(name_errors(a, index as int) == name_errors(a, index - 1) + arg_errors(a, index - 1));
    }
}


// ---------------------------------------------------------------------
// Reading one setting

/// A complaint, if there is one, as a list of zero or one messages.
pub open spec fn opt_seq(e: Option<Seq<char>>) -> Seq<Seq<char>> {
    match e {
        Some(m) => seq![m],
        None => Seq::empty(),
    }
}

/// The switch option `name` applied to a setting that was `current`.
pub open spec fn toggle_value(args: Seq<Seq<char>>, name: Seq<char>, current: bool) -> bool {
    match option_value_of(args, name) {
        Some(v) => match on_off(v) {
            Some(b) => b,
            None => current,
        },
        None => current,
    }
}

/// The complaint about the value of switch option `name`.
pub open spec fn toggle_check(args: Seq<Seq<char>>, name: Seq<char>) -> Option<Seq<char>> {
    match option_value_of(args, name) {
        Some(v) => if on_off(v) is None {
            Some(value_error(name, v))
        } else {
            None
        },
        None => None,
    }
}

/// The unsigned option `name` (largest value `max`) applied to a setting
/// that was `current`.
pub open spec fn unsigned_setting(args: Seq<Seq<char>>, name: Seq<char>, max: nat, current: nat) -> nat {
    match option_value_of(args, name) {
        Some(v) => match parse_unsigned(v, max) {
            Some(n) => n,
            None => current,
        },
        None => current,
    }
}

/// The complaint about the value of unsigned option `name`.
pub open spec fn unsigned_check(args: Seq<Seq<char>>, name: Seq<char>, max: nat) -> Option<Seq<char>> {
    match option_value_of(args, name) {
        Some(v) => if parse_unsigned(v, max) is None {
            Some(value_error(name, v))
        } else {
            None
        },
        None => None,
    }
}

/// The `i32` option `name` applied to a setting that was `current`.
pub open spec fn i32_setting(args: Seq<Seq<char>>, name: Seq<char>, current: int) -> int {
    match option_value_of(args, name) {
        Some(v) => match parse_i32_spec(v) {
            Some(n) => n,
            None => current,
        },
        None => current,
    }
}

/// The complaint about the value of `i32` option `name`.
pub open spec fn i32_check(args: Seq<Seq<char>>, name: Seq<char>) -> Option<Seq<char>> {
    match option_value_of(args, name) {
        Some(v) => if parse_i32_spec(v) is None {
            Some(value_error(name, v))
        } else {
            None
        },
        None => None,
    }
}

/// The accepted text of real-valued option `name`.
pub open spec fn real_text(args: Seq<Seq<char>>, name: Seq<char>) -> Option<Seq<char>> {
    match option_value_of(args, name) {
        Some(v) => if float_literal(v) {
            Some(v)
        } else {
            None
        },
        None => None,
    }
}

/// The complaint about the value of real-valued option `name`.
pub open spec fn real_check(args: Seq<Seq<char>>, name: Seq<char>) -> Option<Seq<char>> {
    match option_value_of(args, name) {
        Some(v) => if !float_literal(v) {
            Some(value_error(name, v))
        } else {
            None
        },
        None => None,
    }
}

/// The complaint about an option whose value did not parse, without the
/// expected form.
pub open spec fn plain_value_error(name: Seq<char>, value: Seq<char>) -> Seq<char> {
    name + " の値が不正です: "@ + value
}

/// Whether argument `name` occurs.
pub fn any_arg(args: &Vec<Vec<char>>, name: &str) -> (r: bool)
    ensures
        r == views(args@).contains(name@),
{
    let ghost a = views(args@);
    let n = chars_of(name);
    let mut i: usize = 0;
    while i < args.len()
        invariant
            i <= args.len(),
            a == views(args@),
            n@ == name@,
            forall|j: int| 0 <= j < i ==> a[j] != name@,
        decreases args.len() - i,
    {
        if chars_eq(&args[i], &n) {
            assert(a[i as int] == name@);
            return true;
        }
        i = i + 1;
    }
    false
}

fn read_toggle(args: &Vec<Vec<char>>, name: &str, current: bool, errors: &mut Vec<Vec<char>>) -> (r:
    bool)
    ensures
        r == toggle_value(views(args@), name@, current),
        views(final(errors)@) == views(old(errors)@) + opt_seq(toggle_check(views(args@), name@)),
{
    let ghost before = views(errors@);
    match option_value(args, name) {
        Some(v) => match parse_on_off(&v) {
            Some(b) => {
                assert(before + opt_seq(None) =~= before);
                b
            },
            None => {
                let e = book_option_value_error(name, &v);
                errors.push(e);
                assert(views(errors@) =~= before + seq![e@]);
                current
            },
        },
        None => {
            assert(before + opt_seq(None) =~= before);
            current
        },
    }
}

fn read_unsigned(
    args: &Vec<Vec<char>>,
    name: &str,
    current: u64,
    max: u64,
    errors: &mut Vec<Vec<char>>,
) -> (r: u64)
    requires
        current <= max,
    ensures
        r <= max,
        r == unsigned_setting(views(args@), name@, max as nat, current as nat),
        views(final(errors)@) == views(old(errors)@) + opt_seq(
            unsigned_check(views(args@), name@, max as nat),
        ),
{
    let ghost before = views(errors@);
    match option_value(args, name) {
        Some(v) => match parse_unsigned_chars(&v, max) {
            Some(n) => {
                assert(before + opt_seq(None) =~= before);
                n
            },
            None => {
                let e = book_option_value_error(name, &v);
                errors.push(e);
                assert(views(errors@) =~= before + seq![e@]);
                current
            },
        },
        None => {
            assert(before + opt_seq(None) =~= before);
            current
        },
    }
}

fn read_i32(args: &Vec<Vec<char>>, name: &str, current: i32, errors: &mut Vec<Vec<char>>) -> (r: i32)
    ensures
        r == i32_setting(views(args@), name@, current as int),
        views(final(errors)@) == views(old(errors)@) + opt_seq(i32_check(views(args@), name@)),
{
    let ghost before = views(errors@);
    match option_value(args, name) {
        Some(v) => match parse_i32_chars(&v) {
            Some(n) => {
                assert(before + opt_seq(None) =~= before);
                n
            },
            None => {
                let e = book_option_value_error(name, &v);
                errors.push(e);
                assert(views(errors@) =~= before + seq![e@]);
                current
            },
        },
        None => {
            assert(before + opt_seq(None) =~= before);
            current
        },
    }
}

fn read_real(args: &Vec<Vec<char>>, name: &str, errors: &mut Vec<Vec<char>>) -> (r: Option<String>)
    ensures
        match r {
            Some(t) => real_text(views(args@), name@) == Some(t@),
            None => real_text(views(args@), name@) is None,
        },
        views(final(errors)@) == views(old(errors)@) + opt_seq(real_check(views(args@), name@)),
{
    let ghost before = views(errors@);
    match option_value(args, name) {
        Some(v) => if is_float_literal(&v) {
            assert(before + opt_seq(None) =~= before);
            Some(string_of(&v))
        } else {
            let e = book_option_value_error(name, &v);
            errors.push(e);
            assert(views(errors@) =~= before + seq![e@]);
            None
        },
        None => {
            assert(before + opt_seq(None) =~= before);
            None
        },
    }
}


/// The value of a page-list option applied to a list that was `current`.
pub open spec fn list_setting(args: Seq<Seq<char>>, name: Seq<char>, current: Seq<PageRange>) -> Seq<
    PageRange,
> {
    match option_value_of(args, name) {
        Some(v) => match PageRange::list_from_text(v) {
            Some(l) => l,
            None => current,
        },
        None => current,
    }
}

/// The complaint about a page-list option.
pub open spec fn list_check(args: Seq<Seq<char>>, name: Seq<char>) -> Option<Seq<char>> {
    match option_value_of(args, name) {
        Some(v) => if PageRange::list_from_text(v) is None {
            Some(plain_value_error(name, v))
        } else {
            None
        },
        None => None,
    }
}

/// The `--pages` range, if given and readable.
pub open spec fn pages_setting(args: Seq<Seq<char>>) -> Option<PageRange> {
    match option_value_of(args, "--pages"@) {
        Some(v) => PageRange::from_text(v),
        None => None,
    }
}

/// The complaint about `--pages`.
pub open spec fn pages_check(args: Seq<Seq<char>>) -> Option<Seq<char>> {
    match option_value_of(args, "--pages"@) {
        Some(v) => if PageRange::from_text(v) is None {
            Some(plain_value_error("--pages"@, v))
        } else {
            None
        },
        None => None,
    }
}

/// The `--superres` mode applied to a mode that was `current`.
pub open spec fn superres_setting(args: Seq<Seq<char>>, current: SuperResolutionMode) -> SuperResolutionMode {
    match option_value_of(args, "--superres"@) {
        Some(v) => match SuperResolutionMode::from_text(v) {
            Some(m) => m,
            None => current,
        },
        None => current,
    }
}

/// The complaint about `--superres`.
pub open spec fn superres_check(args: Seq<Seq<char>>) -> Option<Seq<char>> {
    match option_value_of(args, "--superres"@) {
        Some(v) => if SuperResolutionMode::from_text(v) is None {
            Some(plain_value_error("--superres"@, v))
        } else {
            None
        },
        None => None,
    }
}

/// The `--jpeg-sampling` value applied to a value that was `current`.
pub open spec fn sampling_setting(args: Seq<Seq<char>>, current: JpegSampling) -> JpegSampling {
    match option_value_of(args, "--jpeg-sampling"@) {
        Some(v) => match JpegSampling::from_text(v) {
            Some(m) => m,
            None => current,
        },
        None => current,
    }
}

/// The complaint about `--jpeg-sampling`.
pub open spec fn sampling_check(args: Seq<Seq<char>>) -> Option<Seq<char>> {
    match option_value_of(args, "--jpeg-sampling"@) {
        Some(v) => if JpegSampling::from_text(v) is None {
            Some(plain_value_error("--jpeg-sampling"@, v))
        } else {
            None
        },
        None => None,
    }
}

fn plain_error(name: &str, value: &Vec<char>) -> (r: Vec<char>)
    ensures
        r@ == plain_value_error(name@, value@),
{
    let mut r = chars_of(name);
    push_str(&mut r, " の値が不正です: ");
    push_all(&mut r, value);
    r
}

fn read_list(
    args: &Vec<Vec<char>>,
    name: &str,
    current: Vec<PageRange>,
    errors: &mut Vec<Vec<char>>,
) -> (r: Vec<PageRange>)
    ensures
        r@ == list_setting(views(args@), name@, current@),
        views(final(errors)@) == views(old(errors)@) + opt_seq(list_check(views(args@), name@)),
{
    let ghost before = views(errors@);
    match option_value(args, name) {
        Some(v) => {
            let t = string_of(&v);
            match PageRange::parse_list(t.as_str()) {
                Some(l) => {
                    assert(before + opt_seq(None) =~= before);
                    l
                },
                None => {
                    let e = plain_error(name, &v);
                    errors.push(e);
                    assert(views(errors@) =~= before + seq![e@]);
                    current
                },
            }
        },
        None => {
            assert(before + opt_seq(None) =~= before);
            current
        },
    }
}

fn read_pages(args: &Vec<Vec<char>>, errors: &mut Vec<Vec<char>>) -> (r: Option<PageRange>)
    ensures
        r == pages_setting(views(args@)),
        views(final(errors)@) == views(old(errors)@) + opt_seq(pages_check(views(args@))),
{
    let ghost before = views(errors@);
    match option_value(args, "--pages") {
        Some(v) => {
            let t = string_of(&v);
            match PageRange::parse(t.as_str()) {
                Some(p) => {
                    assert(before + opt_seq(None) =~= before);
                    Some(p)
                },
                None => {
                    let e = plain_error("--pages", &v);
                    errors.push(e);
                    assert(views(errors@) =~= before + seq![e@]);
                    None
                },
            }
        },
        None => {
            assert(before + opt_seq(None) =~= before);
            None
        },
    }
}

fn read_superres(
    args: &Vec<Vec<char>>,
    current: SuperResolutionMode,
    errors: &mut Vec<Vec<char>>,
) -> (r: SuperResolutionMode)
    ensures
        r == superres_setting(views(args@), current),
        views(final(errors)@) == views(old(errors)@) + opt_seq(superres_check(views(args@))),
{
    let ghost before = views(errors@);
    match option_value(args, "--superres") {
        Some(v) => {
            let t = string_of(&v);
            match SuperResolutionMode::parse(t.as_str()) {
                Some(m) => {
                    assert(before + opt_seq(None) =~= before);
                    m
                },
                None => {
                    let e = plain_error("--superres", &v);
                    errors.push(e);
                    assert(views(errors@) =~= before + seq![e@]);
                    current
                },
            }
        },
        None => {
            assert(before + opt_seq(None) =~= before);
            current
        },
    }
}

fn read_sampling(args: &Vec<Vec<char>>, current: JpegSampling, errors: &mut Vec<Vec<char>>) -> (r:
    JpegSampling)
    ensures
        r == sampling_setting(views(args@), current),
        views(final(errors)@) == views(old(errors)@) + opt_seq(sampling_check(views(args@))),
{
    let ghost before = views(errors@);
    match option_value(args, "--jpeg-sampling") {
        Some(v) => {
            let t = string_of(&v);
            match JpegSampling::parse(t.as_str()) {
                Some(m) => {
                    assert(before + opt_seq(None) =~= before);
                    m
                },
                None => {
                    let e = plain_error("--jpeg-sampling", &v);
                    errors.push(e);
                    assert(views(errors@) =~= before + seq![e@]);
                    current
                },
            }
        },
        None => {
            assert(before + opt_seq(None) =~= before);
            current
        },
    }
}

/// The text given to option `name`, as a `String`.
fn read_text(args: &Vec<Vec<char>>, name: &str) -> (r: Option<String>)
    ensures
        match r {
            Some(t) => option_value_of(views(args@), name@) == Some(t@),
            None => option_value_of(views(args@), name@) is None,
        },
{
    match option_value(args, name) {
        Some(v) => Some(string_of(&v)),
        None => None,
    }
}

/// Number of on/off options.
pub const SWITCH_COUNT: usize = 15;

/// On/off option `i` in the order it is read, with its default.
pub open spec fn switch_option(i: int) -> (&'static str, bool)
    recommends
        0 <= i < SWITCH_COUNT,
{
    if i == 0 {
        ("--scantailor", true)
    } else if i == 1 {
        ("--blank-detection", true)
    } else if i == 2 {
        ("--crop", true)
    } else if i == 3 {
        ("--normalize", true)
    } else if i == 4 {
        ("--color-normalize", true)
    } else if i == 5 {
        ("--ink-neutralize", false)
    } else if i == 6 {
        ("--deskew", false)
    } else if i == 7 {
        ("--dewarp", false)
    } else if i == 8 {
        ("--tta", false)
    } else if i == 9 {
        ("--stroke", false)
    } else if i == 10 {
        ("--tone-boost", true)
    } else if i == 11 {
        ("--pre-stroke", false)
    } else if i == 12 {
        ("--preserve-position", true)
    } else if i == 13 {
        ("--resume", true)
    } else {
        ("--keep-work", false)
    }
}

fn switch_option_at(i: usize) -> (r: (&'static str, bool))
    requires
        i < SWITCH_COUNT,
    ensures
        r == switch_option(i as int),
{
    match i {
        0 => ("--scantailor", true),
        1 => ("--blank-detection", true),
        2 => ("--crop", true),
        3 => ("--normalize", true),
        4 => ("--color-normalize", true),
        5 => ("--ink-neutralize", false),
        6 => ("--deskew", false),
        7 => ("--dewarp", false),
        8 => ("--tta", false),
        9 => ("--stroke", false),
        10 => ("--tone-boost", true),
        11 => ("--pre-stroke", false),
        12 => ("--preserve-position", true),
        13 => ("--resume", true),
        _ => ("--keep-work", false),
    }
}

/// Complaints about the first `n` on/off options, in order.
pub open spec fn switch_errors_upto(a: Seq<Seq<char>>, n: int) -> Seq<Seq<char>>
    decreases n,
{
    if n <= 0 {
        Seq::empty()
    } else {
        switch_errors_upto(a, n - 1) + opt_seq(toggle_check(a, switch_option(n - 1).0@))
    }
}

/// Complaints about the on/off options.
pub open spec fn switch_errors(a: Seq<Seq<char>>) -> Seq<Seq<char>> {
    switch_errors_upto(a, SWITCH_COUNT as int)
}

/// Reads every on/off option, in table order.
fn read_switches(args: &Vec<Vec<char>>, errors: &mut Vec<Vec<char>>) -> (r: Vec<bool>)
    ensures
        r@.len() == SWITCH_COUNT,
        forall|j: int|
            0 <= j < SWITCH_COUNT ==> #[trigger] r@[j] == toggle_value(
                views(args@),
                switch_option(j).0@,
                switch_option(j).1,
            ),
        views(final(errors)@) == views(old(errors)@) + switch_errors(views(args@)),
{
    let ghost a = views(args@);
    let ghost e0 = views(errors@);
    let mut r: Vec<bool> = Vec::new();
    let mut i: usize = 0;
    assert(e0 + switch_errors_upto(a, 0) =~= e0);
    while i < SWITCH_COUNT
        invariant
            i <= SWITCH_COUNT,
            a == views(args@),
            r@.len() == i,
            forall|j: int|
                0 <= j < i ==> #[trigger] r@[j] == toggle_value(a, switch_option(j).0@, switch_option(j).1),
            views(errors@) == e0 + switch_errors_upto(a, i as int),
        decreases SWITCH_COUNT - i,
    {
        let (name, dflt) = switch_option_at(i);
        let v = read_toggle(args, name, dflt, errors);
        r.push(v);
        i = i + 1;
        assert(views(errors@) =~= e0 + switch_errors_upto(a, i as int));
    }
    r
}

/// How a numeric option's value is read.
#[derive(Debug, Clone, Copy, PartialEq, Eq, Structural)]
pub enum NumberKind {
    /// `u8`
    Byte,
    /// `u32`
    Word,
    /// `usize`
    Size,
    /// `i32`
    Signed,
    /// `f32`, whose text is handed on
    Real,
}

/// Largest value of an unsigned kind.
pub open spec fn kind_max(k: NumberKind) -> nat {
    match k {
        NumberKind::Byte => 255,
        NumberKind::Word => 0xffff_ffff,
        _ => usize::MAX as nat,
    }
}

/// Number of numeric options.
pub const NUMBER_COUNT: usize = 26;

/// Numeric option `i` in the order it is read.
pub open spec fn number_option(i: int) -> (&'static str, NumberKind)
    recommends
        0 <= i < NUMBER_COUNT,
{
    if i == 0 {
        ("--margins", NumberKind::Real)
    } else if i == 1 {
        ("--blank-dark-delta", NumberKind::Byte)
    } else if i == 2 {
        ("--blank-max-dark-ratio", NumberKind::Real)
    } else if i == 3 {
        ("--blank-edge-threshold", NumberKind::Byte)
    } else if i == 4 {
        ("--blank-max-edge-ratio", NumberKind::Real)
    } else if i == 5 {
        ("--dpi", NumberKind::Word)
    } else if i == 6 {
        ("--output-dpi", NumberKind::Word)
    } else if i == 7 {
        ("--despeckle", NumberKind::Real)
    } else if i == 8 {
        ("--page-detection-tolerance", NumberKind::Real)
    } else if i == 9 {
        ("--color-normalize-strength", NumberKind::Byte)
    } else if i == 10 {
        ("--color-normalize-radius", NumberKind::Word)
    } else if i == 11 {
        ("--ink-neutralize-strength", NumberKind::Byte)
    } else if i == 12 {
        ("--scale", NumberKind::Word)
    } else if i == 13 {
        ("--inference-scale", NumberKind::Word)
    } else if i == 14 {
        ("--output-scale", NumberKind::Word)
    } else if i == 15 {
        ("--ai-scale", NumberKind::Word)
    } else if i == 16 {
        ("--gpu-workers", NumberKind::Size)
    } else if i == 17 {
        ("--cpu-workers", NumberKind::Size)
    } else if i == 18 {
        ("--tile", NumberKind::Word)
    } else if i == 19 {
        ("--gpu-id", NumberKind::Signed)
    } else if i == 20 {
        ("--stroke-strength", NumberKind::Byte)
    } else if i == 21 {
        ("--tone-boost-strength", NumberKind::Byte)
    } else if i == 22 {
        ("--tone-color-global-threshold", NumberKind::Real)
    } else if i == 23 {
        ("--tone-color-tile-threshold", NumberKind::Real)
    } else if i == 24 {
        ("--pre-stroke-strength", NumberKind::Byte)
    } else {
        ("--jpeg-quality", NumberKind::Byte)
    }
}

fn number_option_at(i: usize) -> (r: (&'static str, NumberKind))
    requires
        i < NUMBER_COUNT,
    ensures
        r == number_option(i as int),
{
    match i {
        0 => ("--margins", NumberKind::Real),
        1 => ("--blank-dark-delta", NumberKind::Byte),
        2 => ("--blank-max-dark-ratio", NumberKind::Real),
        3 => ("--blank-edge-threshold", NumberKind::Byte),
        4 => ("--blank-max-edge-ratio", NumberKind::Real),
        5 => ("--dpi", NumberKind::Word),
        6 => ("--output-dpi", NumberKind::Word),
        7 => ("--despeckle", NumberKind::Real),
        8 => ("--page-detection-tolerance", NumberKind::Real),
        9 => ("--color-normalize-strength", NumberKind::Byte),
        10 => ("--color-normalize-radius", NumberKind::Word),
        11 => ("--ink-neutralize-strength", NumberKind::Byte),
        12 => ("--scale", NumberKind::Word),
        13 => ("--inference-scale", NumberKind::Word),
        14 => ("--output-scale", NumberKind::Word),
        15 => ("--ai-scale", NumberKind::Word),
        16 => ("--gpu-workers", NumberKind::Size),
        17 => ("--cpu-workers", NumberKind::Size),
        18 => ("--tile", NumberKind::Word),
        19 => ("--gpu-id", NumberKind::Signed),
        20 => ("--stroke-strength", NumberKind::Byte),
        21 => ("--tone-boost-strength", NumberKind::Byte),
        22 => ("--tone-color-global-threshold", NumberKind::Real),
        23 => ("--tone-color-tile-threshold", NumberKind::Real),
        24 => ("--pre-stroke-strength", NumberKind::Byte),
        _ => ("--jpeg-quality", NumberKind::Byte),
    }
}

/// The whole number given to option `name` of kind `k`, when it reads.
pub open spec fn number_given(a: Seq<Seq<char>>, name: Seq<char>, k: NumberKind) -> Option<int> {
    match option_value_of(a, name) {
        Some(v) => match k {
            NumberKind::Real => None,
            NumberKind::Signed => parse_i32_spec(v),
            _ => match parse_unsigned(v, kind_max(k)) {
                Some(n) => Some(n as int),
                None => None,
            },
        },
        None => None,
    }
}

/// The complaint about numeric option `name` of kind `k`.
pub open spec fn number_check(a: Seq<Seq<char>>, name: Seq<char>, k: NumberKind) -> Option<Seq<char>> {
    match k {
        NumberKind::Real => real_check(a, name),
        NumberKind::Signed => i32_check(a, name),
        _ => unsigned_check(a, name, kind_max(k)),
    }
}

/// Complaints about the first `n` numeric options, in order.
pub open spec fn number_errors_upto(a: Seq<Seq<char>>, n: int) -> Seq<Seq<char>>
    decreases n,
{
    if n <= 0 {
        Seq::empty()
    } else {
        number_errors_upto(a, n - 1) + opt_seq(
            number_check(a, number_option(n - 1).0@, number_option(n - 1).1),
        )
    }
}

/// Complaints about the numeric options.
pub open spec fn number_errors(a: Seq<Seq<char>>) -> Seq<Seq<char>> {
    number_errors_upto(a, NUMBER_COUNT as int)
}

/// Reads every numeric option, in table order: the whole numbers given,
/// and the accepted texts of the real-valued ones.
fn read_numbers(args: &Vec<Vec<char>>, errors: &mut Vec<Vec<char>>) -> (r: (
    Vec<Option<i128>>,
    Vec<Option<String>>,
))
    ensures
        r.0@.len() == NUMBER_COUNT,
        r.1@.len() == NUMBER_COUNT,
        forall|j: int|
            0 <= j < NUMBER_COUNT ==> (match #[trigger] r.0@[j] {
                Some(n) => number_given(views(args@), number_option(j).0@, number_option(j).1) == Some(
                    n as int,
                ),
                None => number_given(views(args@), number_option(j).0@, number_option(j).1) is None,
            }),
        forall|j: int|
            0 <= j < NUMBER_COUNT ==> opt_text(#[trigger] r.1@[j]) == (if number_option(j).1
                == NumberKind::Real {
                real_text(views(args@), number_option(j).0@)
            } else {
                None
            }),
        views(final(errors)@) == views(old(errors)@) + number_errors(views(args@)),
{
    let ghost a = views(args@);
    let ghost e0 = views(errors@);
    let mut whole: Vec<Option<i128>> = Vec::new();
    let mut texts: Vec<Option<String>> = Vec::new();
    let mut i: usize = 0;
    assert(e0 + number_errors_upto(a, 0) =~= e0);
    while i < NUMBER_COUNT
        invariant
            i <= NUMBER_COUNT,
            a == views(args@),
            whole@.len() == i,
            texts@.len() == i,
            forall|j: int|
                0 <= j < i ==> (match #[trigger] whole@[j] {
                    Some(n) => number_given(a, number_option(j).0@, number_option(j).1) == Some(n as int),
                    None => number_given(a, number_option(j).0@, number_option(j).1) is None,
                }),
            forall|j: int|
                0 <= j < i ==> opt_text(#[trigger] texts@[j]) == (if number_option(j).1
                    == NumberKind::Real {
                    real_text(a, number_option(j).0@)
                } else {
                    None
                }),
            views(errors@) == e0 + number_errors_upto(a, i as int),
        decreases NUMBER_COUNT - i,
    {
        let (name, kind) = number_option_at(i);
        match kind {
            NumberKind::Real => {
                let t = read_real(args, name, errors);
                whole.push(None);
                texts.push(t);
            },
            NumberKind::Signed => {
                let n = read_optional_i32(args, name, errors);
                assert(match n {
                    Some(m) => number_given(a, name@, kind) == Some(m as int),
                    None => number_given(a, name@, kind) is None,
                });
                whole.push(n);
                texts.push(None);
            },
            _ => {
                let max: u64 = match kind {
                    NumberKind::Byte => 255,
                    NumberKind::Word => 0xffff_ffff,
                    _ => usize::MAX as u64,
                };
                assert(kind_max(kind) == max as nat);
                let n = read_optional_unsigned(args, name, max, errors);
                assert(match n {
                    Some(m) => number_given(a, name@, kind) == Some(m as int),
                    None => number_given(a, name@, kind) is None,
                });
                whole.push(n);
                texts.push(None);
            },
        }
        i = i + 1;
        assert(views(errors@) =~= e0 + number_errors_upto(a, i as int));
    }
    (whole, texts)
}

fn read_optional_unsigned(args: &Vec<Vec<char>>, name: &str, max: u64, errors: &mut Vec<Vec<char>>) -> (r: Option<i128>)
    requires
        max <= usize::MAX,
    ensures
        match r {
            Some(n) => 0 <= n && match option_value_of(views(args@), name@) {
                Some(v) => parse_unsigned(v, max as nat) == Some(n as nat),
                None => false,
            },
            None => match option_value_of(views(args@), name@) {
                Some(v) => parse_unsigned(v, max as nat) is None,
                None => true,
            },
        },
        views(final(errors)@) == views(old(errors)@) + opt_seq(
            unsigned_check(views(args@), name@, max as nat),
        ),
{
    let ghost before = views(errors@);
    match option_value(args, name) {
        Some(v) => match parse_unsigned_chars(&v, max) {
            Some(n) => {
                assert(before + opt_seq(None) =~= before);
                Some(n as i128)
            },
            None => {
                let e = book_option_value_error(name, &v);
                errors.push(e);
                assert(views(errors@) =~= before + seq![e@]);
                None
            },
        },
        None => {
            assert(before + opt_seq(None) =~= before);
            None
        },
    }
}

/// Complaints about page ranges, lists and modes, in the order they are read.
pub open spec fn value_errors(a: Seq<Seq<char>>) -> Seq<Seq<char>> {
    opt_seq(pages_check(a)) + opt_seq(list_check(a, "--crop-exclude-pages"@)) + opt_seq(
        list_check(a, "--ink-neutralize-exclude-pages"@),
    ) + opt_seq(list_check(a, "--tone-exclude-pages"@)) + opt_seq(
        list_check(a, "--grayscale-pages"@),
    ) + opt_seq(superres_check(a)) + opt_seq(sampling_check(a))
}

/// Every complaint about book-scan arguments, in the order they are made.
pub open spec fn book_scan_errors(a: Seq<Seq<char>>) -> Seq<Seq<char>> {
    name_errors(a, a.len() as int) + switch_errors(a) + number_errors(a) + value_errors(a)
}

/// Texts of the real-valued book-scan options that std's float parser
/// accepts; a caller turns them into numbers.
#[derive(Debug, Clone)]
pub struct RealOptionTexts {
    pub margins: Option<String>,
    pub blank_max_dark_ratio: Option<String>,
    pub blank_max_edge_ratio: Option<String>,
    pub despeckle: Option<String>,
    pub page_detection_tolerance: Option<String>,
    pub tone_color_global_threshold: Option<String>,
    pub tone_color_tile_threshold: Option<String>,
}

/// The real-valued texts read from `a`.
pub open spec fn reals_from(a: Seq<Seq<char>>, t: RealOptionTexts) -> bool {
    &&& opt_text(t.margins) == real_text(a, "--margins"@)
    &&& opt_text(t.blank_max_dark_ratio) == real_text(a, "--blank-max-dark-ratio"@)
    &&& opt_text(t.blank_max_edge_ratio) == real_text(a, "--blank-max-edge-ratio"@)
    &&& opt_text(t.despeckle) == real_text(a, "--despeckle"@)
    &&& opt_text(t.page_detection_tolerance) == real_text(a, "--page-detection-tolerance"@)
    &&& opt_text(t.tone_color_global_threshold) == real_text(a, "--tone-color-global-threshold"@)
    &&& opt_text(t.tone_color_tile_threshold) == real_text(a, "--tone-color-tile-threshold"@)
}



fn read_optional_i32(args: &Vec<Vec<char>>, name: &str, errors: &mut Vec<Vec<char>>) -> (r: Option<
    i128,
>)
    ensures
        match r {
            Some(n) => match option_value_of(views(args@), name@) {
                Some(v) => parse_i32_spec(v) == Some(n as int),
                None => false,
            },
            None => match option_value_of(views(args@), name@) {
                Some(v) => parse_i32_spec(v) is None,
                None => true,
            },
        },
        views(final(errors)@) == views(old(errors)@) + opt_seq(i32_check(views(args@), name@)),
{
    let ghost before = views(errors@);
    match option_value(args, name) {
        Some(v) => match parse_i32_chars(&v) {
            Some(n) => {
                assert(before + opt_seq(None) =~= before);
                Some(n as i128)
            },
            None => {
                let e = book_option_value_error(name, &v);
                errors.push(e);
                assert(views(errors@) =~= before + seq![e@]);
                None
            },
        },
        None => {
            assert(before + opt_seq(None) =~= before);
            None
        },
    }
}


/// Page ranges, page lists and modes read from book-scan arguments.
struct ValueSettings {
    pages: Option<PageRange>,
    crop_exclude_pages: Vec<PageRange>,
    ink_neutralization_exclude_pages: Vec<PageRange>,
    tone_exclude_pages: Vec<PageRange>,
    grayscale_pages: Vec<PageRange>,
    super_resolution: SuperResolutionMode,
    jpeg_sampling: JpegSampling,
}

fn read_values(args: &Vec<Vec<char>>, errors: &mut Vec<Vec<char>>) -> (r: ValueSettings)
    ensures
        r.pages == pages_setting(views(args@)),
        r.crop_exclude_pages@ == list_setting(views(args@), "--crop-exclude-pages"@, first_page_only()),
        r.ink_neutralization_exclude_pages@ == list_setting(
            views(args@),
            "--ink-neutralize-exclude-pages"@,
            first_page_only(),
        ),
        r.tone_exclude_pages@ == list_setting(views(args@), "--tone-exclude-pages"@, first_page_only()),
        r.grayscale_pages@ == list_setting(views(args@), "--grayscale-pages"@, Seq::empty()),
        r.super_resolution == superres_setting(views(args@), SuperResolutionMode::Anime),
        r.jpeg_sampling == sampling_setting(views(args@), JpegSampling::S444),
        views(final(errors)@) == views(old(errors)@) + value_errors(views(args@)),
{
    let ghost a = views(args@);
    let ghost e0 = views(errors@);
    let pages = read_pages(args, errors);
    let ghost e1 = views(errors@);
    let crop = read_list(args, "--crop-exclude-pages", default_crop_exclude_pages(), errors);
    let ghost e2 = views(errors@);
    let ink = read_list(
        args,
        "--ink-neutralize-exclude-pages",
        default_ink_neutralization_exclude_pages(),
        errors,
    );
    let ghost e3 = views(errors@);
    let tone = read_list(args, "--tone-exclude-pages", default_tone_exclude_pages(), errors);
    let ghost e4 = views(errors@);
    let gray = read_list(args, "--grayscale-pages", Vec::new(), errors);
    let ghost e5 = views(errors@);
    let superres = read_superres(args, SuperResolutionMode::Anime, errors);
    let ghost e6 = views(errors@);
    let sampling = read_sampling(args, JpegSampling::S444, errors);
    proof {
        let t1 = opt_seq(pages_check(a));
        let t2 = opt_seq(list_check(a, "--crop-exclude-pages"@));
        let t3 = opt_seq(list_check(a, "--ink-neutralize-exclude-pages"@));
        let t4 = opt_seq(list_check(a, "--tone-exclude-pages"@));
        let t5 = opt_seq(list_check(a, "--grayscale-pages"@));
        let t6 = opt_seq(superres_check(a));
        let t7 = opt_seq(sampling_check(a));
        assert(value_errors(a) == t1 + t2 + t3 + t4 + t5 + t6 + t7);
        assert(views(errors@) =~= e0 + (t1 + t2 + t3 + t4 + t5 + t6 + t7));
    }
    ValueSettings {
        pages,
        crop_exclude_pages: crop,
        ink_neutralization_exclude_pages: ink,
        tone_exclude_pages: tone,
        grayscale_pages: gray,
        super_resolution: superres,
        jpeg_sampling: sampling,
    }
}


// ---------------------------------------------------------------------
// The three modes

/// What the command line asks for.
#[derive(Debug, Clone, Copy, PartialEq, Eq, Structural)]
pub enum CliMode {
    Img2Pdf,
    Pdf2Img,
    BookScan,
}

/// A parsed command line.
#[derive(Debug)]
pub struct CliArgs {
    pub mode: CliMode,
    pub input_folder: String,
    pub output_path: String,
    pub canvas_width: u32,
    pub max_performance: bool,
    pub output_format: OutputImageFormat,
    pub lossless: bool,
    pub book_scan: Option<BookScanConfig>,
    /// Texts of the real-valued book-scan options that were accepted.
    pub real_options: RealOptionTexts,
    pub parse_error: Option<String>,
}

/// `parts` joined with `sep` between neighbours.
pub open spec fn join(parts: Seq<Seq<char>>, sep: Seq<char>) -> Seq<char>
    decreases parts.len(),
{
    if parts.len() == 0 {
        Seq::empty()
    } else if parts.len() == 1 {
        parts[0]
    } else {
        join(parts.drop_last(), sep) + sep + parts.last()
    }
}

/// `parts` joined with `sep` between neighbours.
pub fn join_chars(parts: &Vec<Vec<char>>, sep: &str) -> (r: Vec<char>)
    ensures
        r@ == join(views(parts@), sep@),
{
    let ghost p = views(parts@);
    let mut r: Vec<char> = Vec::new();
    let mut i: usize = 0;
    while i < parts.len()
        invariant
            i <= parts.len(),
            p == views(parts@),
            r@ == join(p.take(i as int), sep@),
        decreases parts.len() - i,
    {
        let ghost before = r@;
        if i > 0 {
            push_str(&mut r, sep);
        }
        push_all(&mut r, &parts[i]);
        i = i + 1;
        proof {
            let t = p.take(i as int);
            assert(t.drop_last() =~= p.take(i - 1));
            assert(t.last() == parts@[i - 1]@);
            if i == 1 {
                assert(r@ =~= t[0]);
            } else {
                assert(r@ =~= join(t.drop_last(), sep@) + sep@ + t.last());
            }
        }
    }
    assert(p.take(i as int) =~= p);
    r
}

/// The texts of the real-valued options, all absent.
pub fn no_real_options() -> (r: RealOptionTexts)
    ensures
        r.margins is None && r.blank_max_dark_ratio is None && r.blank_max_edge_ratio is None
            && r.despeckle is None && r.page_detection_tolerance is None
            && r.tone_color_global_threshold is None && r.tone_color_tile_threshold is None,
{
    RealOptionTexts {
        margins: None,
        blank_max_dark_ratio: None,
        blank_max_edge_ratio: None,
        despeckle: None,
        page_detection_tolerance: None,
        tone_color_global_threshold: None,
        tone_color_tile_threshold: None,
    }
}

/// The on/off option `on` unless the shortcut `off` is present.
pub open spec fn switch_setting(a: Seq<Seq<char>>, on: Seq<char>, dflt: bool, off: Seq<char>) -> bool {
    toggle_value(a, on, dflt) && !a.contains(off)
}

/// The book-scan settings that `a` selects, apart from the output file.
pub open spec fn book_scan_settings(a: Seq<Seq<char>>, c: BookScanConfig) -> bool {
    let st = switch_setting(a, "--scantailor"@, true, "--no-scantailor"@);
    &&& c.input_path@ == a[0]
    &&& opt_text(c.work_dir) == option_value_of(a, "--work-dir"@)
    &&& c.pages == pages_setting(a)
    &&& c.blank_detection_enabled == switch_setting(a, "--blank-detection"@, true, "--no-blank-detection"@)
    &&& c.blank_dark_delta == unsigned_setting(a, "--blank-dark-delta"@, 255, 25)
    &&& c.blank_edge_threshold == unsigned_setting(a, "--blank-edge-threshold"@, 255, 12)
    &&& c.scantailor_enabled == st
    &&& c.crop_enabled == (st && switch_setting(a, "--crop"@, true, "--no-crop"@))
    &&& c.crop_exclude_pages@ == list_setting(a, "--crop-exclude-pages"@, first_page_only())
    &&& c.normalize_illumination == (st && switch_setting(a, "--normalize"@, true, "--no-normalize"@))
    &&& c.color_normalization_enabled == switch_setting(a, "--color-normalize"@, true, "--no-color-normalize"@)
    &&& c.color_normalization_strength == unsigned_setting(a, "--color-normalize-strength"@, 255, 100)
    &&& c.color_normalization_radius == unsigned_setting(a, "--color-normalize-radius"@, 0xffff_ffff, 40)
    &&& c.ink_neutralization_enabled == switch_setting(a, "--ink-neutralize"@, false, "--no-ink-neutralize"@)
    &&& c.ink_neutralization_strength == unsigned_setting(a, "--ink-neutralize-strength"@, 255, 100)
    &&& c.ink_neutralization_exclude_pages@ == list_setting(a, "--ink-neutralize-exclude-pages"@, first_page_only())
    &&& c.deskew_enabled == (st && toggle_value(a, "--deskew"@, false))
    &&& c.dewarp_enabled == (st && toggle_value(a, "--dewarp"@, false))
    &&& c.dpi == unsigned_setting(a, "--dpi"@, 0xffff_ffff, 300)
    &&& c.output_dpi == unsigned_setting(a, "--output-dpi"@, 0xffff_ffff, 300)
    &&& c.super_resolution == superres_setting(a, SuperResolutionMode::Anime)
    &&& c.superres_output_scale == unsigned_setting(a, "--output-scale"@, 0xffff_ffff, unsigned_setting(a, "--scale"@, 0xffff_ffff, 1))
    &&& c.superres_ai_scale == unsigned_setting(a, "--ai-scale"@, 0xffff_ffff, unsigned_setting(a, "--inference-scale"@, 0xffff_ffff, 2))
    &&& c.superres_model@ == (match option_value_of(a, "--model"@) {
        Some(v) => v,
        None => "realesr-animevideov3"@,
    })
    &&& c.gpu_workers == unsigned_setting(a, "--gpu-workers"@, usize::MAX as nat, 4)
    &&& c.cpu_workers == unsigned_setting(a, "--cpu-workers"@, usize::MAX as nat, 2)
    &&& c.tile_size == unsigned_setting(a, "--tile"@, 0xffff_ffff, 0)
    &&& c.gpu_id == i32_setting(a, "--gpu-id"@, -1)
    &&& c.tta_enabled == toggle_value(a, "--tta"@, false)
    &&& c.stroke_enabled == switch_setting(a, "--stroke"@, false, "--no-stroke"@)
    &&& c.stroke_strength == unsigned_setting(a, "--stroke-strength"@, 255, 15)
    &&& c.tone_boost_enabled == switch_setting(a, "--tone-boost"@, true, "--no-tone-boost"@)
    &&& c.tone_boost_strength == unsigned_setting(a, "--tone-boost-strength"@, 255, 100)
    &&& c.partial_grayscale == PartialGrayscaleMode::Off
    &&& c.partial_grayscale_strength == 100
    &&& c.tone_exclude_pages@ == list_setting(a, "--tone-exclude-pages"@, first_page_only())
    &&& c.grayscale_pages@ == list_setting(a, "--grayscale-pages"@, Seq::empty())
    &&& c.pre_stroke_enabled == toggle_value(a, "--pre-stroke"@, false)
    &&& c.pre_stroke_strength == unsigned_setting(a, "--pre-stroke-strength"@, 255, 5)
    &&& c.jpeg_quality == unsigned_setting(a, "--jpeg-quality"@, 255, 90)
    &&& c.jpeg_sampling == sampling_setting(a, JpegSampling::S444)
    &&& c.preserve_position == toggle_value(a, "--preserve-position"@, true)
    &&& opt_text(c.scantailor_path) == option_value_of(a, "--scantailor-path"@)
    &&& opt_text(c.realesrgan_path) == option_value_of(a, "--realesrgan-path"@)
    &&& opt_text(c.realesrgan_model_dir) == option_value_of(a, "--model-dir"@)
    &&& c.resume == switch_setting(a, "--resume"@, true, "--no-resume"@)
    &&& c.keep_work == (toggle_value(a, "--keep-work"@, false) || (a.contains("--keep-work"@)
        && option_value_of(a, "--keep-work"@) is None))
}

/// The accepted texts of the real-valued options of `a`.
pub open spec fn book_scan_reals(a: Seq<Seq<char>>, t: RealOptionTexts) -> bool {
    &&& opt_text(t.margins) == real_text(a, "--margins"@)
    &&& opt_text(t.blank_max_dark_ratio) == real_text(a, "--blank-max-dark-ratio"@)
    &&& opt_text(t.blank_max_edge_ratio) == real_text(a, "--blank-max-edge-ratio"@)
    &&& opt_text(t.despeckle) == real_text(a, "--despeckle"@)
    &&& opt_text(t.page_detection_tolerance) == real_text(a, "--page-detection-tolerance"@)
    &&& opt_text(t.tone_color_global_threshold) == real_text(a, "--tone-color-global-threshold"@)
    &&& opt_text(t.tone_color_tile_threshold) == real_text(a, "--tone-color-tile-threshold"@)
}

/// The report of all complaints, if there are any.
pub open spec fn error_report(errors: Seq<Seq<char>>) -> Option<Seq<char>> {
    if errors.len() == 0 {
        None
    } else {
        Some(join(errors, "; "@))
    }
}

fn given_or(n: Option<i128>, dflt: i128) -> (r: i128)
    ensures
        r == match n {
            Some(v) => v,
            None => dflt,
        },
{
    match n {
        Some(v) => v,
        None => dflt,
    }
}


/// What `book-scan` arguments `a` parse to: the input, an optional output
/// (else `<stem>-book.pdf` beside the input), the options of the table, and
/// every complaint joined into `parse_error`.
pub open spec fn book_scan_parsed(a: Seq<Seq<char>>, r: CliArgs) -> bool {
    &&& r.mode == CliMode::BookScan
    &&& r.input_folder@ == a[0]
    &&& a.len() > 1 && !has_prefix(a[1], "--"@) ==> r.output_path@ == a[1]
    &&& !(a.len() > 1 && !has_prefix(a[1], "--"@)) && simple_path(a[0]) ==> joined_either(
        r.output_path@,
        output_base(a[0]),
        book_output_name(a[0]),
    )
    &&& r.canvas_width == DEFAULT_WIDTH
    &&& r.max_performance == !a.contains("--no-max-performance"@)
    &&& r.output_format == OutputImageFormat::Jpeg
    &&& !r.lossless
    &&& r.book_scan matches Some(c) && book_scan_settings(a, c) && c.output_pdf@ == r.output_path@
    &&& book_scan_reals(a, r.real_options)
    &&& opt_text(r.parse_error) == error_report(book_scan_errors(a))
}

/// Reads the arguments after `book-scan`.
pub fn parse_book_scan_args(args: &[String]) -> (r: CliArgs)
    requires
        args.len() > 0,
    ensures
        book_scan_parsed(string_views(args@), r),
{
    let a = arg_chars(args);
    assert(views(a@).len() == a@.len() && string_views(args@).len() == args@.len());
    parse_book_scan_chars(&a)
}

/// Reads the arguments after `book-scan`, each as characters.
#[verifier::rlimit(60)]
fn parse_book_scan_chars(args: &Vec<Vec<char>>) -> (r: CliArgs)
    requires
        args.len() > 0,
    ensures
        book_scan_parsed(views(args@), r),
{
    let ghost a = views(args@);
    assert(a[0] == args@[0]@);
    let input = string_of(&args[0]);
    let output = if args.len() > 1 && !starts_with_text(&args[1], "--") {
        string_of(&args[1])
    } else {
        default_book_output_path(input.as_str())
    };
    let mut errors: Vec<Vec<char>> = Vec::new();
    validate_book_option_names(args, &mut errors);
    let ghost e1 = views(errors@);
    let sw = read_switches(args, &mut errors);
    let ghost e2 = views(errors@);
    let (nums, texts) = read_numbers(args, &mut errors);
    let ghost e3 = views(errors@);
    let vals = read_values(args, &mut errors);
    proof {
        assert(views(errors@) =~= book_scan_errors(a));
    }
    let superres_model = match read_text(args, "--model") {
        Some(t) => t,
        None => String::from_str("realesr-animevideov3"),
    };
    let work_dir = read_text(args, "--work-dir");
    let scantailor_path = read_text(args, "--scantailor-path");
    let realesrgan_path = read_text(args, "--realesrgan-path");
    let realesrgan_model_dir = read_text(args, "--model-dir");
    let st = sw[0] && !any_arg(args, "--no-scantailor");
    let keep_work = sw[14] || (any_arg(args, "--keep-work") && option_value(args, "--keep-work").is_none());
    proof {
        assert(switch_option(0) == ("--scantailor", true));
        assert(switch_option(1) == ("--blank-detection", true));
        assert(switch_option(2) == ("--crop", true));
        assert(switch_option(3) == ("--normalize", true));
        assert(switch_option(4) == ("--color-normalize", true));
        assert(switch_option(5) == ("--ink-neutralize", false));
        assert(switch_option(6) == ("--deskew", false));
        assert(switch_option(7) == ("--dewarp", false));
        assert(switch_option(8) == ("--tta", false));
        assert(switch_option(9) == ("--stroke", false));
        assert(switch_option(10) == ("--tone-boost", true));
        assert(switch_option(11) == ("--pre-stroke", false));
        assert(switch_option(12) == ("--preserve-position", true));
        assert(switch_option(13) == ("--resume", true));
        assert(switch_option(14) == ("--keep-work", false));
    }
    let config = BookScanConfig {
        input_path: input,
        output_pdf: output.clone(),
        work_dir,
        pages: vals.pages,
        blank_detection_enabled: sw[1] && !any_arg(args, "--no-blank-detection"),
        blank_dark_delta: given_or(nums[1], 25) as u8,
        blank_edge_threshold: given_or(nums[3], 12) as u8,
        scantailor_enabled: st,
        crop_enabled: st && sw[2] && !any_arg(args, "--no-crop"),
        crop_exclude_pages: vals.crop_exclude_pages,
        normalize_illumination: st && sw[3] && !any_arg(args, "--no-normalize"),
        color_normalization_enabled: sw[4] && !any_arg(args, "--no-color-normalize"),
        color_normalization_strength: given_or(nums[9], 100) as u8,
        color_normalization_radius: given_or(nums[10], 40) as u32,
        ink_neutralization_enabled: sw[5] && !any_arg(args, "--no-ink-neutralize"),
        ink_neutralization_strength: given_or(nums[11], 100) as u8,
        ink_neutralization_exclude_pages: vals.ink_neutralization_exclude_pages,
        deskew_enabled: st && sw[6],
        dewarp_enabled: st && sw[7],
        dpi: given_or(nums[5], 300) as u32,
        output_dpi: given_or(nums[6], 300) as u32,
        super_resolution: vals.super_resolution,
        superres_output_scale: given_or(nums[14], given_or(nums[12], 1)) as u32,
        superres_ai_scale: given_or(nums[15], given_or(nums[13], 2)) as u32,
        superres_model,
        gpu_workers: given_or(nums[16], 4) as usize,
        cpu_workers: given_or(nums[17], 2) as usize,
        tile_size: given_or(nums[18], 0) as u32,
        gpu_id: given_or(nums[19], -1) as i32,
        tta_enabled: sw[8],
        stroke_enabled: sw[9] && !any_arg(args, "--no-stroke"),
        stroke_strength: given_or(nums[20], 15) as u8,
        tone_boost_enabled: sw[10] && !any_arg(args, "--no-tone-boost"),
        tone_boost_strength: given_or(nums[21], 100) as u8,
        partial_grayscale: PartialGrayscaleMode::Off,
        partial_grayscale_strength: 100,
        tone_exclude_pages: vals.tone_exclude_pages,
        grayscale_pages: vals.grayscale_pages,
        pre_stroke_enabled: sw[11],
        pre_stroke_strength: given_or(nums[24], 5) as u8,
        jpeg_quality: given_or(nums[25], 90) as u8,
        jpeg_sampling: vals.jpeg_sampling,
        preserve_position: sw[12],
        scantailor_path,
        realesrgan_path,
        realesrgan_model_dir,
        resume: sw[13] && !any_arg(args, "--no-resume"),
        keep_work,
    };
    let real_options = RealOptionTexts {
        margins: texts[0].clone(),
        blank_max_dark_ratio: texts[2].clone(),
        blank_max_edge_ratio: texts[4].clone(),
        despeckle: texts[7].clone(),
        page_detection_tolerance: texts[8].clone(),
        tone_color_global_threshold: texts[22].clone(),
        tone_color_tile_threshold: texts[23].clone(),
    };
    let parse_error = if errors.len() == 0 {
        None
    } else {
        Some(string_of(&join_chars(&errors, "; ")))
    };
    CliArgs {
        mode: CliMode::BookScan,
        input_folder: string_of(&args[0]),
        output_path: output,
        canvas_width: DEFAULT_WIDTH,
        max_performance: !any_arg(args, "--no-max-performance"),
        output_format: OutputImageFormat::Jpeg,
        lossless: false,
        book_scan: Some(config),
        real_options,
        parse_error,
    }
}


// ---------------------------------------------------------------------
// Width, format and performance options shared by the modes

/// From position `i`: the canvas width after the first `--width`, or the
/// default where that value does not read as a `u32`.
pub open spec fn width_from(a: Seq<Seq<char>>, i: int) -> nat
    decreases a.len() - i,
{
    if i < 0 || i + 1 >= a.len() {
        DEFAULT_WIDTH as nat
    } else if a[i] == "--width"@ {
        match parse_unsigned(a[i + 1], 0xffff_ffff) {
            Some(n) => n,
            None => DEFAULT_WIDTH as nat,
        }
    } else {
        width_from(a, i + 1)
    }
}

/// `--width <px>`, else the default width.
pub fn parse_width(args: &Vec<Vec<char>>) -> (r: u32)
    ensures
        r == width_from(views(args@), 0),
{
    let ghost a = views(args@);
    let mut i: usize = 0;
    while args.len() > 0 && i < args.len() - 1
        invariant
            a == views(args@),
            width_from(a, 0) == width_from(a, i as int),
        decreases args.len() - i,
    {
        assert(a[i as int] == args@[i as int]@ && a[i + 1] == args@[i + 1]@);
        if is_text(&args[i], "--width") {
            return match parse_unsigned_chars(&args[i + 1], 0xffff_ffff) {
                Some(n) => n as u32,
                None => DEFAULT_WIDTH,
            };
        }
        i = i + 1;
    }
    DEFAULT_WIDTH
}

/// Maximum-performance mode is on unless `--no-max-performance` is given.
pub fn parse_max_performance(args: &Vec<Vec<char>>) -> (r: bool)
    ensures
        r == !views(args@).contains("--no-max-performance"@),
{
    !any_arg(args, "--no-max-performance")
}

/// From position `i`: the format after the first `--format`, or `auto`
/// where that value is not a format.
pub open spec fn format_from(a: Seq<Seq<char>>, i: int) -> OutputImageFormat
    decreases a.len() - i,
{
    if i < 0 || i + 1 >= a.len() {
        OutputImageFormat::AutoLossless
    } else if a[i] == "--format"@ {
        match OutputImageFormat::from_text(a[i + 1]) {
            Some(f) => f,
            None => OutputImageFormat::AutoLossless,
        }
    } else {
        format_from(a, i + 1)
    }
}

fn parse_format(args: &Vec<Vec<char>>) -> (r: OutputImageFormat)
    ensures
        r == format_from(views(args@), 0),
{
    let ghost a = views(args@);
    let mut i: usize = 0;
    while args.len() > 0 && i < args.len() - 1
        invariant
            a == views(args@),
            format_from(a, 0) == format_from(a, i as int),
        decreases args.len() - i,
    {
        assert(a[i as int] == args@[i as int]@ && a[i + 1] == args@[i + 1]@);
        if is_text(&args[i], "--format") {
            let t = string_of(&args[i + 1]);
            return match OutputImageFormat::parse(t.as_str()) {
                Some(f) => f,
                None => OutputImageFormat::AutoLossless,
            };
        }
        i = i + 1;
    }
    OutputImageFormat::AutoLossless
}

// ---------------------------------------------------------------------
// Default PDF name

#[verifier::external_type_specification]
#[verifier::external_body]
pub struct ExSystemTime(std::time::SystemTime);

/// `std::time::SystemTime::now`: the clock's reading, of which nothing is
/// stated.
#[verifier::external_body]
fn system_now() -> (r: std::time::SystemTime) {
    std::time::SystemTime::now()
}

/// `std::time::SystemTime::duration_since` the Unix epoch; `None` for a
/// time before it. Nothing is stated of the length.
#[verifier::external_body]
fn since_unix_epoch(t: &std::time::SystemTime) -> (r: Option<core::time::Duration>) {
    match t.duration_since(std::time::UNIX_EPOCH) {
        Ok(d) => Some(d),
        Err(_) => None,
    }
}

/// `std::time::Duration::as_millis`: whole milliseconds, of which nothing
/// is stated here.
#[verifier::external_body]
fn whole_millis(d: &core::time::Duration) -> (r: u128) {
    d.as_millis()
}

/// `output-<seed>.pdf`.
pub open spec fn pdf_output_name(seed: nat) -> Seq<char> {
    "output-"@ + decimal(seed) + ".pdf"@
}

/// `output-<seed>.pdf` for a given seed.
pub fn pdf_output_name_for(seed: u128) -> (r: String)
    ensures
        r@ == pdf_output_name(seed as nat),
{
    let mut v = chars_of("output-");
    let d = decimal_chars(seed);
    push_all(&mut v, &d);
    push_str(&mut v, ".pdf");
    string_of(&v)
}

/// `output-<milliseconds since the epoch>.pdf` in the current folder (0
/// where the clock reads before the epoch).
pub fn default_pdf_output_path() -> (r: String)
    ensures
        exists|seed: nat| r@ == pdf_output_name(seed),
{
    let now = system_now();
    let seed = match since_unix_epoch(&now) {
        Some(d) => whole_millis(&d),
        None => 0,
    };
    pdf_output_name_for(seed)
}

// ---------------------------------------------------------------------
// Whole command lines

/// The texts of a list of strings.
pub open spec fn string_views(v: Seq<String>) -> Seq<Seq<char>> {
    v.map_values(|s: String| s@)
}

/// The characters of each argument.
pub fn arg_chars(args: &[String]) -> (r: Vec<Vec<char>>)
    ensures
        views(r@) == string_views(args@),
{
    let mut r: Vec<Vec<char>> = Vec::new();
    let mut i: usize = 0;
    while i < args.len()
        invariant
            i <= args.len(),
            views(r@) == string_views(args@.take(i as int)),
        decreases args.len() - i,
    {
        let c = chars_of(args[i].as_str());
        assert(c@ == args@[i as int]@);
        let ghost before = views(r@);
        r.push(c);
        assert(views(r@) =~= before.push(c@));
        i = i + 1;
        assert(args@.take(i as int) =~= args@.take(i - 1).push(args@[i - 1]));
        assert(views(r@) =~= string_views(args@.take(i as int)));
    }
    assert(args@.take(i as int) =~= args@);
    r
}

/// Which help text a command line asks to print before anything runs, and
/// whether that is because the input is missing (exit status 1) rather than
/// requested (exit status 0).
#[derive(Debug, Clone, Copy, PartialEq, Eq, Structural)]
pub enum UsageRequest {
    Main,
    Pdf2Img { missing_input: bool },
    BookScan { missing_input: bool },
}

/// Whether the arguments hold `--help` or `-h`.
pub open spec fn asks_help(a: Seq<Seq<char>>) -> bool {
    a.contains("--help"@) || a.contains("-h"@)
}

/// The help a command line asks for.
pub open spec fn usage_of(a: Seq<Seq<char>>) -> Option<UsageRequest> {
    if a.len() == 0 {
        None
    } else if a[0] == "pdf2img"@ {
        if asks_help(a.skip(1)) {
            Some(UsageRequest::Pdf2Img { missing_input: false })
        } else if a.len() == 1 {
            Some(UsageRequest::Pdf2Img { missing_input: true })
        } else {
            None
        }
    } else if a[0] == "book-scan"@ {
        if asks_help(a.skip(1)) {
            Some(UsageRequest::BookScan { missing_input: false })
        } else if a.len() == 1 {
            Some(UsageRequest::BookScan { missing_input: true })
        } else {
            None
        }
    } else if asks_help(a) {
        Some(UsageRequest::Main)
    } else {
        None
    }
}

/// The help a command line asks for, if any.
pub fn usage_request(args: &[String]) -> (r: Option<UsageRequest>)
    ensures
        r == usage_of(string_views(args@)),
{
    let a = arg_chars(args);
    usage_request_chars(&a)
}

fn usage_request_chars(a: &Vec<Vec<char>>) -> (r: Option<UsageRequest>)
    ensures
        r == usage_of(views(a@)),
{
    let ghost v = views(a@);
    if a.len() == 0 {
        return None;
    }
    assert(v[0] == a@[0]@);
    let rest = slice_args(a, 1);
    assert(views(rest@) == v.skip(1));
    let rest_help = any_arg(&rest, "--help") || any_arg(&rest, "-h");
    if is_text(&a[0], "pdf2img") {
        if rest_help {
            Some(UsageRequest::Pdf2Img { missing_input: false })
        } else if a.len() == 1 {
            Some(UsageRequest::Pdf2Img { missing_input: true })
        } else {
            None
        }
    } else if is_text(&a[0], "book-scan") {
        if rest_help {
            Some(UsageRequest::BookScan { missing_input: false })
        } else if a.len() == 1 {
            Some(UsageRequest::BookScan { missing_input: true })
        } else {
            None
        }
    } else if any_arg(a, "--help") || any_arg(a, "-h") {
        Some(UsageRequest::Main)
    } else {
        None
    }
}

/// The arguments from position `from` on.
fn slice_args(a: &Vec<Vec<char>>, from: usize) -> (r: Vec<Vec<char>>)
    requires
        from <= a.len(),
    ensures
        views(r@) == views(a@).skip(from as int),
{
    let mut r: Vec<Vec<char>> = Vec::new();
    let mut i: usize = from;
    while i < a.len()
        invariant
            from <= i <= a.len(),
            views(r@) == views(a@).subrange(from as int, i as int),
        decreases a.len() - i,
    {
        let c = slice_chars(&a[i], 0, a[i].len());
        assert(c@ =~= a@[i as int]@);
        let ghost before = views(r@);
        r.push(c);
        assert(views(r@) =~= before.push(c@));
        i = i + 1;
        assert(views(r@) =~= views(a@).subrange(from as int, i as int));
    }
    assert(views(a@).skip(from as int) =~= views(a@).subrange(from as int, i as int));
    r
}

/// What plain img2pdf arguments `a` parse to.
pub open spec fn img2pdf_parsed(a: Seq<Seq<char>>, r: CliArgs) -> bool {
    &&& r.mode == CliMode::Img2Pdf
    &&& r.input_folder@ == a[0]
    &&& a.len() > 1 && !has_prefix(a[1], "--"@) ==> r.output_path@ == a[1]
    &&& !(a.len() > 1 && !has_prefix(a[1], "--"@)) ==> exists|seed: nat|
        r.output_path@ == pdf_output_name(seed)
    &&& r.canvas_width == width_from(a, 0)
    &&& r.max_performance == !a.contains("--no-max-performance"@)
    &&& r.output_format == OutputImageFormat::Jpeg
    &&& r.lossless == a.contains("--lossless"@)
    &&& r.book_scan is None
    &&& r.parse_error is None
}

/// Reads plain img2pdf arguments: the image folder, an optional output
/// (else `output-<seed>.pdf`), `--width`, `--lossless`.
pub fn parse_img2pdf_args(args: &Vec<Vec<char>>) -> (r: CliArgs)
    requires
        args.len() > 0,
    ensures
        img2pdf_parsed(views(args@), r),
{
    let ghost a = views(args@);
    assert(a[0] == args@[0]@);
    let output_path = if args.len() > 1 && !starts_with_text(&args[1], "--") {
        assert(a[1] == args@[1]@);
        string_of(&args[1])
    } else {
        proof {
            if args.len() > 1 {
                assert(a[1] == args@[1]@);
            }
        }
        default_pdf_output_path()
    };
    CliArgs {
        mode: CliMode::Img2Pdf,
        input_folder: string_of(&args[0]),
        output_path,
        canvas_width: parse_width(args),
        max_performance: parse_max_performance(args),
        output_format: OutputImageFormat::Jpeg,
        lossless: any_arg(args, "--lossless"),
        book_scan: None,
        real_options: no_real_options(),
        parse_error: None,
    }
}

/// What arguments `a` after `pdf2img` parse to.
pub open spec fn pdf2img_parsed(a: Seq<Seq<char>>, r: CliArgs) -> bool {
    &&& r.mode == CliMode::Pdf2Img
    &&& r.input_folder@ == a[0]
    &&& a.len() > 1 && !has_prefix(a[1], "--"@) ==> r.output_path@ == a[1]
    &&& !(a.len() > 1 && !has_prefix(a[1], "--"@)) && simple_path(a[0]) ==> if parent_part(
        a[0],
    ).len() > 0 {
        joined_either(r.output_path@, parent_part(a[0]), image_folder_name(a[0]))
    } else {
        r.output_path@ == image_folder_name(a[0])
    }
    &&& r.canvas_width == width_from(a, 0)
    &&& r.max_performance == !a.contains("--no-max-performance"@)
    &&& r.output_format == format_from(a, 0)
    &&& !r.lossless
    &&& r.book_scan is None
    &&& r.parse_error is None
}

/// Reads the arguments after `pdf2img`: the PDF, an optional output folder
/// (else `<stem>-images` beside it), `--width`, `--format`.
pub fn parse_pdf2img_args(args: &[String]) -> (r: CliArgs)
    requires
        args.len() > 0,
    ensures
        pdf2img_parsed(string_views(args@), r),
{
    let a = arg_chars(args);
    assert(views(a@).len() == a@.len() && string_views(args@).len() == args@.len());
    parse_pdf2img_chars(&a)
}

/// Reads the arguments after `pdf2img`, each as characters.
fn parse_pdf2img_chars(args: &Vec<Vec<char>>) -> (r: CliArgs)
    requires
        args.len() > 0,
    ensures
        pdf2img_parsed(views(args@), r),
{
    let ghost a = views(args@);
    assert(a[0] == args@[0]@);
    let input = string_of(&args[0]);
    let output_path = if args.len() > 1 && !starts_with_text(&args[1], "--") {
        assert(a[1] == args@[1]@);
        string_of(&args[1])
    } else {
        proof {
            if args.len() > 1 {
                assert(a[1] == args@[1]@);
            }
        }
        default_image_output_folder(input.as_str())
    };
    CliArgs {
        mode: CliMode::Pdf2Img,
        input_folder: input,
        output_path,
        canvas_width: parse_width(args),
        max_performance: parse_max_performance(args),
        output_format: parse_format(args),
        lossless: false,
        book_scan: None,
        real_options: no_real_options(),
        parse_error: None,
    }
}

/// What a whole command line parses to, once no help is asked for: nothing
/// for no arguments (the GUI starts), else the mode its first word selects.
pub open spec fn args_parsed(a: Seq<Seq<char>>, r: Option<CliArgs>) -> bool {
    if a.len() == 0 {
        r is None
    } else {
        r matches Some(c) && if a[0] == "pdf2img"@ {
            pdf2img_parsed(a.skip(1), c)
        } else if a[0] == "book-scan"@ {
            book_scan_parsed(a.skip(1), c)
        } else {
            img2pdf_parsed(a, c)
        }
    }
}

/// Parses a command line; `None` when there are no arguments. A command
/// line that asks for help (see `usage_request`) is answered before this.
pub fn parse_args(args: &[String]) -> (r: Option<CliArgs>)
    requires
        usage_of(string_views(args@)) is None,
    ensures
        args_parsed(string_views(args@), r),
{
    let a = arg_chars(args);
    let ghost v = views(a@);
    if a.len() == 0 {
        return None;
    }
    assert(v[0] == a@[0]@);
    assert(v.len() == a@.len());
    assert(usage_of(v) is None);
    if is_text(&a[0], "pdf2img") {
        assert(v[0] == "pdf2img"@);
        assert(!asks_help(v.skip(1)));
        assert(v.len() != 1);
        let rest = slice_args(&a, 1);
        assert(views(rest@).len() == rest@.len());
        Some(parse_pdf2img_chars(&rest))
    } else if is_text(&a[0], "book-scan") {
        assert(v[0] == "book-scan"@);
        assert(v[0] != "pdf2img"@);
        assert(v.len() != 1);
        let rest = slice_args(&a, 1);
        assert(views(rest@).len() == rest@.len());
        Some(parse_book_scan_chars(&rest))
    } else {
        Some(parse_img2pdf_args(&a))
    }
}


// ---------------------------------------------------------------------
// Book-scan help

/// `s` padded with spaces on the right to `width` characters.
pub open spec fn pad_right(s: Seq<char>, width: nat) -> Seq<char> {
    if s.len() >= width {
        s
    } else {
        s + Seq::new((width - s.len()) as nat, |_i: int| ' ')
    }
}

/// How an option is shown: its name, and its value form where it takes one.
pub open spec fn option_signature(o: BookOptionSpec) -> Seq<char> {
    if o.value@.len() == 0 {
        o.name@
    } else {
        o.name@ + " "@ + o.value@
    }
}

/// The help line of an option: signature in a 42-character column, the
/// description, and the default in brackets where there is one.
pub open spec fn option_line(o: BookOptionSpec) -> Seq<char> {
    "  "@ + pad_right(option_signature(o), 42) + " "@ + o.description@ + (if o.default@.len() == 0 {
        Seq::empty()
    } else {
        " ["@ + o.default@ + "]"@
    }) + "\n"@
}

/// The help lines of the first `n` rows that belong to `section`.
pub open spec fn section_lines(section: BookOptionSection, n: int) -> Seq<char>
    decreases n,
{
    if n <= 0 {
        Seq::empty()
    } else {
        section_lines(section, n - 1) + (if book_option(n - 1).section == section {
            option_line(book_option(n - 1))
        } else {
            Seq::empty()
        })
    }
}

/// Number of help sections.
pub const SECTION_COUNT: usize = 6;

/// Help section `k` and its title.
pub open spec fn help_section(k: int) -> (BookOptionSection, &'static str) {
    if k == 0 {
        (BookOptionSection::Page, "ページ・作業")
    } else if k == 1 {
        (BookOptionSection::Blank, "空白ページ")
    } else if k == 2 {
        (BookOptionSection::ScanTailor, "ScanTailor前処理")
    } else if k == 3 {
        (BookOptionSection::SuperResolution, "超解像")
    } else if k == 4 {
        (BookOptionSection::ToneAndJpeg, "文字・階調・JPEG")
    } else {
        (BookOptionSection::Shortcut, "短縮flag")
    }
}

fn help_section_at(k: usize) -> (r: (BookOptionSection, &'static str))
    ensures
        r == help_section(k as int),
{
    match k {
        0 => (BookOptionSection::Page, "ページ・作業"),
        1 => (BookOptionSection::Blank, "空白ページ"),
        2 => (BookOptionSection::ScanTailor, "ScanTailor前処理"),
        3 => (BookOptionSection::SuperResolution, "超解像"),
        4 => (BookOptionSection::ToneAndJpeg, "文字・階調・JPEG"),
        _ => (BookOptionSection::Shortcut, "短縮flag"),
    }
}

/// A section's title line and its option lines.
pub open spec fn section_text(k: int) -> Seq<char> {
    "\n"@ + help_section(k).1@ + ":\n"@ + section_lines(help_section(k).0, BOOK_OPTION_COUNT as int)
}

/// The first `n` sections.
pub open spec fn sections_upto(n: int) -> Seq<char>
    decreases n,
{
    if n <= 0 {
        Seq::empty()
    } else {
        sections_upto(n - 1) + section_text(n - 1)
    }
}

/// The preset summary that opens the book-scan help.
pub open spec fn usage_header() -> Seq<char> {
    "使用方法:\n  img2pdf book-scan <input.pdf|image_folder> [output.pdf] [options]\n\n既定プリセット:\n  ScanTailor/crop/背景正規化/tone boost ON、deskew/dewarp/stroke OFF\n  Anime AI内部x2 → 最終x1、JPEG Q90 4:4:4、A4上で元位置と縦横比を保持\n  自動グレースケールは無効。1成分Grayは --grayscale-pages で明示したページだけ\n  表紙はcrop除外、空白ページは元画像を埋め込み\n"@
}

/// The notes that close the book-scan help.
pub open spec fn usage_footer() -> Seq<char> {
    "\nページLIST形式:\n  1,9,20-22 のように1始まりで指定。0、逆順、空要素はエラー\n\n環境変数:\n  IMG2PDF_SCANTAILOR / IMG2PDF_REALESRGAN\n"@
}

/// The book-scan help: the preset summary, one section per option group,
/// and the notes on page lists and environment variables.
pub open spec fn usage_text() -> Seq<char> {
    usage_header() + sections_upto(SECTION_COUNT as int) + usage_footer()
}

/// `piece` occurs in `text`.
pub open spec fn is_infix(piece: Seq<char>, text: Seq<char>) -> bool {
    exists|i: int| 0 <= i && i + piece.len() <= text.len() && #[trigger] text.subrange(i, i + piece.len()) == piece
}

proof fn lemma_infix_extend(p: Seq<char>, a: Seq<char>, b: Seq<char>)
    requires
        is_infix(p, a),
    ensures
        is_infix(p, a + b),
        is_infix(p, b + a),
{
    let i = choose|i: int| 0 <= i && i + p.len() <= a.len() && #[trigger] a.subrange(i, i + p.len()) == p;
    assert((a + b).subrange(i, i + p.len()) =~= a.subrange(i, i + p.len()));
    let k = b.len() + i;
    assert((b + a).subrange(k, k + p.len()) =~= a.subrange(i, i + p.len()));
}

proof fn lemma_section_lines_list(j: int, n: int)
    requires
        0 <= j < n <= BOOK_OPTION_COUNT,
    ensures
        is_infix(option_line(book_option(j)), section_lines(book_option(j).section, n)),
    decreases n,
{
    let s = book_option(j).section;
    let line = option_line(book_option(j));
    if n - 1 == j {
        let before = section_lines(s, n - 1);
        assert(section_lines(s, n) == before + line);
        assert((before + line).subrange(before.len() as int, (before.len() + line.len()) as int) =~= line);
    } else {
        lemma_section_lines_list(j, n - 1);
        lemma_infix_extend(line, section_lines(s, n - 1), if book_option(n - 1).section == s {
            option_line(book_option(n - 1))
        } else {
            Seq::empty()
        });
    }
}

proof fn lemma_sections_upto_list(p: Seq<char>, k: int, n: int)
    requires
        0 <= k < n,
        is_infix(p, section_text(k)),
    ensures
        is_infix(p, sections_upto(n)),
    decreases n,
{
    if n - 1 == k {
        lemma_infix_extend(p, section_text(k), sections_upto(n - 1));
    } else {
        lemma_sections_upto_list(p, k, n - 1);
        lemma_infix_extend(p, sections_upto(n - 1), section_text(n - 1));
    }
}

/// The book-scan help opens with the usage header, closes with the notes on
/// page lists and environment variables, and holds the line of every
/// option of the table: its name and value form, its description and,
/// where it has one, its default in brackets.
pub proof fn lemma_usage_lists_every_option(j: int)
    requires
        0 <= j < BOOK_OPTION_COUNT,
    ensures
        has_prefix(usage_text(), usage_header()),
        usage_text().skip(usage_text().len() - usage_footer().len()) == usage_footer(),
        is_infix(option_line(book_option(j)), usage_text()),
{
    let t = usage_text();
    let body = sections_upto(SECTION_COUNT as int);
    assert(t.take(usage_header().len() as int) =~= usage_header());
    assert(t.skip(t.len() - usage_footer().len()) =~= usage_footer());
    let o = book_option(j);
    let line = option_line(o);
    lemma_section_lines_list(j, BOOK_OPTION_COUNT as int);
    let k: int = match o.section {
        BookOptionSection::Page => 0,
        BookOptionSection::Blank => 1,
        BookOptionSection::ScanTailor => 2,
        BookOptionSection::SuperResolution => 3,
        BookOptionSection::ToneAndJpeg => 4,
        BookOptionSection::Shortcut => 5,
    };
    assert(help_section(k).0 == o.section);
    lemma_infix_extend(line, section_lines(o.section, BOOK_OPTION_COUNT as int), "\n"@ + help_section(
        k,
    ).1@ + ":\n"@);
    assert(section_text(k) == "\n"@ + help_section(k).1@ + ":\n"@ + section_lines(
        o.section,
        BOOK_OPTION_COUNT as int,
    ));
    lemma_sections_upto_list(line, k, SECTION_COUNT as int);
    lemma_infix_extend(line, body, usage_header());
    lemma_infix_extend(line, usage_header() + body, usage_footer());
    assert(t == usage_header() + body + usage_footer());
}

fn push_option_line(out: &mut Vec<char>, o: BookOptionSpec)
    ensures
        final(out)@ == old(out)@ + option_line(o),
{
    let mut sig = chars_of(o.name);
    let value = chars_of(o.value);
    if value.len() > 0 {
        push_str(&mut sig, " ");
        push_all(&mut sig, &value);
    }
    let ghost sig_text = sig@;
    assert(sig_text == option_signature(o));
    let ghost unpadded = sig@;
    while sig.len() < 42
        invariant
            unpadded.len() <= sig@.len(),
            sig@.len() <= 42 || sig@ == unpadded,
            sig@ == unpadded + Seq::new((sig@.len() - unpadded.len()) as nat, |_i: int| ' '),
        decreases 42 - sig.len(),
    {
        let ghost before = sig@;
        sig.push(' ');
        assert(sig@ =~= unpadded + Seq::new((sig@.len() - unpadded.len()) as nat, |_i: int| ' '));
    }
    proof {
        if unpadded.len() >= 42 {
            assert(sig@ =~= unpadded);
        }
        assert(sig@ == pad_right(unpadded, 42));
    }
    push_str(out, "  ");
    push_all(out, &sig);
    push_str(out, " ");
    push_str(out, o.description);
    let dflt = chars_of(o.default);
    if dflt.len() > 0 {
        push_str(out, " [");
        push_all(out, &dflt);
        push_str(out, "]");
    }
    push_str(out, "\n");
    assert(final(out)@ =~= old(out)@ + option_line(o));
}

/// The book-scan help text, built from the option table.
pub fn book_scan_usage() -> (r: String)
    ensures
        r@ == usage_text(),
{
    let mut out = chars_of("使用方法:\n  img2pdf book-scan <input.pdf|image_folder> [output.pdf] [options]\n\n既定プリセット:\n  ScanTailor/crop/背景正規化/tone boost ON、deskew/dewarp/stroke OFF\n  Anime AI内部x2 → 最終x1、JPEG Q90 4:4:4、A4上で元位置と縦横比を保持\n  自動グレースケールは無効。1成分Grayは --grayscale-pages で明示したページだけ\n  表紙はcrop除外、空白ページは元画像を埋め込み\n");
    let mut k: usize = 0;
    assert(out@ =~= usage_header() + sections_upto(0));
    while k < SECTION_COUNT
        invariant
            k <= SECTION_COUNT,
            out@ == usage_header() + sections_upto(k as int),
        decreases SECTION_COUNT - k,
    {
        let (section, title) = help_section_at(k);
        let ghost start = out@;
        push_str(&mut out, "\n");
        push_str(&mut out, title);
        push_str(&mut out, ":\n");
        let ghost head = out@;
        let mut i: usize = 0;
        assert(out@ =~= head + section_lines(section, 0));
        while i < BOOK_OPTION_COUNT
            invariant
                i <= BOOK_OPTION_COUNT,
                out@ == head + section_lines(section, i as int),
            decreases BOOK_OPTION_COUNT - i,
        {
            let o = book_option_at(i);
            if o.section == section {
                push_option_line(&mut out, o);
            }
            i = i + 1;
            assert(out@ =~= head + section_lines(section, i as int));
        }
        k = k + 1;
        assert(out@ =~= usage_header() + sections_upto(k as int));
    }
    push_str(&mut out, "\nページLIST形式:\n  1,9,20-22 のように1始まりで指定。0、逆順、空要素はエラー\n\n環境変数:\n  IMG2PDF_SCANTAILOR / IMG2PDF_REALESRGAN\n");
    string_of(&out)
}


// ---------------------------------------------------------------------
// Progress line

/// Percent done, rounded down; a zero total counts as one.
pub open spec fn progress_percent(count: nat, total: nat) -> nat {
    let safe = if total == 0 {
        1
    } else {
        total
    };
    let done = if count < safe {
        count
    } else {
        safe
    };
    (done * 100) / safe
}

/// `n` copies of `c`.
pub open spec fn repeat_char(c: char, n: nat) -> Seq<char> {
    Seq::new(n, |_i: int| c)
}

/// `s` right-aligned in `width` characters.
pub open spec fn pad_left(s: Seq<char>, width: nat) -> Seq<char> {
    if s.len() >= width {
        s
    } else {
        repeat_char(' ', (width - s.len()) as nat) + s
    }
}

/// `  label: [####------] pct% (count/total)` with a 30-character bar.
pub open spec fn progress_line(label: Seq<char>, count: nat, total: nat) -> Seq<char> {
    let pct = progress_percent(count, total);
    let filled = pct * 30 / 100;
    "  "@ + label + ": ["@ + repeat_char('#', filled) + repeat_char('-', (30 - filled) as nat) + "] "@
        + pad_left(decimal(pct), 3) + "% ("@ + decimal(count) + "/"@ + decimal(total) + ")"@
}

fn push_repeat(out: &mut Vec<char>, c: char, n: usize)
    ensures
        final(out)@ == old(out)@ + repeat_char(c, n as nat),
{
    let ghost start = out@;
    let mut i: usize = 0;
    while i < n
        invariant
            i <= n,
            out@ == start + repeat_char(c, i as nat),
        decreases n - i,
    {
        out.push(c);
        i = i + 1;
        assert(out@ =~= start + repeat_char(c, i as nat));
    }
}

/// The one-line progress display of the command line.
pub fn render_progress_line(label: &str, count: usize, total: usize) -> (r: String)
    requires
        (if count < (if total == 0 { 1 } else { total }) {
            count as int
        } else {
            (if total == 0 { 1 } else { total }) as int
        }) * 100 <= usize::MAX,
    ensures
        r@ == progress_line(label@, count as nat, total as nat),
{
    let safe_total: usize = if total == 0 {
        1
    } else {
        total
    };
    let done: usize = if count < safe_total {
        count
    } else {
        safe_total
    };
    let pct: usize = (done * 100) / safe_total;
    assert(pct <= 100) by (nonlinear_arith)
        requires
            done <= safe_total,
            safe_total > 0,
            pct == (done * 100) / (safe_total as int),
    ;
    let filled: usize = (pct * 30) / 100;
    let mut out: Vec<char> = Vec::new();
    push_str(&mut out, "  ");
    push_str(&mut out, label);
    push_str(&mut out, ": [");
    push_repeat(&mut out, '#', filled);
    push_repeat(&mut out, '-', 30 - filled);
    push_str(&mut out, "] ");
    let digits = decimal_chars(pct as u128);
    if digits.len() < 3 {
        push_repeat(&mut out, ' ', 3 - digits.len());
    }
    push_all(&mut out, &digits);
    push_str(&mut out, "% (");
    push_all(&mut out, &decimal_chars(count as u128));
    push_str(&mut out, "/");
    push_all(&mut out, &decimal_chars(total as u128));
    push_str(&mut out, ")");
    proof {
        let pl = pad_left(decimal(pct as nat), 3);
        if digits@.len() >= 3 {
            assert(pl == digits@);
        }
        assert(out@ =~= progress_line(label@, count as nat, total as nat));
    }
    string_of(&out)
}

} // verus!
