use img2pdf::cli::{
    book_scan_usage, parse_args, parse_book_scan_args, render_progress_line, usage_request, CliMode,
    UsageRequest,
};
use img2pdf::config::{JpegSampling, PageRange, SuperResolutionMode};
use img2pdf::constants::DEFAULT_WIDTH;
use img2pdf::pdf2img::OutputImageFormat;

fn strings(args: &[&str]) -> Vec<String> {
    args.iter().map(|a| a.to_string()).collect()
}

fn chars(args: &[&str]) -> Vec<String> {
    args.iter().map(|a| a.to_string()).collect()
}

#[test]
fn test_cli_parse_no_args_returns_none() {
    assert!(parse_args(&[]).is_none());
}

#[test]
fn test_cli_parse_one_arg_uses_default_output() {
    let args = vec!["folder".to_string()];
    let parsed = parse_args(&args).expect("one input arg should use default output path");
    assert_eq!(parsed.input_folder, "folder");
    assert!(parsed.output_path.ends_with(".pdf"));
}

#[test]
fn test_cli_parse_two_args_returns_some() {
    let args = vec!["/some/folder".to_string(), "/out.pdf".to_string()];
    let parsed = parse_args(&args).expect("Should parse with 2 args");
    assert_eq!(parsed.mode, CliMode::Img2Pdf);
    assert_eq!(parsed.input_folder, "/some/folder");
    assert_eq!(parsed.output_path, "/out.pdf");
    assert_eq!(parsed.canvas_width, DEFAULT_WIDTH);
}

#[test]
fn test_cli_parse_pdf2img_subcommand() {
    let args = vec![
        "pdf2img".to_string(),
        "/in.pdf".to_string(),
        "/out".to_string(),
        "--format".to_string(),
        "png".to_string(),
        "--width".to_string(),
        "800".to_string(),
    ];
    let parsed = parse_args(&args).expect("Should parse pdf2img args");
    assert_eq!(parsed.mode, CliMode::Pdf2Img);
    assert_eq!(parsed.input_folder, "/in.pdf");
    assert_eq!(parsed.output_path, "/out");
    assert_eq!(parsed.canvas_width, 800);
    assert_eq!(parsed.output_format, OutputImageFormat::Png);
}

#[test]
fn test_cli_parse_pdf2img_default_auto_lossless() {
    let args = vec!["pdf2img".to_string(), "/in.pdf".to_string()];
    let parsed = parse_args(&args).expect("Should parse pdf2img args");
    assert_eq!(parsed.output_format, OutputImageFormat::AutoLossless);
}

#[test]
fn test_cli_parse_img2pdf_lossless() {
    let args = vec!["/folder".to_string(), "/out.pdf".to_string(), "--lossless".to_string()];
    let parsed = parse_args(&args).expect("Should parse with --lossless");
    assert_eq!(parsed.mode, CliMode::Img2Pdf);
    assert!(parsed.lossless);
}

#[test]
fn test_cli_parse_custom_width() {
    let args = vec![
        "/folder".to_string(),
        "/out.pdf".to_string(),
        "--width".to_string(),
        "800".to_string(),
    ];
    let parsed = parse_args(&args).expect("Should parse with --width");
    assert_eq!(parsed.canvas_width, 800);
}

#[test]
fn default_pdf_name_is_output_and_a_number() {
    let parsed = parse_args(&strings(&["folder", "--width", "x"])).unwrap();
    let name = parsed.output_path;
    assert!(name.starts_with("output-"));
    assert!(name.ends_with(".pdf"));
    assert!(name["output-".len()..name.len() - 4].chars().all(|c| c.is_ascii_digit()));
    assert_eq!(parsed.canvas_width, DEFAULT_WIDTH);
}

#[test]
fn pdf2img_default_folder_sits_beside_the_pdf() {
    let parsed = parse_args(&strings(&["pdf2img", "scans/book.pdf", "--format", "webp"])).unwrap();
    assert_eq!(parsed.output_format, OutputImageFormat::AutoLossless);
    assert!(parsed.output_path.ends_with("book-images"));
    assert!(parsed.output_path.starts_with("scans"));
    let bare = parse_args(&strings(&["pdf2img", "book.pdf"])).unwrap();
    assert_eq!(bare.output_path, "book-images");
}

#[test]
fn help_requests_are_answered_before_parsing() {
    assert_eq!(usage_request(&strings(&["--help"])), Some(UsageRequest::Main));
    assert_eq!(usage_request(&strings(&["folder", "-h"])), Some(UsageRequest::Main));
    assert_eq!(
        usage_request(&strings(&["pdf2img"])),
        Some(UsageRequest::Pdf2Img { missing_input: true })
    );
    assert_eq!(
        usage_request(&strings(&["pdf2img", "a.pdf", "--help"])),
        Some(UsageRequest::Pdf2Img { missing_input: false })
    );
    assert_eq!(
        usage_request(&strings(&["book-scan"])),
        Some(UsageRequest::BookScan { missing_input: true })
    );
    assert_eq!(usage_request(&strings(&["book-scan", "a.pdf"])), None);
    assert_eq!(usage_request(&strings(&[])), None);
}

#[test]
fn book_scan_defaults_follow_the_preset() {
    let parsed = parse_args(&strings(&["book-scan", "in.pdf", "out.pdf"])).unwrap();
    assert_eq!(parsed.mode, CliMode::BookScan);
    assert_eq!(parsed.input_folder, "in.pdf");
    assert_eq!(parsed.output_path, "out.pdf");
    assert!(parsed.parse_error.is_none());
    let config = parsed.book_scan.unwrap();
    assert_eq!(config.output_pdf, "out.pdf");
    assert!(config.scantailor_enabled && config.crop_enabled && config.normalize_illumination);
    assert_eq!(config.super_resolution, SuperResolutionMode::Anime);
    assert_eq!(config.jpeg_quality, 90);
    assert_eq!(config.superres_model, "realesr-animevideov3");
    assert!(parsed.real_options.despeckle.is_none());
}

#[test]
fn book_scan_options_are_read() {
    let args = chars(&[
        "in",
        "--pages",
        "3-9",
        "--jpeg-quality=75",
        "--superres",
        "lanczos",
        "--scale",
        "2",
        "--output-scale",
        "3",
        "--gpu-id",
        "-2",
        "--despeckle",
        "2.5",
        "--grayscale-pages",
        "1,4-5",
        "--no-crop",
        "--keep-work",
        "--jpeg-sampling",
        "420",
        "--model-dir",
        "models",
    ]);
    let parsed = parse_book_scan_args(&args);
    assert!(parsed.parse_error.is_none(), "{:?}", parsed.parse_error);
    let c = parsed.book_scan.unwrap();
    assert_eq!(c.pages, Some(PageRange { start: 3, end: 9 }));
    assert_eq!(c.jpeg_quality, 75);
    assert_eq!(c.super_resolution, SuperResolutionMode::Lanczos);
    assert_eq!(c.superres_output_scale, 3);
    assert_eq!(c.gpu_id, -2);
    assert_eq!(parsed.real_options.despeckle.as_deref(), Some("2.5"));
    assert_eq!(c.grayscale_pages, vec![PageRange { start: 1, end: 1 }, PageRange { start: 4, end: 5 }]);
    assert!(!c.crop_enabled);
    assert!(c.keep_work);
    assert_eq!(c.jpeg_sampling, JpegSampling::S420);
    assert_eq!(c.realesrgan_model_dir.as_deref(), Some("models"));
    assert!(parsed.output_path.ends_with("in-book.pdf"));
}

#[test]
fn scantailor_off_turns_its_steps_off() {
    let parsed = parse_book_scan_args(&chars(&["in", "--scantailor", "off", "--deskew", "on"]));
    let c = parsed.book_scan.unwrap();
    assert!(!c.scantailor_enabled && !c.crop_enabled && !c.normalize_illumination);
    assert!(!c.deskew_enabled && !c.dewarp_enabled);
}

#[test]
fn book_scan_errors_are_collected_in_order() {
    let parsed = parse_book_scan_args(&chars(&[
        "in",
        "--bogus",
        "--no-crop=1",
        "--dpi",
        "--crop",
        "maybe",
        "--jpeg-quality",
        "300",
        "--despeckle",
        "abc",
        "--pages",
        "0",
    ]));
    assert_eq!(
        parsed.parse_error.unwrap(),
        "不明なオプションです: --bogus; --no-crop は値を取りません; --dpi に値がありません（期待: <NUMBER>）; \
--crop の値が不正です: maybe（期待: <on|off>）; --despeckle の値が不正です: abc（期待: <1.0..3.0>）; \
--jpeg-quality の値が不正です: 300（期待: <1..100>）; --pages の値が不正です: 0"
    );
}

#[test]
fn float_values_follow_std_grammar() {
    for ok in ["1", "1.", ".5", "+2e-3", "-0.25", "inf", "-Infinity", "NaN", "1E5"] {
        let parsed = parse_book_scan_args(&chars(&["in", "--margins", ok]));
        assert!(parsed.parse_error.is_none(), "{ok}");
        assert!(ok.parse::<f32>().is_ok());
    }
    for bad in [".", "e5", "1e", "1.2.3", " 1", "0x10", "1,5"] {
        let parsed = parse_book_scan_args(&chars(&["in", "--margins", bad]));
        assert!(parsed.parse_error.is_some(), "{bad}");
        assert!(bad.parse::<f32>().is_err());
    }
}

#[test]
fn book_scan_help_lists_every_option() {
    let text = book_scan_usage();
    assert!(text.starts_with("使用方法:\n  img2pdf book-scan"));
    assert!(text.contains("\nページ・作業:\n  --pages <N|START-END>"));
    assert!(text.contains("  --keep-work [on|off]                       成功後も中間画像を保持 [off]\n"));
    assert!(text.contains("  --no-max-performance                       最大性能モードを無効化\n"));
    assert!(text.ends_with("IMG2PDF_SCANTAILOR / IMG2PDF_REALESRGAN\n"));
}

#[test]
fn progress_line_has_a_thirty_column_bar() {
    assert_eq!(
        render_progress_line("画像処理", 5, 10),
        "  画像処理: [###############---------------]  50% (5/10)"
    );
    assert_eq!(render_progress_line("x", 0, 0), "  x: [------------------------------]   0% (0/0)");
    assert_eq!(render_progress_line("x", 7, 3), "  x: [##############################] 100% (7/3)");
}

#[test]
fn both_forms_of_a_valued_option_parse_alike() {
    let cases: [(&[&str], &[&str]); 3] = [
        (&["scans/vol1.pdf", "--dpi", "600", "--no-crop"], &["scans/vol1.pdf", "--dpi=600", "--no-crop"]),
        (&["in", "out.pdf", "--pages", "2-5", "--margins", "1.5"], &["in", "out.pdf", "--pages=2-5", "--margins", "1.5"]),
        (&["in", "--jpeg-sampling", "bogus", "--tile", "x"], &["in", "--jpeg-sampling=bogus", "--tile", "x"]),
    ];
    for (two, one) in cases {
        let a = parse_book_scan_args(&chars(two));
        let b = parse_book_scan_args(&chars(one));
        assert_eq!(a.output_path, b.output_path);
        assert_eq!(a.input_folder, b.input_folder);
        assert_eq!(a.parse_error, b.parse_error);
        assert_eq!(format!("{:?}", a.book_scan), format!("{:?}", b.book_scan));
        assert_eq!(format!("{:?}", a.real_options), format!("{:?}", b.real_options));
    }
}
