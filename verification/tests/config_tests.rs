use img2pdf::config::{
    BookScanConfig, JpegSampling, PageRange, PartialGrayscaleMode, SuperResolutionMode, ValidationFacts,
};

#[test]
fn parses_page_ranges() {
    assert_eq!(PageRange::parse("10-20").unwrap().len(), 11);
    assert_eq!(PageRange::parse("7").unwrap(), PageRange { start: 7, end: 7 });
    assert!(PageRange::parse("20-10").is_none());
    assert_eq!(
        PageRange::parse_list("1,10-12,158").unwrap(),
        vec![
            PageRange { start: 1, end: 1 },
            PageRange { start: 10, end: 12 },
            PageRange { start: 158, end: 158 }
        ]
    );
}

#[test]
fn parses_runtime_modes() {
    assert_eq!(SuperResolutionMode::parse("off"), Some(SuperResolutionMode::Off));
    assert_eq!(JpegSampling::parse("4:4:4"), Some(JpegSampling::S444));
    assert_eq!(PartialGrayscaleMode::parse("auto"), Some(PartialGrayscaleMode::Auto));
}

#[test]
fn default_ai_x2_keeps_original_output_resolution() {
    let config = BookScanConfig::default();
    assert_eq!(config.resolved_ai_scale(), 2);
    assert_eq!(config.effective_output_scale(), 1);
    assert!(config.tone_boost_enabled);
    assert_eq!(config.partial_grayscale, PartialGrayscaleMode::Off);
    assert!(config.grayscale_pages.is_empty());
    assert!(!config.stroke_enabled);
}

#[test]
fn whole_page_grayscale_requires_an_explicit_page() {
    let config = BookScanConfig {
        grayscale_pages: PageRange::parse_list("3,8-10").unwrap(),
        ..BookScanConfig::default()
    };
    assert!(!config.grayscale_page(2));
    assert!(config.grayscale_page(3));
    assert!(config.grayscale_page(9));
    assert!(!config.grayscale_page(11));
}

#[test]
fn legacy_auto_ai_scale_is_at_least_two() {
    let config = BookScanConfig {
        superres_output_scale: 1,
        superres_ai_scale: 0,
        ..BookScanConfig::default()
    };
    assert_eq!(config.resolved_ai_scale(), 2);
}

#[test]
fn legacy_auto_ai_scale_follows_a_larger_output_scale() {
    let config = BookScanConfig {
        superres_output_scale: 3,
        superres_ai_scale: 0,
        ..BookScanConfig::default()
    };
    assert_eq!(config.resolved_ai_scale(), 3);
}

#[test]
fn page_range_text_round_trips() {
    let ranges = vec![
        PageRange { start: 1, end: 1 },
        PageRange { start: 10, end: 12 },
        PageRange { start: 158, end: 158 },
    ];
    let text = PageRange::format_list(&ranges);
    assert_eq!(text, "1,10-12,158");
    assert_eq!(PageRange::parse_list(&text).unwrap(), ranges);
}

#[test]
fn page_lists_reject_zero_reversed_and_empty_items() {
    assert!(PageRange::parse_list("0").is_none());
    assert!(PageRange::parse_list("5-3").is_none());
    assert!(PageRange::parse_list("1,,2").is_none());
    assert_eq!(PageRange::parse_list("  ").unwrap(), vec![]);
    assert_eq!(PageRange::parse_list(" 2 , 4-5 ").unwrap(), vec![
        PageRange { start: 2, end: 2 },
        PageRange { start: 4, end: 5 },
    ]);
}

#[test]
fn exclusions_follow_their_lists() {
    let config = BookScanConfig::default();
    assert!(config.crop_excluded(1));
    assert!(!config.crop_excluded(2));
    assert!(config.tone_excluded(1));
    assert!(config.ink_neutralization_excluded(1));
    assert!(!config.grayscale_page(1));
}

fn all_facts() -> ValidationFacts {
    ValidationFacts {
        input_exists: true,
        blank_ratios_in_range: true,
        despeckle_in_range: true,
        page_detection_tolerance_in_range: true,
        tone_thresholds_in_range: true,
    }
}

#[test]
fn default_preset_validates() {
    let config = BookScanConfig {
        input_path: "book.pdf".to_string(),
        output_pdf: "out.pdf".to_string(),
        ..BookScanConfig::default()
    };
    assert_eq!(config.validate(&all_facts()), Ok(()));
}

#[test]
fn validation_reports_each_problem() {
    let base = BookScanConfig {
        input_path: "book.pdf".to_string(),
        output_pdf: "out.pdf".to_string(),
        ..BookScanConfig::default()
    };
    let missing = ValidationFacts { input_exists: false, ..all_facts() };
    assert_eq!(base.validate(&missing), Err("入力が見つかりません: book.pdf".to_string()));
    let no_output = BookScanConfig { output_pdf: String::new(), ..base.clone() };
    assert_eq!(no_output.validate(&all_facts()), Err("出力PDFを指定してください".to_string()));
    let zero_dpi = BookScanConfig { dpi: 0, ..base.clone() };
    assert_eq!(zero_dpi.validate(&all_facts()), Err("DPIには1以上を指定してください".to_string()));
    let big_scale = BookScanConfig { superres_output_scale: 5, ..base.clone() };
    assert_eq!(
        big_scale.validate(&all_facts()),
        Err("最終画像倍率には1–4を指定してください".to_string())
    );
    let ai_below_output = BookScanConfig { superres_output_scale: 3, superres_ai_scale: 2, ..base.clone() };
    assert_eq!(
        ai_below_output.validate(&all_facts()),
        Err("AI推論倍率は最終画像倍率以上を指定してください".to_string())
    );
    let quality = BookScanConfig { jpeg_quality: 0, ..base.clone() };
    assert_eq!(quality.validate(&all_facts()), Err("JPEG品質には1–100を指定してください".to_string()));
    let radius = BookScanConfig { color_normalization_radius: 300, ..base.clone() };
    assert_eq!(
        radius.validate(&all_facts()),
        Err("カラー紙面補正の半径には1–256を指定してください".to_string())
    );
    let crop_without_scantailor = BookScanConfig { scantailor_enabled: false, ..base.clone() };
    assert_eq!(
        crop_without_scantailor.validate(&all_facts()),
        Err("ScanTailorをOFFにする場合はcrop/normalize/deskew/dewarpもOFFにしてください".to_string())
    );
    let despeckle = ValidationFacts { despeckle_in_range: false, ..all_facts() };
    assert_eq!(base.validate(&despeckle), Err("despeckleには1.0–3.0を指定してください".to_string()));
}
