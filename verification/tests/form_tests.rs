use img2pdf::config::{JpegSampling, PageRange, PartialGrayscaleMode, SuperResolutionMode};
use img2pdf::form::{form_problem_of, settings_from_form, BookScanForm};

fn filled() -> BookScanForm {
    BookScanForm {
        input_path: " /books/in.pdf ".to_string(),
        output_path: "/books/out.pdf".to_string(),
        work_dir: "  ".to_string(),
        pages: "".to_string(),
        blank_detection: true,
        blank_dark_delta: "25".to_string(),
        blank_max_dark: "0.0005".to_string(),
        blank_edge_threshold: "12".to_string(),
        blank_max_edge: " 0.0005 ".to_string(),
        scantailor_enabled: true,
        crop_enabled: true,
        crop_exclude_pages: "1".to_string(),
        normalize: true,
        color_normalize: true,
        color_normalize_strength: "100".to_string(),
        color_normalize_radius: "40".to_string(),
        ink_neutralize: false,
        ink_neutralize_strength: "100".to_string(),
        ink_neutralize_exclude_pages: "1".to_string(),
        deskew: false,
        dewarp: false,
        margins: "0".to_string(),
        dpi: "300".to_string(),
        output_dpi: "300".to_string(),
        despeckle: "1".to_string(),
        tolerance: "0.1".to_string(),
        superres: 1,
        output_scale: "1".to_string(),
        ai_scale: "2".to_string(),
        model: "realesr-animevideov3".to_string(),
        gpu_workers: "4".to_string(),
        cpu_workers: "2".to_string(),
        tile: "0".to_string(),
        gpu_id: "-1".to_string(),
        tta: false,
        stroke_enabled: false,
        stroke_strength: "15".to_string(),
        tone_boost: true,
        tone_boost_strength: "100".to_string(),
        tone_global_threshold: "0.01".to_string(),
        tone_tile_threshold: "0.3".to_string(),
        tone_exclude_pages: "1".to_string(),
        grayscale_pages: "".to_string(),
        pre_stroke: false,
        pre_stroke_strength: "5".to_string(),
        jpeg_quality: "90".to_string(),
        sampling: 0,
        preserve_position: true,
        scantailor_path: "".to_string(),
        realesrgan_path: " /opt/re/realesrgan ".to_string(),
        model_dir: "".to_string(),
        resume: true,
        keep_work: false,
    }
}

#[test]
fn filled_form_reads_into_settings() {
    let s = settings_from_form(&filled()).unwrap();
    let c = s.config;
    assert_eq!(c.input_path, "/books/in.pdf");
    assert_eq!(c.work_dir, None);
    assert_eq!(c.pages, None);
    assert_eq!(c.gpu_id, -1);
    assert_eq!(c.crop_exclude_pages, vec![PageRange { start: 1, end: 1 }]);
    assert_eq!(c.super_resolution, SuperResolutionMode::Anime);
    assert_eq!(c.jpeg_sampling, JpegSampling::S444);
    assert_eq!(c.partial_grayscale, PartialGrayscaleMode::Off);
    assert_eq!(c.realesrgan_path.as_deref(), Some("/opt/re/realesrgan"));
    assert_eq!(s.reals.blank_max_edge_ratio.as_deref(), Some("0.0005"));
    assert_eq!(s.reals.tone_color_tile_threshold.as_deref(), Some("0.3"));
}

#[test]
fn switches_under_scantailor_follow_it() {
    let mut form = filled();
    form.scantailor_enabled = false;
    form.deskew = true;
    let c = settings_from_form(&form).unwrap().config;
    assert!(!c.crop_enabled && !c.normalize_illumination && !c.deskew_enabled);
}

#[test]
fn superres_off_forces_output_scale_one() {
    let mut form = filled();
    form.superres = 0;
    form.output_scale = "3".to_string();
    form.sampling = 2;
    let c = settings_from_form(&form).unwrap().config;
    assert_eq!(c.super_resolution, SuperResolutionMode::Off);
    assert_eq!(c.superres_output_scale, 1);
    assert_eq!(c.jpeg_sampling, JpegSampling::S420);
}

#[test]
fn missing_paths_are_reported_first() {
    let mut form = filled();
    form.output_path = "   ".to_string();
    form.dpi = "x".to_string();
    assert_eq!(settings_from_form(&form).unwrap_err(), "入力と出力PDFを指定してください");
}

#[test]
fn first_bad_field_is_reported() {
    let mut form = filled();
    form.dpi = "three hundred".to_string();
    form.jpeg_quality = "900".to_string();
    assert_eq!(settings_from_form(&form).unwrap_err(), "入力DPIの値が不正です: three hundred");
    form.dpi = "300".to_string();
    assert_eq!(form_problem_of(&form), Some("JPEG品質の値が不正です: 900".to_string()));
}

#[test]
fn page_fields_have_their_own_complaints() {
    let mut form = filled();
    form.pages = "5-2".to_string();
    assert_eq!(settings_from_form(&form).unwrap_err(), "ページ範囲が不正です");
    form.pages = "2-5".to_string();
    form.grayscale_pages = "1,x".to_string();
    assert_eq!(settings_from_form(&form).unwrap_err(), "全体gray指定ページが不正です");
    form.grayscale_pages = "3, 7-9".to_string();
    let c = settings_from_form(&form).unwrap().config;
    assert_eq!(c.pages, Some(PageRange { start: 2, end: 5 }));
    assert_eq!(c.grayscale_pages, vec![PageRange { start: 3, end: 3 }, PageRange { start: 7, end: 9 }]);
}

#[test]
fn real_fields_must_be_numbers() {
    let mut form = filled();
    form.despeckle = "1.5x".to_string();
    assert_eq!(settings_from_form(&form).unwrap_err(), "despeckleの値が不正です: 1.5x");
    form.despeckle = " 1e0 ".to_string();
    assert_eq!(settings_from_form(&form).unwrap().reals.despeckle.as_deref(), Some("1e0"));
}
