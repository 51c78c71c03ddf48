use img2pdf::config::{BookScanConfig, PageRange};
use img2pdf::pipeline::{
    intermediate_folders, is_supported_extension, natural_key, natural_key_of_name, output_image_candidates,
    page_count_mismatch, page_stem_for, select_pages, source_file_name_for, stage_update, units_update,
    configs_match_for_resume, PageSource, TOTAL_STAGES,
};
use img2pdf::tools::{is_windows_executable, is_windows_executable_extension};

#[test]
fn progress_messages_count_units() {
    let p = units_update(3, "超解像", 5, 20).unwrap();
    assert_eq!(p.stage, 3);
    assert_eq!(p.total_stages, TOTAL_STAGES);
    assert_eq!(p.message, "超解像: 5/20 (25%)");
    assert_eq!(p.completed, Some(5));
    assert!(units_update(3, "x", 0, 0).is_none());
    let huge = units_update(4, "x", usize::MAX, usize::MAX).unwrap();
    assert_eq!(huge.message, format!("x: {}/{} (1%)", usize::MAX, usize::MAX));
    let s = stage_update(2, "ScanTailor前処理を実行します");
    assert_eq!((s.stage, s.total_stages, s.completed, s.total), (2, 5, None, None));
}

#[test]
fn page_selection_checks_the_range() {
    assert_eq!(select_pages(None, 12, PageSource::Pdf), Ok(PageRange { start: 1, end: 12 }));
    assert_eq!(
        select_pages(Some(PageRange { start: 3, end: 5 }), 12, PageSource::ImageFolder),
        Ok(PageRange { start: 3, end: 5 })
    );
    assert_eq!(
        select_pages(Some(PageRange { start: 3, end: 15 }), 12, PageSource::ImageFolder),
        Err("ページ範囲3-15が画像数12を超えています".to_string())
    );
    assert_eq!(
        select_pages(Some(PageRange { start: 3, end: 15 }), 12, PageSource::Pdf),
        Err("ページ範囲3-15がPDFページ数12を超えています".to_string())
    );
    assert_eq!(page_count_mismatch(4, 3), "抽出ページ数が不一致です: expected=4 actual=3");
}

#[test]
fn pages_are_named_by_number() {
    assert_eq!(page_stem_for(7), "p0007");
    assert_eq!(page_stem_for(12345), "p12345");
    assert_eq!(source_file_name_for("p0007", &Some("JPG".to_string())), "p0007.jpg");
    assert_eq!(source_file_name_for("p0007", &None), "p0007.png");
    assert_eq!(
        output_image_candidates("p0001"),
        vec!["p0001.tif", "p0001.tiff", "p0001.png", "p0001.jpg", "p0001.jpeg"]
    );
    assert_eq!(intermediate_folders().len(), 8);
}

#[test]
fn natural_keys_order_by_number_then_name() {
    assert_eq!(natural_key_of_name("Page12.JPG"), (12, "page12.jpg".to_string()));
    assert_eq!(natural_key_of_name("cover.png"), (0, "cover.png".to_string()));
    assert_eq!(natural_key_of_name("a1b2"), (12, "a1b2".to_string()));
    assert_eq!(natural_key_of_name("99999999999999999999.png").0, 0);
    assert_eq!(natural_key("scans/img2.tif"), (2, "img2.tif".to_string()));
    let mut names = vec!["p10.png", "p2.png", "p1.png"];
    names.sort_by_key(|n| natural_key_of_name(n));
    assert_eq!(names, vec!["p1.png", "p2.png", "p10.png"]);
}

#[test]
fn supported_images_are_jpeg_png_and_tiff() {
    for e in ["jpg", "JPEG", "png", "tif", "TIFF"] {
        assert!(is_supported_extension(e));
    }
    assert!(!is_supported_extension("gif"));
    assert!(img2pdf::pipeline::is_supported_image("a/b.Png"));
    assert!(!img2pdf::pipeline::is_supported_image("a/b"));
}

#[test]
fn exe_files_need_interop_only_off_windows() {
    assert!(is_windows_executable_extension(&Some("EXE".to_string()), false));
    assert!(!is_windows_executable_extension(&Some("exe".to_string()), true));
    assert!(!is_windows_executable_extension(&None, false));
    assert!(is_windows_executable("tools/x.exe", false));
    assert!(!is_windows_executable("tools/x", false));
}

#[test]
fn resume_ignores_resume_and_keep_work() {
    let saved = BookScanConfig::default();
    let requested = BookScanConfig { resume: true, keep_work: true, ..BookScanConfig::default() };
    assert!(configs_match_for_resume(&saved, &requested));
}

#[test]
fn resume_refuses_other_work() {
    let saved = BookScanConfig::default();
    let other_pages = BookScanConfig {
        pages: Some(PageRange { start: 2, end: 4 }),
        ..BookScanConfig::default()
    };
    assert!(!configs_match_for_resume(&saved, &other_pages));
    let other_dir = BookScanConfig { work_dir: Some("w".to_string()), ..BookScanConfig::default() };
    assert!(!configs_match_for_resume(&saved, &other_dir));
    let other_gray = BookScanConfig {
        grayscale_pages: vec![PageRange { start: 1, end: 1 }],
        ..BookScanConfig::default()
    };
    assert!(!configs_match_for_resume(&saved, &other_gray));
    let other_quality = BookScanConfig { jpeg_quality: 50, ..BookScanConfig::default() };
    assert!(!configs_match_for_resume(&saved, &other_quality));
}
