use img2pdf::config::{BookScanConfig, PageRange, SuperResolutionMode};
use img2pdf::paths::get_config_file_path;
use img2pdf::stages::{
    blank_page_count, crop_pages_valid, encoded_pages_valid, extracted_pages_valid, extraction_notice,
    grayscale_notice, plan_after, plan_start, processed_pages_valid, BookScanStage, NextWork, RunStart,
    SavedRun, StoredPage,
};

fn page(stage: BookScanStage) -> StoredPage {
    StoredPage {
        stage,
        is_blank: false,
        source_width: 100,
        source_height: 140,
        crop_width: 80,
        crop_height: 120,
        source_found: Some((100, 140)),
        crop_found: Some((80, 120)),
        has_processed_path: true,
        processed_found: Some((160, 240)),
        jpeg_found: Some((160, 240)),
    }
}

fn x2() -> BookScanConfig {
    BookScanConfig {
        super_resolution: SuperResolutionMode::Anime,
        superres_output_scale: 2,
        superres_ai_scale: 0,
        gpu_workers: 1,
        ..BookScanConfig::default()
    }
}

#[test]
fn stages_are_ordered() {
    assert!(BookScanStage::Encoded.reached(BookScanStage::ScanTailored));
    assert!(BookScanStage::Upscaled.reached(BookScanStage::Upscaled));
    assert!(!BookScanStage::Extracted.reached(BookScanStage::ScanTailored));
}

#[test]
fn reuse_checks_go_stage_by_stage() {
    let config = x2();
    let pages = vec![page(BookScanStage::Upscaled)];
    assert!(extracted_pages_valid(&pages));
    assert!(crop_pages_valid(&pages));
    assert!(processed_pages_valid(&config, &pages));
    assert!(!encoded_pages_valid(&config, &pages));
    assert!(!extracted_pages_valid(&vec![]));
}

#[test]
fn wrong_sizes_are_not_reused() {
    let config = x2();
    let mut p = page(BookScanStage::Encoded);
    p.processed_found = Some((80, 120));
    assert!(crop_pages_valid(&vec![p]));
    assert!(!processed_pages_valid(&config, &vec![p]));
    p.source_found = None;
    assert!(!extracted_pages_valid(&vec![p]));
}

#[test]
fn blank_pages_have_no_processed_image() {
    let config = x2();
    let mut p = page(BookScanStage::Encoded);
    p.is_blank = true;
    p.has_processed_path = false;
    p.processed_found = None;
    p.jpeg_found = Some((100, 140));
    assert!(encoded_pages_valid(&config, &vec![p]));
    p.has_processed_path = true;
    assert!(!processed_pages_valid(&config, &vec![p]));
}

#[test]
fn plan_announces_each_stage() {
    let config = x2();
    let pages = vec![page(BookScanStage::ScanTailored)];
    let crop = plan_after(&config, BookScanStage::Extracted, &pages);
    assert_eq!((crop.work, crop.reuse), (NextWork::ScanTailor, true));
    assert_eq!(crop.progress.message, "ScanTailor出力を再利用します");
    let up = plan_after(&config, BookScanStage::ScanTailored, &pages);
    assert_eq!((up.work, up.reuse, up.progress.stage), (NextWork::SuperResolution, false, 3));
    assert_eq!(up.progress.message, "Anime AI x2 → 出力x2（GPU worker 1）");
    let off_config = BookScanConfig { super_resolution: SuperResolutionMode::Off, ..BookScanConfig::default() };
    let off = plan_after(&off_config, BookScanStage::ScanTailored, &pages);
    assert_eq!(off.progress.message, "超解像はOFFです");
    let enc = plan_after(&config, BookScanStage::Upscaled, &pages);
    assert_eq!(enc.progress.message, "階調・文字色・太さ調整とJPEG化を実行します");
    let pdf = plan_after(&config, BookScanStage::Encoded, &pages);
    assert_eq!((pdf.work, pdf.reuse, pdf.progress.stage), (NextWork::WritePdf, false, 5));
    assert_eq!(pdf.progress.message, "A4 PDFへ書き出します");
}

#[test]
fn start_decides_on_the_saved_run() {
    let saved = Some(SavedRun {
        config_matches: true,
        completed: true,
        pages: vec![page(BookScanStage::PdfWritten)],
    });
    let (start, p) = plan_start(true, &saved, true);
    assert_eq!(start, RunStart::AlreadyDone);
    assert_eq!((p.stage, p.completed, p.total), (5, Some(1), Some(1)));
    assert_eq!(plan_start(true, &saved, false).0, RunStart::ReuseExtracted);
    assert_eq!(plan_start(false, &saved, true).0, RunStart::Extract);
    let (start, p) = plan_start(true, &None, true);
    assert_eq!(start, RunStart::Extract);
    assert_eq!(p.message, "入力ページを抽出して空白を判定します");
}

#[test]
fn notices_and_counts() {
    let mut blank = page(BookScanStage::Extracted);
    blank.is_blank = true;
    assert_eq!(blank_page_count(&vec![blank, page(BookScanStage::Extracted), blank]), 2);
    assert_eq!(extraction_notice(true, 3).unwrap().message, "入力抽出完了（空白3ページ）");
    assert!(extraction_notice(false, 3).is_none());
    let ranges = vec![PageRange { start: 1, end: 1 }, PageRange { start: 4, end: 6 }];
    assert_eq!(grayscale_notice(&ranges).unwrap().message, "指定ページ [1,4-6] を1成分Gray化");
    assert!(grayscale_notice(&vec![]).is_none());
}

#[test]
fn config_file_sits_in_the_config_folder() {
    assert_eq!(get_config_file_path("/home/u/.config/img2pdf", "config.json"), "/home/u/.config/img2pdf/config.json");
}
