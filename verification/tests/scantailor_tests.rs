use img2pdf::config::BookScanConfig;
use img2pdf::scantailor::{
    configure_deskew, passthrough_pages, scantailor_arguments, scantailor_needed, scantailor_run, ScanTailorRun,
};
use img2pdf::superres::{
    active_indices, check_dimensions, gpu_assignments, needs_preprocessing, realesrgan_arguments,
};
use img2pdf::scheduler::PageLoad;

#[test]
fn auto_deskew_omits_broken_cli_switch() {
    assert_eq!(configure_deskew(true).len(), 0);
    assert_eq!(configure_deskew(false), vec!["--rotate=0", "--deskew=manual"]);
}

#[test]
fn scantailor_command_follows_the_settings() {
    let config = BookScanConfig::default();
    let args = scantailor_arguments(&config, "0", "1", "0.1", "w/book.ScanTailor", "w/in", "w/out");
    assert_eq!(
        args,
        vec![
            "--layout=1",
            "--rotate=0",
            "--deskew=manual",
            "--dpi=300",
            "--output-dpi=300",
            "--margins=0",
            "--alignment=original",
            "--match-layout=false",
            "--color-mode=color_grayscale",
            "--despeckle=1",
            "--dewarping=off",
            "--tiff-force-rgb",
            "--output-project=w/book.ScanTailor",
            "--enable-page-detection",
            "--enable-fine-tuning",
            "--page-detection-tolerance=0.1",
            "--normalize-illumination",
            "w/in",
            "w/out",
        ]
    );
    let plain = BookScanConfig {
        crop_enabled: false,
        normalize_illumination: false,
        deskew_enabled: true,
        dewarp_enabled: true,
        ..BookScanConfig::default()
    };
    let args = scantailor_arguments(&plain, "0", "1", "0.1", "p", "i", "o");
    assert!(args.contains(&"--dewarping=auto".to_string()));
    assert!(args.contains(&"--force-disable-page-detection".to_string()));
    assert!(!args.contains(&"--deskew=manual".to_string()));
    assert!(!args.contains(&"--normalize-illumination".to_string()));
}

#[test]
fn blank_and_cover_pages_skip_scantailor() {
    let config = BookScanConfig::default();
    let through = passthrough_pages(&config, &vec![false, true, false], &vec![1, 2, 3]);
    assert_eq!(through, vec![true, true, false]);
    assert!(scantailor_needed(&through));
    assert!(!scantailor_needed(&vec![true, true]));
    let off = BookScanConfig { scantailor_enabled: false, ..BookScanConfig::default() };
    assert_eq!(passthrough_pages(&off, &vec![false], &vec![5]), vec![true]);
}

#[test]
fn realesrgan_command_follows_the_settings() {
    let config = BookScanConfig { gpu_id: 1, tta_enabled: true, ..BookScanConfig::default() };
    assert_eq!(
        realesrgan_arguments("in", "out", "models", &config),
        vec![
            "-i", "in", "-o", "out", "-s", "2", "-n", "realesr-animevideov3", "-m", "models", "-j",
            "1:1:1", "-t", "0", "-f", "png", "-g", "1", "-x",
        ]
    );
    let auto_gpu = BookScanConfig::default();
    assert_eq!(realesrgan_arguments("a", "b", "m", &auto_gpu).len(), 16);
    assert!(needs_preprocessing(&auto_gpu));
}

#[test]
fn gpu_work_goes_to_non_blank_pages() {
    let active = active_indices(&vec![false, true, false, false]);
    assert_eq!(active, vec![0, 2, 3]);
    let loads = vec![
        PageLoad { index: 0, crop_width: 10, crop_height: 1 },
        PageLoad { index: 2, crop_width: 30, crop_height: 1 },
        PageLoad { index: 3, crop_width: 20, crop_height: 1 },
    ];
    assert_eq!(gpu_assignments(&loads, &active, 2), vec![vec![2], vec![0, 3]]);
}

#[test]
fn output_sizes_are_checked() {
    assert_eq!(check_dimensions("a.png", true, &Ok((10, 20)), 10, 20), Ok(()));
    assert_eq!(
        check_dimensions("a.png", false, &Ok((10, 20)), 10, 20),
        Err("出力がありません: a.png".to_string())
    );
    assert_eq!(
        check_dimensions("a.png", true, &Err("bad".to_string()), 10, 20),
        Err("出力画像をデコードできません: a.png: bad".to_string())
    );
    assert_eq!(
        check_dimensions("a.png", true, &Ok((11, 20)), 10, 20),
        Err("出力寸法が不一致です: a.png expected=10x20 actual=11x20".to_string())
    );
}

#[test]
fn scantailor_runs_only_when_enabled_and_needed() {
    assert_eq!(scantailor_run(false, &vec![false, false]), ScanTailorRun::Disabled);
    assert_eq!(scantailor_run(true, &vec![true, true]), ScanTailorRun::AllPassThrough);
    assert_eq!(scantailor_run(true, &vec![]), ScanTailorRun::AllPassThrough);
    assert_eq!(scantailor_run(true, &vec![true, false]), ScanTailorRun::Run);
    assert_eq!(ScanTailorRun::Disabled.project_file_name(), "scantailor-disabled.ScanTailor");
    assert_eq!(ScanTailorRun::AllPassThrough.project_file_name(), "all-pages-blank.ScanTailor");
    assert_eq!(ScanTailorRun::Run.project_file_name(), "book.ScanTailor");
}
