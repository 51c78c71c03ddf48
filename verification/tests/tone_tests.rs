use img2pdf::config::PartialGrayscaleMode;
use img2pdf::tone::{is_colored, luminance, should_apply_gray, PageTone};

#[test]
fn force_gray_still_respects_manual_exclusion() {
    assert!(!should_apply_gray(
        PartialGrayscaleMode::Force,
        PageTone { monochrome: false, excluded: true }
    ));
}

#[test]
fn gray_follows_the_mode() {
    let mono = PageTone { monochrome: true, excluded: false };
    let color = PageTone { monochrome: false, excluded: false };
    assert!(should_apply_gray(PartialGrayscaleMode::Auto, mono));
    assert!(!should_apply_gray(PartialGrayscaleMode::Auto, color));
    assert!(should_apply_gray(PartialGrayscaleMode::Force, color));
    assert!(!should_apply_gray(PartialGrayscaleMode::Off, mono));
    assert_eq!(PageTone::default(), PageTone { monochrome: false, excluded: false });
}

#[test]
fn luminance_weights_green_most() {
    assert_eq!(luminance([255, 255, 255]), 255);
    assert_eq!(luminance([0, 0, 0]), 0);
    assert_eq!(luminance([255, 0, 0]), 54);
    assert_eq!(luminance([0, 255, 0]), 182);
    assert_eq!(luminance([30, 90, 210]), 86);
}

#[test]
fn colour_needs_spread_and_darkness() {
    assert!(is_colored([30, 90, 210]));
    assert!(!is_colored([250, 250, 250]));
    assert!(!is_colored([100, 110, 105]));
    assert!(!is_colored([255, 240, 250]));
}
