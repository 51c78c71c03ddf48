use img2pdf::blank::{measure_luma, measure_page_bytes, percentile, BlankCounts};
use img2pdf::config::{default_blank_dark_delta, default_blank_edge_threshold};

fn counts_of(width: u32, height: u32, pixels: Vec<u8>) -> BlankCounts {
    measure_luma(width, height, pixels, default_blank_dark_delta(), default_blank_edge_threshold())
}

fn is_blank(c: BlankCounts) -> bool {
    let max_ratio = 0.0005f32;
    c.dark as f32 / c.total as f32 <= max_ratio && c.edge as f32 / c.total as f32 <= max_ratio
}

#[test]
fn uniform_paper_is_blank_but_content_is_not() {
    let blank = counts_of(512, 512, vec![238; 512 * 512]);
    assert_eq!(blank.background_level, 238);
    assert_eq!((blank.dark, blank.edge), (0, 0));
    assert!(is_blank(blank));

    let mut content = vec![245u8; 512 * 512];
    for y in 220..250 {
        for x in 100..412 {
            content[y * 512 + x] = 30;
        }
    }
    let measured = counts_of(512, 512, content);
    assert!(measured.dark > 0);
    assert!(measured.edge > 0);
    assert!(!is_blank(measured));
}

#[test]
fn measured_area_excludes_the_border() {
    let c = counts_of(256, 256, vec![200; 256 * 256]);
    assert_eq!(c.total, 230 * 230);
}

#[test]
fn percentile_finds_first_value_reaching_target() {
    let mut histogram = [0u32; 256];
    histogram[10] = 5;
    histogram[200] = 95;
    assert_eq!(percentile(&histogram, 100, 90), 200);
    assert_eq!(percentile(&histogram, 100, 5), 10);
    assert_eq!(percentile(&[0u32; 256], 100, 90), 255);
}

#[test]
fn page_bytes_are_decoded_then_measured() {
    let pixels: Vec<u8> = (0..64u32).map(|i| if i % 9 == 0 { 20 } else { 240 }).collect();
    let image = image::GrayImage::from_raw(8, 8, pixels.clone()).unwrap();
    let mut png = Vec::new();
    image::DynamicImage::ImageLuma8(image)
        .write_to(&mut std::io::Cursor::new(&mut png), image::ImageFormat::Png)
        .unwrap();
    let from_bytes =
        measure_page_bytes("p.png", Some("png"), &png, default_blank_dark_delta(), default_blank_edge_threshold())
            .unwrap();
    assert!(measure_page_bytes("p.jpg", Some("jpg"), &png, 20, 40).is_err());
    assert!(measure_page_bytes("p.xyz", Some("xyz"), &png, 20, 40).is_err());
    assert!(measure_page_bytes("p", None, &png, 20, 40).is_err());
    assert_eq!(from_bytes, measure_luma(8, 8, pixels, default_blank_dark_delta(), default_blank_edge_threshold()));
}

#[test]
fn undecodable_page_bytes_are_reported() {
    let err = measure_page_bytes("p.png", Some("png"), b"not an image", 20, 40).unwrap_err();
    assert!(err.starts_with("p.pngを空白判定用に開けません: "), "{err}");
}
