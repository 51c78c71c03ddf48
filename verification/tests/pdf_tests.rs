use img2pdf::pdf::{jpeg_components, write_pdf_bytes, DirectPdfWriter, PdfPageSource, PdfStream};
use std::io::Cursor;

fn jpeg_rgb(width: u32, height: u32) -> Vec<u8> {
    let mut bytes = Vec::new();
    image::RgbImage::from_pixel(width, height, image::Rgb([255, 255, 255]))
        .write_to(&mut Cursor::new(&mut bytes), image::ImageFormat::Jpeg)
        .unwrap();
    bytes
}

fn jpeg_gray(width: u32, height: u32) -> Vec<u8> {
    let mut bytes = Vec::new();
    image::GrayImage::from_pixel(width, height, image::Luma([180]))
        .write_to(&mut Cursor::new(&mut bytes), image::ImageFormat::Jpeg)
        .unwrap();
    bytes
}

fn page(stem: &str, jpeg: Vec<u8>) -> PdfPageSource {
    PdfPageSource {
        stem: stem.to_string(),
        jpeg: Some(Ok(jpeg)),
        jpeg_name: format!("{stem}.jpg"),
        dimensions: Ok((8, 8)),
        source_width: 1654,
        source_height: 2339,
        crop_width: 1200,
        crop_height: 1900,
        content: "q\n1 0 0 1 0 0 cm\n/Im0 Do\nQ\n".to_string(),
    }
}

fn contains(bytes: &[u8], part: &[u8]) -> bool {
    bytes.windows(part.len()).any(|w| w == part)
}

#[test]
fn blank_page_keeps_an_embedded_image() {
    let bytes = write_pdf_bytes(&vec![page("p0010", jpeg_rgb(8, 8))], true).unwrap();
    assert!(contains(&bytes, b"/DCTDecode"));
    assert!(contains(&bytes, b"/Count 1"));
    assert!(contains(&bytes, b"/DeviceRGB"));
}

#[test]
fn grayscale_jpeg_uses_device_gray() {
    let bytes = write_pdf_bytes(&vec![page("p0011", jpeg_gray(8, 8))], true).unwrap();
    assert!(contains(&bytes, b"/DeviceGray"));
}

#[test]
fn jpeg_components_reads_the_header() {
    assert_eq!(jpeg_components(&jpeg_rgb(4, 4)), Ok(3));
    assert_eq!(jpeg_components(&jpeg_gray(4, 4)), Ok(1));
    assert!(jpeg_components(b"not a jpeg").is_err());
}

fn parse_xref(bytes: &[u8]) -> Vec<usize> {
    let text = String::from_utf8_lossy(bytes);
    let start: usize = text.trim_end().lines().rev().nth(1).unwrap().parse().unwrap();
    let table = String::from_utf8_lossy(&bytes[start..]);
    let mut lines = table.lines();
    assert_eq!(lines.next(), Some("xref"));
    let count: usize = lines.next().unwrap()["0 ".len()..].parse().unwrap();
    assert_eq!(lines.next(), Some("0000000000 65535 f "));
    (1..count).map(|_| lines.next().unwrap()[..10].parse().unwrap()).collect()
}

#[test]
fn every_xref_entry_points_at_its_object() {
    let pages = vec![page("p0001", jpeg_rgb(8, 8)), page("p0002", jpeg_gray(8, 8))];
    let bytes = write_pdf_bytes(&pages, false).unwrap();
    assert!(bytes.starts_with(b"%PDF-1.7\n%\x80\x80\x80\x80\n"));
    assert!(bytes.ends_with(b"%%EOF\n"));
    let offsets = parse_xref(&bytes);
    assert_eq!(offsets.len(), 8);
    for (i, offset) in offsets.iter().enumerate() {
        let header = format!("{} 0 obj\n", i + 1);
        assert!(bytes[*offset..].starts_with(header.as_bytes()), "object {}", i + 1);
    }
    assert!(contains(&bytes, b"/Kids [ 3 0 R 6 0 R ]"));
}

#[test]
fn page_errors_come_in_order() {
    assert_eq!(write_pdf_bytes(&vec![], true), Err("PDFへ書き出すページがありません".to_string()));
    let mut missing = page("p0003", vec![]);
    missing.jpeg = None;
    assert_eq!(write_pdf_bytes(&vec![missing], true), Err("p0003のJPEGがありません".to_string()));
    let mut unreadable = page("p0004", vec![]);
    unreadable.jpeg = Some(Err("denied".to_string()));
    assert_eq!(write_pdf_bytes(&vec![unreadable], true), Err("p0004.jpgを読めません: denied".to_string()));
    let mut no_size = page("p0005", jpeg_rgb(8, 8));
    no_size.dimensions = Err("broken".to_string());
    assert_eq!(write_pdf_bytes(&vec![no_size], true), Err("JPEG寸法を読めません: broken".to_string()));
    let mut zero_source = page("p0006", jpeg_rgb(8, 8));
    zero_source.source_width = 0;
    assert_eq!(
        write_pdf_bytes(&vec![zero_source], true),
        Err("p0006の元キャンバス寸法が0です".to_string())
    );
    let mut zero_crop = page("p0007", jpeg_rgb(8, 8));
    zero_crop.crop_height = 0;
    assert!(write_pdf_bytes(&vec![page("p0007", jpeg_rgb(8, 8))], false).is_ok());
    assert_eq!(write_pdf_bytes(&vec![zero_crop], false), Err("p0007のcrop寸法が0です".to_string()));
}

#[test]
fn objects_must_be_numbered_in_order() {
    let mut writer = DirectPdfWriter::new();
    assert_eq!(
        writer.write_object(2, b"x"),
        Err("PDF object IDが連続していません: 2".to_string())
    );
    assert!(writer.write_object(1, b"<< >>\n").is_ok());
    let bytes = writer.finish();
    let text = String::from_utf8_lossy(&bytes);
    assert!(text.contains("1 0 obj\n<< >>\nendobj\nxref\n0 2\n0000000000 65535 f \n0000000015 00000 n \ntrailer\n<< /Size 2 /Root 1 0 R >>\nstartxref\n36\n%%EOF\n"));
}

#[test]
fn a4_media_box_matches_the_page_size_in_points() {
    let bytes = write_pdf_bytes(&vec![page("p0008", jpeg_rgb(8, 8))], true).unwrap();
    let media = format!("/MediaBox [0 0 {:.4} {:.4}]", 595.275_6f32, 841.889_8f32);
    assert!(contains(&bytes, media.as_bytes()));
}

#[test]
fn streamed_pdf_is_the_same_file() {
    let pages = vec![page("p0001", jpeg_rgb(8, 8)), page("p0002", jpeg_gray(8, 8)), page("p0003", jpeg_rgb(4, 6))];
    let whole = write_pdf_bytes(&pages, true).unwrap();
    let (mut stream, mut streamed) = PdfStream::start(pages.len(), true).unwrap();
    for p in &pages {
        streamed.extend(stream.add_page(p).unwrap());
    }
    streamed.extend(stream.finish());
    assert_eq!(streamed, whole);
    assert!(PdfStream::start(0, true).is_err());
}

#[test]
fn streamed_pdf_stops_at_a_bad_page() {
    let (mut stream, _) = PdfStream::start(2, true).unwrap();
    let mut missing = page("p0003", jpeg_rgb(8, 8));
    missing.jpeg = None;
    assert_eq!(stream.add_page(&missing), Err("p0003のJPEGがありません".to_string()));
}
