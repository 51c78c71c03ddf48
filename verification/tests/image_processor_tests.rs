use img2pdf::image_processor::{
    color_space_for, encode_page_jpeg, no_pages_result, pdf_object_ids, pdf_run_result, split_results, ImageProcessor,
    PdfColorSpace,
};
use img2pdf::models::ProcessingError;
use std::io::Cursor;

fn jpeg_rgb(width: u32, height: u32) -> Vec<u8> {
    let mut bytes = Vec::new();
    image::RgbImage::from_pixel(width, height, image::Rgb([20, 200, 90]))
        .write_to(&mut Cursor::new(&mut bytes), image::ImageFormat::Jpeg)
        .unwrap();
    bytes
}

fn jpeg_gray(width: u32, height: u32) -> Vec<u8> {
    let mut bytes = Vec::new();
    image::GrayImage::from_pixel(width, height, image::Luma([120]))
        .write_to(&mut Cursor::new(&mut bytes), image::ImageFormat::Jpeg)
        .unwrap();
    bytes
}

fn error(file: &str, message: &str) -> ProcessingError {
    ProcessingError { file_path: file.to_string(), message: message.to_string() }
}

#[test]
fn jpeg_dimensions_reads_size_and_components() {
    let rgb = Ok(jpeg_rgb(37, 21));
    assert_eq!(ImageProcessor::jpeg_dimensions("a.jpg", &rgb).unwrap(), (37, 21, 3));
    let gray = Ok(jpeg_gray(5, 9));
    assert_eq!(ImageProcessor::jpeg_dimensions("b.jpg", &gray).unwrap(), (5, 9, 1));
}

#[test]
fn jpeg_dimensions_reports_read_failure() {
    let read: Result<Vec<u8>, String> = Err("no such file".to_string());
    let err = ImageProcessor::jpeg_dimensions("missing.jpg", &read).unwrap_err();
    assert_eq!(err.file_path, "missing.jpg");
    assert_eq!(err.message, "Failed to read file: no such file");
}

#[test]
fn jpeg_dimensions_reports_bad_header() {
    let read: Result<Vec<u8>, String> = Ok(b"not a jpeg at all".to_vec());
    let err = ImageProcessor::jpeg_dimensions("bad.jpg", &read).unwrap_err();
    assert_eq!(err.file_path, "bad.jpg");
    assert!(err.message.starts_with("zune-jpeg"), "{}", err.message);
}

#[test]
fn lossless_page_keeps_the_bytes() {
    let bytes = jpeg_rgb(16, 8);
    let page = ImageProcessor::process_jpeg_lossless("p.jpg", Ok(bytes.clone())).unwrap();
    assert_eq!(page.data, bytes);
    assert_eq!((page.width, page.height, page.components), (16, 8, 3));
}

#[test]
fn object_ids_follow_pages_images_contents() {
    assert_eq!(pdf_object_ids(1, 0), (3, 4, 5));
    assert_eq!(pdf_object_ids(4, 2), (5, 9, 13));
}

#[test]
fn color_space_by_components() {
    assert_eq!(color_space_for(1), PdfColorSpace::DeviceGray);
    assert_eq!(color_space_for(3), PdfColorSpace::DeviceRgb);
    assert_eq!(color_space_for(4), PdfColorSpace::DeviceCmyk);
    assert_eq!(color_space_for(2), PdfColorSpace::DeviceRgb);
}

#[test]
fn split_keeps_order_of_pages_and_errors() {
    let results = vec![Ok(1), Err(error("b", "x")), Ok(3), Err(error("d", "y"))];
    let (pages, errors) = split_results(results);
    assert_eq!(pages, vec![1, 3]);
    assert_eq!(errors.len(), 2);
    assert_eq!(errors[0].file_path, "b");
    assert_eq!(errors[1].file_path, "d");
}

#[test]
fn run_without_pages_fails() {
    let r = no_pages_result(vec![error("a", "bad")], "out.pdf".to_string());
    assert!(!r.success);
    assert_eq!((r.success_count, r.error_count), (0, 1));
    assert_eq!(r.output_path, "out.pdf");
}

#[test]
fn run_result_records_pdf_failure() {
    let ok = pdf_run_result(3, vec![error("a", "bad")], "o.pdf".to_string(), Ok(()));
    assert!(ok.success);
    assert_eq!((ok.success_count, ok.error_count), (3, 1));
    let failed = pdf_run_result(3, vec![], "o.pdf".to_string(), Err("disk full".to_string()));
    assert!(!failed.success);
    assert_eq!((failed.success_count, failed.error_count), (0, 1));
    assert_eq!(failed.errors[0].file_path, "PDF Generation");
    assert_eq!(failed.errors[0].message, "disk full");
}

#[test]
fn laid_out_page_is_encoded_as_jpeg() {
    let pixels: Vec<u8> = (0..(16 * 8 * 3)).map(|i| (i % 251) as u8).collect();
    let jpeg = encode_page_jpeg("page.png", 16, 8, &pixels).unwrap();
    assert_eq!(&jpeg[..2], &[0xFF, 0xD8]);
    let decoded = image::load_from_memory(&jpeg).unwrap();
    assert_eq!((decoded.width(), decoded.height()), (16, 8));
}
