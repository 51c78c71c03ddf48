use img2pdf::models::ProcessingError;
use img2pdf::pdf2img::{
    check_canvas_width, extraction_plan, extraction_result, kept_extractions, lossless_pages, page_image_stem_for, parse_pdfimages_list, pdftoppm_arguments, render_format,
    rendering_result, tries_lossless, OutputImageFormat, Pdf2ImgProcessor, PdfImageInfo,
};

#[test]
fn pdf2img_processor_test_output_image_format_parse() {
    assert_eq!(OutputImageFormat::parse("jpg"), Some(OutputImageFormat::Jpeg));
    assert_eq!(OutputImageFormat::parse("JPEG"), Some(OutputImageFormat::Jpeg));
    assert_eq!(OutputImageFormat::parse("png"), Some(OutputImageFormat::Png));
    assert_eq!(OutputImageFormat::parse("auto"), Some(OutputImageFormat::AutoLossless));
    assert_eq!(OutputImageFormat::parse("webp"), None);
}

#[test]
fn mod_test_output_image_format_parse() {
    assert_eq!(OutputImageFormat::parse("jpg"), Some(OutputImageFormat::Jpeg));
    assert_eq!(OutputImageFormat::parse("JPEG"), Some(OutputImageFormat::Jpeg));
    assert_eq!(OutputImageFormat::parse("png"), Some(OutputImageFormat::Png));
    assert_eq!(OutputImageFormat::parse("auto"), Some(OutputImageFormat::AutoLossless));
    assert_eq!(OutputImageFormat::parse("webp"), None);
}

const LISTING: &str = "page   num  type   width height color comp bpc  enc interp  object ID x-ppi y-ppi size ratio\n---- ----- ----- ------- ------ ----- ---- --- ----- ------ -------- -- ----- ----- ---- -----\n   1     0 image     120    170  rgb     3   8  jpeg   no         4  0    72    72 100B 0.1%\n   2     1 image     120    170  rgb     3   8  jpeg   no         8  0    72    72 100B 0.1%\n";

#[test]
fn pdf2img_processor_test_parse_pdfimages_list_and_extractable_heuristic() {
    let images = parse_pdfimages_list(LISTING);
    assert_eq!(images.len(), 2);
    assert!(Pdf2ImgProcessor::can_losslessly_extract_jpegs(&images, 2));
}

#[test]
fn mod_test_parse_pdfimages_list_and_extractable_heuristic() {
    let images = parse_pdfimages_list(LISTING);
    assert_eq!(images.len(), 2);
    assert!(Pdf2ImgProcessor::can_losslessly_extract_jpegs(&images, 2));
}

#[test]
fn lossless_extraction_needs_one_jpeg_per_page() {
    let images = parse_pdfimages_list(LISTING);
    assert!(!Pdf2ImgProcessor::can_losslessly_extract_jpegs(&images, 3));
    assert!(!Pdf2ImgProcessor::can_losslessly_extract_jpegs(&images[..1], 2));
    assert!(Pdf2ImgProcessor::can_losslessly_extract_jpegs(&[], 0));
    let png = parse_pdfimages_list(
        "   1     0 image     120    170  rgb     3   8  image  no         4  0    72    72 100B 0.1%\n",
    );
    assert_eq!(png[0].enc, "image");
    assert!(!Pdf2ImgProcessor::can_losslessly_extract_jpegs(&png, 1));
}

#[test]
fn output_formats_name_their_files_and_flags() {
    assert_eq!(OutputImageFormat::Png.extension(), "png");
    assert_eq!(OutputImageFormat::Jpeg.extension(), "jpg");
    assert_eq!(OutputImageFormat::Png.pdftoppm_flag(), "-png");
    assert_eq!(OutputImageFormat::Jpeg.pdftoppm_flag(), "-jpeg");
}

#[test]
fn page_count_reads_the_first_positive_pages_line() {
    let out = "Title: x\nPages:          0\n  Pages:   12  \nPages: 3\n";
    assert_eq!(Pdf2ImgProcessor::page_count_from_info("a.pdf", out).unwrap(), 12);
    let missing = Pdf2ImgProcessor::page_count_from_info("a.pdf", "Title: x\n").unwrap_err();
    assert_eq!(missing.file_path, "a.pdf");
    assert_eq!(missing.message, "pdfinfo の出力からページ数を取得できませんでした");
    let bad = Pdf2ImgProcessor::page_count_from_info("a.pdf", "Pages: x1\n").unwrap_err();
    assert_eq!(bad.message, "ページ数の解析に失敗しました: invalid digit found in string");
}

#[test]
fn page_count_is_read_from_pdfinfo() {
    let info = "Title:          book\nPages:          12\nEncrypted:      no\n";
    assert_eq!(Pdf2ImgProcessor::page_count_from_info("a.pdf", info).unwrap(), 12);
}

#[test]
fn page_count_missing_or_broken_is_an_error() {
    let err = Pdf2ImgProcessor::page_count_from_info("a.pdf", "Title: x\n").unwrap_err();
    assert_eq!(err.file_path, "a.pdf");
    assert_eq!(err.message, "pdfinfo の出力からページ数を取得できませんでした");
    let err = Pdf2ImgProcessor::page_count_from_info("b.pdf", "Pages: many\n").unwrap_err();
    assert_eq!(err.message, "ページ数の解析に失敗しました: invalid digit found in string");
}

#[test]
fn page_image_stems_are_zero_padded() {
    assert_eq!(page_image_stem_for("book", 7), "book_0007");
    assert_eq!(page_image_stem_for("book", 12345), "book_12345");
}

#[test]
fn pdftoppm_arguments_for_jpeg_and_png() {
    let jpeg = pdftoppm_arguments("in.pdf", "out/p", 3, 1654, OutputImageFormat::Jpeg);
    assert_eq!(
        jpeg,
        vec![
            "-q", "-f", "3", "-l", "3", "-singlefile", "-jpeg", "-jpegopt",
            "quality=80,optimize=y,progressive=n", "-scale-to-x", "1654", "-scale-to-y", "-1",
            "in.pdf", "out/p",
        ]
    );
    let png = pdftoppm_arguments("in.pdf", "out/p", 1, 800, OutputImageFormat::Png);
    assert_eq!(
        png,
        vec!["-q", "-f", "1", "-l", "1", "-singlefile", "-png", "-scale-to-x", "800", "-scale-to-y", "-1", "in.pdf", "out/p"]
    );
}

#[test]
fn auto_renders_png_and_tries_extraction() {
    assert_eq!(render_format(OutputImageFormat::AutoLossless), OutputImageFormat::Png);
    assert_eq!(render_format(OutputImageFormat::Jpeg), OutputImageFormat::Jpeg);
    assert!(tries_lossless(OutputImageFormat::AutoLossless));
    assert!(tries_lossless(OutputImageFormat::Jpeg));
    assert!(!tries_lossless(OutputImageFormat::Png));
}

#[test]
fn rendering_result_counts_pages() {
    let results = vec![
        Ok("a_0001.png".to_string()),
        Err(ProcessingError { file_path: "page 2".to_string(), message: "boom".to_string() }),
        Ok("a_0003.png".to_string()),
    ];
    let r = rendering_result(results, "out".to_string());
    assert!(r.success);
    assert_eq!((r.success_count, r.error_count), (2, 1));
    assert_eq!(r.errors[0].file_path, "page 2");
    let none = rendering_result(vec![], "out".to_string());
    assert!(!none.success);
}

#[test]
fn extraction_result_is_clean() {
    let r = extraction_result(4, "imgs".to_string());
    assert!(r.success);
    assert_eq!((r.success_count, r.error_count), (4, 0));
    assert!(!extraction_result(0, "imgs".to_string()).success);
}

fn image(page: usize, enc: &str) -> PdfImageInfo {
    PdfImageInfo { page, enc: enc.to_string() }
}

#[test]
fn auto_extracts_each_page_that_holds_one_jpeg() {
    let images = vec![image(1, "jpeg"), image(2, "image")];
    assert!(!Pdf2ImgProcessor::can_losslessly_extract_jpegs(&images, 2));
    assert_eq!(extraction_plan(&images, 2), vec![true, false]);
    let mixed = vec![image(1, "JPEG"), image(2, "jpeg"), image(2, "jpeg"), image(4, "jpx"), image(9, "jpeg")];
    assert_eq!(extraction_plan(&mixed, 4), vec![true, false, false, false]);
    assert_eq!(extraction_plan(&parse_pdfimages_list(LISTING), 2), vec![true, true]);
    assert_eq!(extraction_plan(&[], 0), Vec::<bool>::new());
}

#[test]
fn zero_width_is_refused_before_any_work() {
    assert_eq!(check_canvas_width(0), Err("--width には 1 以上を指定してください".to_string()));
    assert_eq!(check_canvas_width(1), Ok(()));
}

#[test]
fn jpg_extracts_the_whole_document_or_nothing() {
    let one_of_two = vec![image(1, "jpeg"), image(2, "image")];
    assert_eq!(lossless_pages(OutputImageFormat::Jpeg, &one_of_two, 2), vec![false, false]);
    assert_eq!(lossless_pages(OutputImageFormat::AutoLossless, &one_of_two, 2), vec![true, false]);
    assert_eq!(lossless_pages(OutputImageFormat::Png, &one_of_two, 2), vec![false, false]);
    let all = parse_pdfimages_list(LISTING);
    assert_eq!(lossless_pages(OutputImageFormat::Jpeg, &all, 2), vec![true, true]);
}

#[test]
fn a_failed_extraction_renders_every_jpg_page() {
    let planned = vec![true, true, true];
    assert_eq!(kept_extractions(OutputImageFormat::Jpeg, &planned, &vec![true, false, true]), vec![false, false, false]);
    assert_eq!(kept_extractions(OutputImageFormat::Jpeg, &planned, &vec![true, true, true]), vec![true, true, true]);
    assert_eq!(
        kept_extractions(OutputImageFormat::AutoLossless, &vec![true, false, true], &vec![true, false, false]),
        vec![true, false, false]
    );
}
