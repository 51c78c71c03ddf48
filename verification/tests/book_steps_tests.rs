use img2pdf::config::PageRange;
use img2pdf::pipeline::{book_pdftoppm_arguments, extracted_jpegs, needs_render_fallback, pdfimages_arguments};
use img2pdf::superres::{after_retry, checked_scaled, retry_pages, superres_outcome};

#[test]
fn extraction_arguments_name_the_page_range() {
    let range = PageRange { start: 3, end: 12 };
    assert_eq!(
        pdfimages_arguments(range, "book.pdf", "/w/extract-tmp/page"),
        vec!["-f", "3", "-l", "12", "-j", "-p", "book.pdf", "/w/extract-tmp/page"]
    );
    assert_eq!(
        book_pdftoppm_arguments(range, 300, "book.pdf", "/w/extract-tmp/page"),
        vec!["-f", "3", "-l", "12", "-r", "300", "-jpeg", "book.pdf", "/w/extract-tmp/page"]
    );
}

#[test]
fn only_jpeg_files_count_as_extracted() {
    let exts = vec![Some("jpg".to_string()), Some("PPM".to_string()), None, Some("JPEG".to_string()), Some("jp2".to_string())];
    assert_eq!(extracted_jpegs(&exts), vec![0, 3]);
    assert!(needs_render_fallback(2, 3));
    assert!(!needs_render_fallback(3, 3));
}

#[test]
fn failed_outputs_are_retried_once_in_assignment_order() {
    let assignments = vec![vec![4, 0], vec![2], vec![1, 3]];
    let valid = vec![true, false, false, true, false];
    assert_eq!(retry_pages(&assignments, &valid), vec![(0, 4), (1, 2), (2, 1)]);
    assert_eq!(retry_pages(&assignments, &vec![true; 5]), vec![]);
    assert_eq!(after_retry(&vec![0, 1, 2, u32::MAX, 7], &vec![4, 2, 1, 3]), vec![0, 2, 3, u32::MAX, 8]);
}

#[test]
fn the_first_failed_second_check_stops_the_step() {
    assert_eq!(superres_outcome(&vec![Ok(()), Ok(())]), Ok(()));
    assert_eq!(
        superres_outcome(&vec![Ok(()), Err("a".to_string()), Err("b".to_string())]),
        Err("a".to_string())
    );
    assert_eq!(checked_scaled(1000, 2), Ok(2000));
    assert_eq!(checked_scaled(u32::MAX, 2), Err("画像寸法が大きすぎます".to_string()));
}
