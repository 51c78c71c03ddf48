use img2pdf::paths::{default_book_output_path, default_image_output_folder, get_config_file_path};
use img2pdf::pipeline::natural_key;
use img2pdf::tools::is_windows_executable;

#[test]
fn book_output_sits_beside_the_input() {
    assert_eq!(default_book_output_path("scans/vol1.pdf"), "scans/vol1-book.pdf");
    assert_eq!(default_book_output_path("/data/a.b.pdf"), "/data/a.b-book.pdf");
    assert_eq!(default_book_output_path("/vol1.pdf"), "/vol1-book.pdf");
}

#[test]
fn book_output_of_a_lone_name_goes_in_the_current_folder() {
    assert_eq!(default_book_output_path("vol1.pdf"), "./vol1-book.pdf");
    assert_eq!(default_book_output_path("images"), "./images-book.pdf");
    assert_eq!(default_book_output_path(".hidden"), "./.hidden-book.pdf");
}

#[test]
fn image_folder_sits_beside_the_pdf() {
    assert_eq!(default_image_output_folder("docs/report.pdf"), "docs/report-images");
    assert_eq!(default_image_output_folder("report.pdf"), "report-images");
}

#[test]
fn settings_file_is_joined_to_its_folder() {
    assert_eq!(get_config_file_path("/home/u/.config/img2pdf", "settings.json"), "/home/u/.config/img2pdf/settings.json");
    assert_eq!(get_config_file_path("/home/u/.config/img2pdf/", "settings.json"), "/home/u/.config/img2pdf/settings.json");
}

#[test]
fn natural_key_reads_the_last_component() {
    assert_eq!(natural_key("vol2/Page10.JPG"), (10, "page10.jpg".to_string()));
    assert_eq!(natural_key("/a/b/cover.png"), (0, "cover.png".to_string()));
}

#[test]
fn windows_executables_are_found_by_extension_of_the_name() {
    assert!(is_windows_executable("/mnt/c/tools/realesrgan-ncnn-vulkan.EXE", false));
    assert!(is_windows_executable("a.exe", false));
    assert!(!is_windows_executable("/usr/bin/realesrgan-ncnn-vulkan", false));
    assert!(!is_windows_executable("tool.exe.bak", false));
    assert!(!is_windows_executable(".exe", false));
    assert!(!is_windows_executable("a.exe", true));
}

#[test]
fn work_folder_is_named_after_the_output_and_the_fingerprint() {
    assert_eq!(img2pdf::paths::work_dir_name(&Some("vol1-book".to_string()), 0xab), "img2pdf-book-vol1-book-00000000000000ab");
    assert_eq!(img2pdf::paths::work_dir_name(&None, u64::MAX), "img2pdf-book-output-ffffffffffffffff");
    assert_eq!(img2pdf::paths::work_dir_name(&Some(String::new()), 0x1234_5678_9abc_def0), "img2pdf-book-output-123456789abcdef0");
}
