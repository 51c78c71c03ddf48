//! Names and fixed numbers shared by the converters.
use vstd::prelude::*;

verus! {

/// Application name.
pub const APP_NAME: &'static str = "ImageToPdf";

/// Name of the settings directory.
pub const CONFIG_DIR_NAME: &'static str = "ImageToPdf";

/// Name of the settings file.
pub const CONFIG_FILE_NAME: &'static str = "config.json";

/// Default canvas width in pixels: A4 at about 200 DPI.
pub const DEFAULT_WIDTH: u32 = 1654;

/// JPEG quality used for PDF pages (1–95).
pub const PDF_QUALITY: u8 = 80;

/// GUI window width.
pub const WINDOW_WIDTH: i32 = 600;

/// GUI window height.
pub const WINDOW_HEIGHT: i32 = 420;

} // verus!
