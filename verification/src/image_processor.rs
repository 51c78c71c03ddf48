//! img2pdf's page handling: embedding JPEGs as they are, numbering the PDF
//! objects, and summing up a run.
use vstd::prelude::*;
use crate::models::{ProcessingError, ProcessingResult};
use crate::pdf::{jpeg_header_of, read_jpeg_header, JpegHeaderError};
use crate::constants::PDF_QUALITY;
use crate::text::{chars_of, push_str, string_of};

verus! {

/// One PDF page's JPEG, encoded.
#[derive(Debug)]
pub struct JpegPage {
    pub width: u32,
    pub height: u32,
    pub components: u8,
    pub data: Vec<u8>,
}

/// Images to PDF.
#[derive(Debug, Clone, Copy)]
pub struct ImageProcessor;

/// The size and components of a JPEG file, or the error for the file.
pub open spec fn jpeg_dimensions_of(file_path: Seq<char>, read: Result<Seq<u8>, Seq<char>>) -> Result<
    (u32, u32, u8),
    (Seq<char>, Seq<char>),
> {
    match read {
        Err(e) => Err((file_path, "Failed to read file: "@ + e)),
        Ok(bytes) => match jpeg_header_of(bytes) {
            Ok(h) => Ok(h),
            Err(Some(e)) => Err((file_path, "zune-jpeg header decode failed: "@ + e)),
            Err(None) => Err((file_path, "zune-jpeg: failed to get image info after decoding headers"@)),
        },
    }
}

pub open spec fn error_view(e: ProcessingError) -> (Seq<char>, Seq<char>) {
    (e.file_path@, e.message@)
}

fn error_for(file_path: &str, prefix: &str, detail: &str) -> (e: ProcessingError)
    ensures
        e.file_path@ == file_path@,
        e.message@ == prefix@ + detail@,
{
    let mut m = chars_of(prefix);
    push_str(&mut m, detail);
    ProcessingError { file_path: file_path.to_string(), message: string_of(&m) }
}

fn error_plain(file_path: &str, message: &str) -> (e: ProcessingError)
    ensures
        e.file_path@ == file_path@,
        e.message@ == message@,
{
    ProcessingError { file_path: file_path.to_string(), message: message.to_string() }
}

/// Width, height and components read from JPEG bytes.
fn dimensions_from_bytes(file_path: &str, bytes: &[u8]) -> (r: Result<(u32, u32, u8), ProcessingError>)
    ensures
        match r {
            Ok(d) => jpeg_dimensions_of(file_path@, Ok(bytes@)) == Ok::<
                (u32, u32, u8),
                (Seq<char>, Seq<char>),
            >(d),
            Err(e) => jpeg_dimensions_of(file_path@, Ok(bytes@)) == Err::<
                (u32, u32, u8),
                (Seq<char>, Seq<char>),
            >(error_view(e)),
        },
{
    match read_jpeg_header(bytes) {
        Ok(h) => Ok((h.width, h.height, h.components)),
        Err(JpegHeaderError::Decode(e)) => Err(
            error_for(file_path, "zune-jpeg header decode failed: ", e.as_str()),
        ),
        Err(JpegHeaderError::NoInfo) => Err(
            error_plain(file_path, "zune-jpeg: failed to get image info after decoding headers"),
        ),
    }
}

impl ImageProcessor {
    /// Width, height and components of the JPEG read from `file_path`.
    pub fn jpeg_dimensions(file_path: &str, read: &Result<Vec<u8>, String>) -> (r: Result<
        (u32, u32, u8),
        ProcessingError,
    >)
        ensures
            match r {
                Ok(d) => jpeg_dimensions_of(file_path@, match read {
                    Ok(b) => Ok(b@),
                    Err(e) => Err(e@),
                }) == Ok::<(u32, u32, u8), (Seq<char>, Seq<char>)>(d),
                Err(e) => jpeg_dimensions_of(file_path@, match read {
                    Ok(b) => Ok(b@),
                    Err(e) => Err(e@),
                }) == Err::<(u32, u32, u8), (Seq<char>, Seq<char>)>(error_view(e)),
            },
    {
        match read {
            Err(e) => Err(error_for(file_path, "Failed to read file: ", e.as_str())),
            Ok(bytes) => dimensions_from_bytes(file_path, bytes.as_slice()),
        }
    }

    /// A page that embeds the JPEG read from `file_path` unchanged.
    pub fn process_jpeg_lossless(file_path: &str, read: Result<Vec<u8>, String>) -> (r: Result<
        JpegPage,
        ProcessingError,
    >)
        ensures
            match r {
                Ok(p) => read matches Ok(b) && p.data@ == b@ && jpeg_dimensions_of(file_path@, Ok(b@))
                    == Ok::<(u32, u32, u8), (Seq<char>, Seq<char>)>((p.width, p.height, p.components)),
                Err(e) => jpeg_dimensions_of(file_path@, match read {
                    Ok(b) => Ok(b@),
                    Err(e) => Err(e@),
                }) == Err::<(u32, u32, u8), (Seq<char>, Seq<char>)>(error_view(e)),
            },
    {
        match read {
            Err(e) => Err(error_for(file_path, "Failed to read file: ", e.as_str())),
            Ok(data) => {
                let (width, height, components) = dimensions_from_bytes(file_path, data.as_slice())?;
                Ok(JpegPage { width, height, components, data })
            },
        }
    }
}

/// PDF object numbers of page `i` of `total`: pages first, then the
/// images, then the content streams.
pub fn pdf_object_ids(total: usize, i: usize) -> (r: (i32, i32, i32))
    requires
        i < total,
        3 + 3 * total <= i32::MAX,
    ensures
        r.0 == 3 + i,
        r.1 == 3 + total + i,
        r.2 == 3 + 2 * total + i,
{
    ((3 + i) as i32, (3 + total + i) as i32, (3 + 2 * total + i) as i32)
}

/// The colour space a JPEG with this many components is shown in.
#[derive(Debug, Clone, Copy, PartialEq, Eq, Structural)]
pub enum PdfColorSpace {
    DeviceGray,
    DeviceCmyk,
    DeviceRgb,
}

/// One component is gray, four CMYK, anything else RGB.
pub fn color_space_for(components: u8) -> (c: PdfColorSpace)
    ensures
        c == (if components == 1 {
            PdfColorSpace::DeviceGray
        } else if components == 4 {
            PdfColorSpace::DeviceCmyk
        } else {
            PdfColorSpace::DeviceRgb
        }),
{
    if components == 1 {
        PdfColorSpace::DeviceGray
    } else if components == 4 {
        PdfColorSpace::DeviceCmyk
    } else {
        PdfColorSpace::DeviceRgb
    }
}

/// The successes among `results`, in order.
pub open spec fn oks<T>(results: Seq<Result<T, ProcessingError>>) -> Seq<T>
    decreases results.len(),
{
    if results.len() == 0 {
        Seq::empty()
    } else {
        let rest = oks(results.drop_last());
        match results.last() {
            Ok(p) => rest.push(p),
            Err(_) => rest,
        }
    }
}

/// The failures among `results`, in order.
pub open spec fn errs<T>(results: Seq<Result<T, ProcessingError>>) -> Seq<ProcessingError>
    decreases results.len(),
{
    if results.len() == 0 {
        Seq::empty()
    } else {
        let rest = errs(results.drop_last());
        match results.last() {
            Ok(_) => rest,
            Err(e) => rest.push(e),
        }
    }
}

/// Splits per-file results, in file order, into pages and errors.
pub fn split_results<T>(results: Vec<Result<T, ProcessingError>>) -> (r: (Vec<T>, Vec<ProcessingError>))
    ensures
        r.0@ == oks(results@),
        r.1@ == errs(results@),
{
    let ghost all = results@;
    let mut rest = results;
    let mut pages: Vec<T> = Vec::new();
    let mut errors: Vec<ProcessingError> = Vec::new();
    let ghost mut done: int = 0;
    while rest.len() > 0
        invariant
            0 <= done <= all.len(),
            rest@ == all.skip(done),
            pages@ == oks(all.take(done)),
            errors@ == errs(all.take(done)),
        decreases rest.len(),
    {
        let r = rest.remove(0);
        proof {
            assert(r == all[done]);
            assert(all.take(done + 1).drop_last() =~= all.take(done));
            assert(all.take(done + 1).last() == all[done]);
        }
        match r {
            Ok(p) => pages.push(p),
            Err(e) => errors.push(e),
        }
        proof {
            done = done + 1;
            assert(rest@ =~= all.skip(done));
        }
    }
    proof {
        assert(all.take(done) =~= all);
    }
    (pages, errors)
}

/// The outcome of a run in which no page could be made: no PDF is written.
pub fn no_pages_result(errors: Vec<ProcessingError>, output_path: String) -> (r: ProcessingResult)
    ensures
        !r.success,
        r.success_count == 0,
        r.error_count == errors@.len(),
        r.errors@ == errors@,
        r.output_path@ == output_path@,
{
    let n = errors.len();
    ProcessingResult { success: false, success_count: 0, error_count: n, errors, output_path }
}

/// The outcome of a run once the PDF of `success_count` pages was written,
/// or failed with `pdf`'s message (recorded against "PDF Generation").
pub fn pdf_run_result(
    success_count: usize,
    errors: Vec<ProcessingError>,
    output_path: String,
    pdf: Result<(), String>,
) -> (r: ProcessingResult)
    requires
        errors@.len() < usize::MAX,
    ensures
        pdf is Ok ==> r.success && r.success_count == success_count && r.errors@ == errors@
            && r.error_count == errors@.len(),
        pdf matches Err(m) ==> !r.success && r.success_count == 0 && r.errors@.len() == errors@.len()
            + 1 && r.errors@.take(errors@.len() as int) == errors@ && r.errors@.last().file_path@
            == "PDF Generation"@ && r.errors@.last().message@ == m@ && r.error_count == r.errors@.len(),
        r.output_path@ == output_path@,
{
    match pdf {
        Ok(()) => {
            let n = errors.len();
            ProcessingResult { success: true, success_count, error_count: n, errors, output_path }
        },
        Err(message) => {
            let mut errors = errors;
            let ghost before = errors@;
            errors.push(ProcessingError { file_path: "PDF Generation".to_string(), message });
            assert(errors@.take(before.len() as int) =~= before);
            let n = errors.len();
            ProcessingResult { success: false, success_count: 0, error_count: n, errors, output_path }
        },
    }
}

/// The bytes that the `image` crate's JPEG encoder writes for an RGB image
/// of `width` x `height` `pixels` at `quality`, or the text of its error.
pub uninterp spec fn rgb_jpeg_encoding(width: u32, height: u32, pixels: Seq<u8>, quality: u8) -> Result<
    Seq<u8>,
    Seq<char>,
>;

/// `image::codecs::jpeg::JpegEncoder::new_with_quality` and `encode` of
/// RGB pixels (it panics unless there are three bytes per pixel).
#[verifier::external_body]
fn encode_rgb_jpeg(width: u32, height: u32, pixels: &[u8], quality: u8) -> (r: Result<Vec<u8>, String>)
    requires
        pixels@.len() == 3 * width * height,
    ensures
        match r {
            Ok(b) => rgb_jpeg_encoding(width, height, pixels@, quality) == Ok::<Seq<u8>, Seq<char>>(b@),
            Err(m) => rgb_jpeg_encoding(width, height, pixels@, quality) == Err::<Seq<u8>, Seq<char>>(m@),
        },
{
    let mut out = Vec::new();
    let done = {
        let mut encoder = image::codecs::jpeg::JpegEncoder::new_with_quality(&mut out, quality);
        encoder.encode(pixels, width, height, image::ExtendedColorType::Rgb8)
    };
    match done {
        Ok(()) => Ok(out),
        Err(e) => Err(e.to_string()),
    }
}

/// Encodes a laid-out page (RGB, `width` x `height`) as the PDF's JPEG at
/// `PDF_QUALITY`; an encoder error is reported for `file_path` as
/// `JPEG encode failed: <error>`.
pub fn encode_page_jpeg(file_path: &str, width: u32, height: u32, pixels: &[u8]) -> (r: Result<
    Vec<u8>,
    ProcessingError,
>)
    requires
        pixels@.len() == 3 * width * height,
    ensures
        match rgb_jpeg_encoding(width, height, pixels@, PDF_QUALITY) {
            Ok(b) => r matches Ok(x) && x@ == b,
            Err(m) => r matches Err(e) && e.file_path@ == file_path@ && e.message@ == "JPEG encode failed: "@
                + m,
        },
{
    match encode_rgb_jpeg(width, height, pixels, PDF_QUALITY) {
        Ok(b) => Ok(b),
        Err(m) => {
            let mut t = chars_of("JPEG encode failed: ");
            push_str(&mut t, m.as_str());
            Err(ProcessingError { file_path: string_of(&chars_of(file_path)), message: string_of(&t) })
        },
    }
}

} // verus!
