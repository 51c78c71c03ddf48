//! Writing the book-scan PDF: A4 pages that each show one JPEG, framed
//! object by object with a cross-reference table of byte offsets.
use vstd::prelude::*;
use vstd::utf8::encode_utf8;
use crate::text::{chars_of, decimal, decimal_chars, push_all, push_str, string_of};

verus! {

/// The bytes of text made of ASCII characters.
pub open spec fn ascii(s: Seq<char>) -> Seq<u8> {
    s.map_values(|c: char| c as u8)
}

/// Appends the ASCII text `s`.
pub fn push_ascii(out: &mut Vec<u8>, s: &str)
    ensures
        final(out)@ == old(out)@ + ascii(s@),
{
    let v = chars_of(s);
    push_ascii_chars(out, &v);
}

/// Appends the ASCII characters `v`.
pub fn push_ascii_chars(out: &mut Vec<u8>, v: &Vec<char>)
    ensures
        final(out)@ == old(out)@ + ascii(v@),
{
    let ghost start = out@;
    let mut i: usize = 0;
    while i < v.len()
        invariant
            i <= v.len(),
            out@ == start + ascii(v@.take(i as int)),
        decreases v.len() - i,
    {
        let c = v[i];
        out.push(c as u8);
        i = i + 1;
        assert(out@ =~= start + ascii(v@.take(i as int)));
    }
    assert(v@.take(i as int) =~= v@);
}

/// Appends raw bytes.
pub fn push_bytes(out: &mut Vec<u8>, b: &[u8])
    ensures
        final(out)@ == old(out)@ + b@,
{
    let ghost start = out@;
    let mut i: usize = 0;
    while i < b.len()
        invariant
            i <= b.len(),
            out@ == start + b@.take(i as int),
        decreases b.len() - i,
    {
        out.push(b[i]);
        i = i + 1;
        assert(out@ =~= start + b@.take(i as int));
    }
    assert(b@.take(i as int) =~= b@);
}

/// The decimal digits of `n`, zero-padded on the left to `width`.
pub open spec fn zero_padded(n: nat, width: nat) -> Seq<char> {
    let d = decimal(n);
    if d.len() >= width {
        d
    } else {
        Seq::new((width - d.len()) as nat, |_i: int| '0') + d
    }
}

/// The first bytes of every file: the version line and a binary comment.
pub open spec fn pdf_header() -> Seq<u8> {
    ascii("%PDF-1.7\n%"@) + seq![0x80u8, 0x80u8, 0x80u8, 0x80u8] + ascii("\n"@)
}

/// The line that opens object `id`.
pub open spec fn object_header(id: nat) -> Seq<u8> {
    ascii(decimal(id) + " 0 obj\n"@)
}

/// The cross-reference line of an object at byte `offset`.
pub open spec fn xref_entry(offset: nat) -> Seq<u8> {
    ascii(zero_padded(offset, 10) + " 00000 n \n"@)
}

/// The cross-reference lines of `offsets[1..n]`.
pub open spec fn xref_entries(offsets: Seq<u64>, n: int) -> Seq<u8>
    decreases n,
{
    if n <= 1 {
        Seq::empty()
    } else {
        xref_entries(offsets, n - 1) + xref_entry(offsets[n - 1] as nat)
    }
}

/// What closes a file whose objects end at byte `xref_offset`: the
/// cross-reference table and the trailer that points at it.
pub open spec fn pdf_tail(offsets: Seq<u64>, xref_offset: nat) -> Seq<u8> {
    ascii("xref\n0 "@ + decimal(offsets.len()) + "\n"@) + ascii("0000000000 65535 f \n"@)
        + xref_entries(offsets, offsets.len() as int) + ascii(
        "trailer\n<< /Size "@ + decimal(offsets.len()) + " /Root 1 0 R >>\nstartxref\n"@ + decimal(
            xref_offset,
        ) + "\n%%EOF\n"@,
    )
}


// ---------------------------------------------------------------------
// The document

/// A whole object: its header line, its body, and `endobj`.
pub open spec fn full_object(id: nat, body: Seq<u8>) -> Seq<u8> {
    object_header(id) + body + ascii("endobj\n"@)
}

/// Objects laid end to end.
pub open spec fn flatten(objs: Seq<Seq<u8>>) -> Seq<u8>
    decreases objs.len(),
{
    if objs.len() == 0 {
        Seq::empty()
    } else {
        flatten(objs.drop_last()) + objs.last()
    }
}

/// Where each of `objs` starts in a file that begins with the header;
/// entry 0 is the unused object 0.
pub open spec fn object_starts(objs: Seq<Seq<u8>>) -> Seq<u64> {
    seq![0u64] + Seq::new(objs.len(), |k: int| (pdf_header().len() + flatten(objs.take(k)).len()) as u64)
}

/// The catalog, object 1.
pub open spec fn catalog_object() -> Seq<u8> {
    full_object(1, ascii("<< /Type /Catalog /Pages 2 0 R >>\n"@))
}

/// The references `3 0 R 6 0 R ...` to the first `n` page objects.
pub open spec fn page_kids(n: nat) -> Seq<char>
    decreases n,
{
    if n == 0 {
        Seq::empty()
    } else if n == 1 {
        decimal(3) + " 0 R"@
    } else {
        page_kids((n - 1) as nat) + " "@ + decimal(3 * n) + " 0 R"@
    }
}

/// The page tree, object 2.
pub open spec fn pages_object(n: nat) -> Seq<u8> {
    full_object(
        2,
        ascii("<< /Type /Pages /Count "@ + decimal(n) + " /Kids [ "@ + page_kids(n) + " ] >>\n"@),
    )
}

/// Page `i`'s page object: an A4 media box showing its image.
pub open spec fn page_object(i: nat) -> Seq<u8> {
    full_object(
        3 + 3 * i,
        ascii(
            "<< /Type /Page /Parent 2 0 R /MediaBox [0 0 595.2756 841.8898] /Resources << /XObject << /Im0 "@
                + decimal(4 + 3 * i) + " 0 R >> >> /Contents "@ + decimal(5 + 3 * i) + " 0 R >>\n"@,
        ),
    )
}

/// Page `i`'s image object: the JPEG embedded unchanged.
pub open spec fn image_object(i: nat, width: nat, height: nat, gray: bool, jpeg: Seq<u8>) -> Seq<u8> {
    full_object(
        4 + 3 * i,
        ascii(
            "<< /Type /XObject /Subtype /Image /Width "@ + decimal(width) + " /Height "@ + decimal(height)
                + " /ColorSpace "@ + (if gray {
                "/DeviceGray"@
            } else {
                "/DeviceRGB"@
            }) + " /BitsPerComponent 8 /Filter /DCTDecode /Length "@ + decimal(jpeg.len())
                + " >>\nstream\n"@,
        ) + jpeg + ascii("\nendstream\n"@),
    )
}

/// Page `i`'s content stream.
pub open spec fn content_object(i: nat, content: Seq<u8>) -> Seq<u8> {
    full_object(
        5 + 3 * i,
        ascii("<< /Length "@ + decimal(content.len()) + " >>\nstream\n"@) + content + ascii("endstream\n"@),
    )
}

/// What the writer has done so far is exactly the header followed by
/// `objs`, each recorded at its start.
pub open spec fn holds_objects(w: DirectPdfWriter, objs: Seq<Seq<u8>>) -> bool {
    &&& w.wf()
    &&& w.written() == pdf_header() + flatten(objs)
    &&& w.object_offsets() == object_starts(objs)
}

proof fn lemma_flatten_push(objs: Seq<Seq<u8>>, o: Seq<u8>)
    ensures
        flatten(objs.push(o)) == flatten(objs) + o,
{
    assert(objs.push(o).drop_last() =~= objs);
}

proof fn lemma_starts_push(objs: Seq<Seq<u8>>, o: Seq<u8>)
    ensures
        object_starts(objs.push(o)) == object_starts(objs).push(
            (pdf_header().len() + flatten(objs).len()) as u64,
        ),
{
    let a = object_starts(objs.push(o));
    let b = object_starts(objs).push((pdf_header().len() + flatten(objs).len()) as u64);
    assert forall|k: int| 0 <= k < objs.len() implies objs.push(o).take(k) == objs.take(k) by {
        assert(objs.push(o).take(k) =~= objs.take(k));
    }
    assert(objs.push(o).take(objs.len() as int) =~= objs);
    assert(a =~= b);
}


// ---------------------------------------------------------------------
// Pages

/// What `zune-jpeg` reads from a JPEG's headers: width, height and number
/// of colour components; or the decoder's complaint (its `Debug` text), or
/// `None` where headers decoded but gave no image information.
pub uninterp spec fn jpeg_header_of(jpeg: Seq<u8>) -> Result<(u32, u32, u8), Option<Seq<char>>>;

/// Width, height and colour components of a JPEG.
#[derive(Debug, Clone, Copy, PartialEq, Eq, Structural)]
pub struct JpegHeader {
    pub width: u32,
    pub height: u32,
    pub components: u8,
}

/// Why a JPEG's headers could not be read.
#[derive(Debug, Clone)]
pub enum JpegHeaderError {
    /// The decoder's complaint, in its `Debug` form.
    Decode(String),
    /// Headers decoded without image information.
    NoInfo,
}

/// `zune_jpeg::JpegDecoder::decode_headers` on the bytes, then `info()`:
/// the result is named, as a function of the bytes alone.
#[verifier::external_body]
pub(crate) fn read_jpeg_header(jpeg: &[u8]) -> (r: Result<JpegHeader, JpegHeaderError>)
    ensures
        match r {
            Ok(h) => jpeg_header_of(jpeg@) == Ok::<(u32, u32, u8), Option<Seq<char>>>(
                (h.width, h.height, h.components),
            ),
            Err(JpegHeaderError::Decode(e)) => jpeg_header_of(jpeg@) == Err::<
                (u32, u32, u8),
                Option<Seq<char>>,
            >(Some(e@)),
            Err(JpegHeaderError::NoInfo) => jpeg_header_of(jpeg@) == Err::<
                (u32, u32, u8),
                Option<Seq<char>>,
            >(None),
        },
{
    let mut decoder = zune_jpeg::JpegDecoder::new(zune_jpeg::zune_core::bytestream::ZCursor::new(jpeg));
    match decoder.decode_headers() {
        Err(error) => Err(JpegHeaderError::Decode(format!("{error:?}"))),
        Ok(()) => match decoder.info() {
            Some(info) => Ok(JpegHeader { width: info.width as u32, height: info.height as u32, components: info.components }),
            None => Err(JpegHeaderError::NoInfo),
        },
    }
}

/// The number of colour components in a JPEG's headers, or why it cannot
/// be read.
pub open spec fn jpeg_header_components(jpeg: Seq<u8>) -> Result<u8, Seq<char>> {
    match jpeg_header_of(jpeg) {
        Ok((_, _, c)) => Ok(c),
        Err(Some(e)) => Err("JPEG headerを解析できません: "@ + e),
        Err(None) => Err("JPEG headerに画像情報がありません"@),
    }
}

/// The number of colour components in a JPEG's headers.
pub fn jpeg_components(jpeg: &[u8]) -> (r: Result<u8, String>)
    ensures
        match r {
            Ok(c) => jpeg_header_components(jpeg@) == Ok::<u8, Seq<char>>(c),
            Err(e) => jpeg_header_components(jpeg@) == Err::<u8, Seq<char>>(e@),
        },
{
    match read_jpeg_header(jpeg) {
        Ok(h) => Ok(h.components),
        Err(JpegHeaderError::Decode(e)) => {
            let mut m = chars_of("JPEG headerを解析できません: ");
            push_str(&mut m, e.as_str());
            Err(string_of(&m))
        },
        Err(JpegHeaderError::NoInfo) => Err(String::from_str("JPEG headerに画像情報がありません")),
    }
}

/// What the PDF writer needs of one page. Reading files and placing the
/// image on A4 happen before: `jpeg` is the page's JPEG (absent where none
/// was recorded, or the reason it could not be read), `dimensions` what was
/// read of its size, and `content` the drawing operators that place it.
#[derive(Debug)]
pub struct PdfPageSource {
    pub stem: String,
    pub jpeg: Option<Result<Vec<u8>, String>>,
    pub jpeg_name: String,
    pub dimensions: Result<(u32, u32), String>,
    pub source_width: u32,
    pub source_height: u32,
    pub crop_width: u32,
    pub crop_height: u32,
    pub content: String,
}

/// Why page `p` cannot be written, checked in this order: no JPEG, an
/// unreadable JPEG, unreadable headers, a component count other than 1 or
/// 3, an unreadable size, and a zero size for the chosen placement.
pub open spec fn page_error(p: PdfPageSource, preserve_position: bool) -> Option<Seq<char>> {
    match p.jpeg {
        None => Some(p.stem@ + "のJPEGがありません"@),
        Some(Err(e)) => Some(p.jpeg_name@ + "を読めません: "@ + e@),
        Some(Ok(bytes)) => match jpeg_header_components(bytes@) {
            Err(e) => Some(e),
            Ok(c) => if c != 1 && c != 3 {
                Some("未対応のJPEG成分数です: "@ + p.jpeg_name@ + " components="@ + decimal(c as nat))
            } else {
                match p.dimensions {
                    Err(e) => Some("JPEG寸法を読めません: "@ + e@),
                    Ok(_) => if preserve_position {
                        if p.source_width == 0 || p.source_height == 0 {
                            Some(p.stem@ + "の元キャンバス寸法が0です"@)
                        } else {
                            None
                        }
                    } else {
                        if p.crop_width == 0 || p.crop_height == 0 {
                            Some(p.stem@ + "のcrop寸法が0です"@)
                        } else {
                            None
                        }
                    },
                }
            },
        },
    }
}

/// The three objects of page `i`, for a page without errors.
pub open spec fn page_objects(i: nat, p: PdfPageSource) -> Seq<Seq<u8>> {
    let bytes = p.jpeg->0->Ok_0@;
    let gray = jpeg_header_components(bytes)->Ok_0 == 1;
    let (w, h) = p.dimensions->Ok_0;
    seq![
        page_object(i),
        image_object(i, w as nat, h as nat, gray, bytes),
        content_object(i, encode_utf8(p.content@)),
    ]
}

/// The objects of the first `n` pages.
pub open spec fn pages_objects(pages: Seq<PdfPageSource>, n: int) -> Seq<Seq<u8>>
    decreases n,
{
    if n <= 0 {
        Seq::empty()
    } else {
        pages_objects(pages, n - 1) + page_objects((n - 1) as nat, pages[n - 1])
    }
}

/// The first page error from page `k` on.
pub open spec fn first_page_error(pages: Seq<PdfPageSource>, preserve_position: bool, k: int) -> Option<
    Seq<char>,
>
    decreases pages.len() - k,
{
    if k < 0 || k >= pages.len() {
        None
    } else {
        match page_error(pages[k], preserve_position) {
            Some(e) => Some(e),
            None => first_page_error(pages, preserve_position, k + 1),
        }
    }
}

/// Every object of a document of `pages`: catalog, page tree, then three
/// objects per page.
pub open spec fn document_objects(pages: Seq<PdfPageSource>) -> Seq<Seq<u8>> {
    seq![catalog_object(), pages_object(pages.len())] + pages_objects(pages, pages.len() as int)
}

proof fn lemma_pages_objects_len(pages: Seq<PdfPageSource>, n: int)
    requires
        0 <= n,
    ensures
        pages_objects(pages, n).len() == 3 * n,
    decreases n,
{
    if n > 0 {
        lemma_pages_objects_len(pages, n - 1);
    }
}

/// A PDF written object by object; object `i` (from 1) starts at byte
/// `offsets[i]`. The bytes not yet handed out are held in `output`; those
/// handed out (`flushed_len` of them) are only counted.
pub struct DirectPdfWriter {
    output: Vec<u8>,
    offsets: Vec<u64>,
    flushed: Ghost<Seq<u8>>,
    flushed_len: u128,
}

impl DirectPdfWriter {
    /// The bytes written so far, handed out or not.
    pub closed spec fn written(&self) -> Seq<u8> {
        self.flushed@ + self.output@
    }

    /// The bytes handed out so far.
    pub closed spec fn flushed(&self) -> Seq<u8> {
        self.flushed@
    }

    /// The count of bytes handed out matches them, and fits in a `u64`.
    pub closed spec fn counted(&self) -> bool {
        self.flushed_len == self.flushed@.len() && self.flushed@.len() <= u64::MAX
    }

    /// The byte offsets of the objects begun so far; entry 0 is unused.
    pub closed spec fn object_offsets(&self) -> Seq<u64> {
        self.offsets@
    }

    /// The header comes first, and each object begun so far starts with
    /// its `id 0 obj` line at its recorded offset.
    pub open spec fn wf(&self) -> bool {
        let out = self.written();
        let offs = self.object_offsets();
        &&& self.counted()
        &&& offs.len() >= 1
        &&& offs[0] == 0
        &&& out.len() >= pdf_header().len()
        &&& out.take(pdf_header().len() as int) == pdf_header()
        &&& forall|i: int|
            1 <= i < offs.len() ==> #[trigger] offs[i] + object_header(i as nat).len() <= out.len()
                && out.subrange(offs[i] as int, offs[i] + object_header(i as nat).len())
                == object_header(i as nat)
    }

    /// Starts a PDF with its header.
    pub fn new() -> (w: Self)
        ensures
            w.wf(),
            w.written() == pdf_header(),
            w.flushed() == Seq::<u8>::empty(),
            w.object_offsets() == seq![0u64],
    {
        let mut output: Vec<u8> = Vec::new();
        push_ascii(&mut output, "%PDF-1.7\n%");
        output.push(0x80);
        output.push(0x80);
        output.push(0x80);
        output.push(0x80);
        push_ascii(&mut output, "\n");
        let mut offsets: Vec<u64> = Vec::new();
        offsets.push(0);
        assert(output@ =~= pdf_header());
        assert(output.len() == output@.len());
        let w = DirectPdfWriter { output, offsets, flushed: Ghost(Seq::empty()), flushed_len: 0 };
        assert(w.written() =~= pdf_header());
        assert(w.written().take(pdf_header().len() as int) =~= pdf_header());
        w
    }

    /// Opens object `id`, which must be the next unused number.
    pub fn begin_object(&mut self, id: usize) -> (r: Result<(), String>)
        requires
            old(self).wf(),
        ensures
            final(self).wf(),
            final(self).flushed() == old(self).flushed(),
            id == old(self).object_offsets().len() && old(self).written().len() <= u64::MAX ==> r is Ok
                && final(self).object_offsets() == old(self).object_offsets().push(
                old(self).written().len() as u64,
            ) && final(self).written() == old(self).written() + object_header(id as nat),
            id != old(self).object_offsets().len() ==> (r matches Err(e) && e@
                == "PDF object IDが連続していません: "@ + decimal(id as nat)) && final(self).written()
                == old(self).written() && final(self).object_offsets() == old(self).object_offsets(),
            id == old(self).object_offsets().len() && old(self).written().len() > u64::MAX ==> (r matches Err(
                e,
            ) && e@ == "PDFが大きすぎます"@) && old(self).flushed().len() > 0 && final(self).written()
                == old(self).written() && final(self).object_offsets() == old(self).object_offsets(),
    {
        if id != self.offsets.len() {
            let mut m = chars_of("PDF object IDが連続していません: ");
            push_all(&mut m, &decimal_chars(id as u128));
            return Err(string_of(&m));
        }
        if self.flushed_len + self.output.len() as u128 > u64::MAX as u128 {
            assert(self.output@.len() <= usize::MAX);
            return Err(String::from_str("PDFが大きすぎます"));
        }
        let ghost old_out = self.written();
        let ghost old_offs = self.offsets@;
        let offset = (self.flushed_len + self.output.len() as u128) as u64;
        self.offsets.push(offset);
        let d = decimal_chars(id as u128);
        push_ascii_chars(&mut self.output, &d);
        push_ascii(&mut self.output, " 0 obj\n");
        proof {
            let out = self.written();
            assert(self.output.len() == self.output@.len());
            assert(ascii(d@) + ascii(" 0 obj\n"@) =~= object_header(id as nat));
            assert(out =~= old_out + object_header(id as nat));
            assert(out.take(pdf_header().len() as int) =~= old_out.take(pdf_header().len() as int));
            assert forall|i: int| 1 <= i < self.offsets@.len() implies #[trigger] self.offsets@[i]
                + object_header(i as nat).len() <= out.len() && out.subrange(
                self.offsets@[i] as int,
                self.offsets@[i] + object_header(i as nat).len(),
            ) == object_header(i as nat) by {
                if i < old_offs.len() {
                    assert(out.subrange(
                        self.offsets@[i] as int,
                        self.offsets@[i] + object_header(i as nat).len(),
                    ) =~= old_out.subrange(
                        old_offs[i] as int,
                        old_offs[i] + object_header(i as nat).len(),
                    ));
                } else {
                    assert(out.subrange(
                        self.offsets@[i] as int,
                        self.offsets@[i] + object_header(i as nat).len(),
                    ) =~= object_header(id as nat));
                }
            }
        }
        Ok(())
    }

    /// Writes object `id` with the given body.
    pub fn write_object(&mut self, id: usize, body: &[u8]) -> (r: Result<(), String>)
        requires
            old(self).wf(),
        ensures
            final(self).wf(),
            final(self).flushed() == old(self).flushed(),
            id == old(self).object_offsets().len() && old(self).written().len() <= u64::MAX ==> r is Ok
                && final(self).object_offsets() == old(self).object_offsets().push(
                old(self).written().len() as u64,
            ) && final(self).written() == old(self).written() + object_header(id as nat) + body@ + ascii(
                "endobj\n"@,
            ),
            id != old(self).object_offsets().len() ==> (r matches Err(e) && e@
                == "PDF object IDが連続していません: "@ + decimal(id as nat)) && final(self).written()
                == old(self).written() && final(self).object_offsets() == old(self).object_offsets(),
            id == old(self).object_offsets().len() && old(self).written().len() > u64::MAX ==> (r matches Err(
                e,
            ) && e@ == "PDFが大きすぎます"@) && old(self).flushed().len() > 0 && final(self).written()
                == old(self).written() && final(self).object_offsets() == old(self).object_offsets(),
    {
        match self.begin_object(id) {
            Err(e) => Err(e),
            Ok(()) => {
                self.append_bytes(body);
                self.append_ascii("endobj\n");
                Ok(())
            },
        }
    }

    /// Appends bytes inside the current object.
    pub fn append_bytes(&mut self, b: &[u8])
        requires
            old(self).wf(),
        ensures
            final(self).wf(),
            final(self).flushed() == old(self).flushed(),
            final(self).written() == old(self).written() + b@,
            final(self).object_offsets() == old(self).object_offsets(),
    {
        let ghost old_out = self.written();
        push_bytes(&mut self.output, b);
        proof {
            assert(self.output.len() == self.output@.len());
            assert(self.written().take(old_out.len() as int) =~= old_out);
            self.lemma_append_keeps_wf(old_out);
        }
    }

    /// Appends ASCII text inside the current object.
    pub fn append_ascii(&mut self, s: &str)
        requires
            old(self).wf(),
        ensures
            final(self).wf(),
            final(self).flushed() == old(self).flushed(),
            final(self).written() == old(self).written() + ascii(s@),
            final(self).object_offsets() == old(self).object_offsets(),
    {
        let ghost old_out = self.written();
        push_ascii(&mut self.output, s);
        proof {
            assert(self.output.len() == self.output@.len());
            assert(self.written().take(old_out.len() as int) =~= old_out);
            self.lemma_append_keeps_wf(old_out);
        }
    }

    /// Appends ASCII characters inside the current object.
    pub fn append_ascii_chars(&mut self, v: &Vec<char>)
        requires
            old(self).wf(),
        ensures
            final(self).wf(),
            final(self).flushed() == old(self).flushed(),
            final(self).written() == old(self).written() + ascii(v@),
            final(self).object_offsets() == old(self).object_offsets(),
    {
        let ghost old_out = self.written();
        push_ascii_chars(&mut self.output, v);
        proof {
            assert(self.output.len() == self.output@.len());
            assert(self.written().take(old_out.len() as int) =~= old_out);
            self.lemma_append_keeps_wf(old_out);
        }
    }

    proof fn lemma_append_keeps_wf(&self, before: Seq<u8>)
        requires
            self.object_offsets().len() >= 1,
            self.object_offsets()[0] == 0,
            before.len() >= pdf_header().len(),
            before.take(pdf_header().len() as int) == pdf_header(),
            self.written().len() >= before.len(),
            self.written().take(before.len() as int) == before,
            self.counted(),
            forall|i: int|
                1 <= i < self.object_offsets().len() ==> #[trigger] self.object_offsets()[i]
                    + object_header(i as nat).len() <= before.len() && before.subrange(
                    self.object_offsets()[i] as int,
                    self.object_offsets()[i] + object_header(i as nat).len(),
                ) == object_header(i as nat),
        ensures
            self.wf(),
    {
        let out = self.written();
        let offs = self.object_offsets();
        assert(out.take(pdf_header().len() as int) =~= before.take(pdf_header().len() as int));
        assert forall|i: int| 1 <= i < offs.len() implies #[trigger] offs[i] + object_header(
            i as nat,
        ).len() <= out.len() && out.subrange(offs[i] as int, offs[i] + object_header(i as nat).len())
            == object_header(i as nat) by {
            assert(out.subrange(offs[i] as int, offs[i] + object_header(i as nat).len()) =~= before.subrange(
                offs[i] as int,
                offs[i] + object_header(i as nat).len(),
            ));
        }
    }

    /// Writes the cross-reference table and trailer and hands back the
    /// rest of the file: what was not handed out yet, then the tail.
    pub fn finish(self) -> (r: Vec<u8>)
        requires
            self.wf(),
        ensures
            self.flushed() + r@ == self.written() + pdf_tail(self.object_offsets(), self.written().len()),
    {
        let ghost all = self.written();
        let ghost before = self.flushed();
        let flushed_len = self.flushed_len;
        let mut out = self.output;
        let offsets = self.offsets;
        let ghost body = out@;
        assert(all == before + body);
        let xref_offset = flushed_len + out.len() as u128;
        push_ascii(&mut out, "xref\n0 ");
        push_ascii_chars(&mut out, &decimal_chars(offsets.len() as u128));
        push_ascii(&mut out, "\n");
        push_ascii(&mut out, "0000000000 65535 f \n");
        let ghost before_entries = out@;
        let mut i: usize = 1;
        while i < offsets.len()
            invariant
                1 <= i <= offsets.len(),
                out@ == before_entries + xref_entries(offsets@, i as int),
            decreases offsets.len() - i,
        {
            let d = decimal_chars(offsets[i] as u128);
            let ghost d_text = d@;
            if d.len() < 10 {
                let mut k: usize = d.len();
                while k < 10
                    invariant
                        d.len() <= k <= 10,
                        out@ == before_entries + xref_entries(offsets@, i as int) + ascii(
                            Seq::new((k - d.len()) as nat, |_j: int| '0'),
                        ),
                    decreases 10 - k,
                {
                    out.push(48u8);
                    k = k + 1;
                    assert(ascii(Seq::new((k - d.len()) as nat, |_j: int| '0')) =~= ascii(
                        Seq::new((k - 1 - d.len()) as nat, |_j: int| '0'),
                    ).push(48u8));
                }
            }
            push_ascii_chars(&mut out, &d);
            push_ascii(&mut out, " 00000 n \n");
            i = i + 1;
            proof {
                let e = xref_entry(offsets@[i - 1] as nat);
                assert(zero_padded(offsets@[i - 1] as nat, 10) == (if d_text.len() >= 10 {
                    d_text
                } else {
                    Seq::new((10 - d_text.len()) as nat, |_j: int| '0') + d_text
                }));
                assert(out@ =~= before_entries + xref_entries(offsets@, i as int));
            }
        }
        push_ascii(&mut out, "trailer\n<< /Size ");
        push_ascii_chars(&mut out, &decimal_chars(offsets.len() as u128));
        push_ascii(&mut out, " /Root 1 0 R >>\nstartxref\n");
        push_ascii_chars(&mut out, &decimal_chars(xref_offset));
        push_ascii(&mut out, "\n%%EOF\n");
        assert(out@ =~= body + pdf_tail(offsets@, all.len()));
        assert(before + out@ =~= all + pdf_tail(offsets@, all.len()));
        out
    }

    /// The number of bytes written so far.
    pub fn total_len(&self) -> (r: u128)
        requires
            self.wf(),
        ensures
            r == self.written().len(),
    {
        self.flushed_len + self.output.len() as u128
    }

    /// Hands out the bytes written since the last hand-out.
    pub fn take_output(&mut self) -> (r: Vec<u8>)
        requires
            old(self).wf(),
            old(self).written().len() <= u64::MAX,
        ensures
            final(self).wf(),
            final(self).written() == old(self).written(),
            final(self).object_offsets() == old(self).object_offsets(),
            final(self).flushed() == old(self).written(),
            old(self).flushed() + r@ == old(self).written(),
    {
        let mut r: Vec<u8> = Vec::new();
        std::mem::swap(&mut r, &mut self.output);
        self.flushed_len = self.flushed_len + r.len() as u128;
        proof {
            self.flushed@ = self.flushed@ + r@;
            assert(self.written() =~= old(self).written());
        }
        r
    }


    /// Writes the next object, keeping track of the objects written; only a
    /// file grown past `u64::MAX` bytes (possible only after bytes were
    /// handed out) stops it.
    fn write_tracked(&mut self, id: usize, body: &[u8], Ghost(objs): Ghost<Seq<Seq<u8>>>) -> (r: Result<
        (),
        String,
    >)
        requires
            holds_objects(*old(self), objs),
            id == objs.len() + 1,
        ensures
            final(self).flushed() == old(self).flushed(),
            match r {
                Ok(()) => holds_objects(*final(self), objs.push(full_object(id as nat, body@))),
                Err(m) => m@ == "PDFが大きすぎます"@ && old(self).flushed().len() > 0,
            },
    {
        let ghost o = full_object(id as nat, body@);
        match self.write_object(id, body) {
            Err(m) => Err(m),
            Ok(()) => {
                proof {
                    lemma_flatten_push(objs, o);
                    lemma_starts_push(objs, o);
                    assert(self.written() =~= pdf_header() + flatten(objs.push(o)));
                    assert(self.object_offsets() =~= object_starts(objs.push(o)));
                }
                Ok(())
            },
        }
    }

    /// Writes the three objects of page `i`, or reports why it cannot.
    fn write_page(&mut self, i: usize, p: &PdfPageSource, preserve_position: bool, Ghost(objs): Ghost<
        Seq<Seq<u8>>,
    >) -> (r: Result<(), String>)
        requires
            holds_objects(*old(self), objs),
            objs.len() == 2 + 3 * i,
            3 * i + 5 <= usize::MAX,
        ensures
            final(self).flushed() == old(self).flushed(),
            match page_error(*p, preserve_position) {
                Some(e) => r matches Err(m) && m@ == e,
                None => (r is Ok && holds_objects(*final(self), objs + page_objects(i as nat, *p))) || (
                old(self).flushed().len() > 0 && (r matches Err(m) && m@ == "PDFが大きすぎます"@)),
            },
    {
        let bytes: &Vec<u8> = match &p.jpeg {
            None => {
                let mut m = chars_of(p.stem.as_str());
                push_str(&mut m, "のJPEGがありません");
                return Err(string_of(&m));
            },
            Some(Err(e)) => {
                let mut m = chars_of(p.jpeg_name.as_str());
                push_str(&mut m, "を読めません: ");
                push_str(&mut m, e.as_str());
                return Err(string_of(&m));
            },
            Some(Ok(b)) => b,
        };
        let c = match jpeg_components(bytes.as_slice()) {
            Err(e) => return Err(e),
            Ok(c) => c,
        };
        if c != 1 && c != 3 {
            let mut m = chars_of("未対応のJPEG成分数です: ");
            push_str(&mut m, p.jpeg_name.as_str());
            push_str(&mut m, " components=");
            push_all(&mut m, &decimal_chars(c as u128));
            return Err(string_of(&m));
        }
        let (w, h) = match &p.dimensions {
            Err(e) => {
                let mut m = chars_of("JPEG寸法を読めません: ");
                push_str(&mut m, e.as_str());
                return Err(string_of(&m));
            },
            Ok(d) => *d,
        };
        if preserve_position {
            if p.source_width == 0 || p.source_height == 0 {
                let mut m = chars_of(p.stem.as_str());
                push_str(&mut m, "の元キャンバス寸法が0です");
                return Err(string_of(&m));
            }
        } else {
            if p.crop_width == 0 || p.crop_height == 0 {
                let mut m = chars_of(p.stem.as_str());
                push_str(&mut m, "のcrop寸法が0です");
                return Err(string_of(&m));
            }
        }
        let page_id = 3 + 3 * i;
        let image_id = page_id + 1;
        let content_id = page_id + 2;
        // page object
        let mut t = chars_of(
            "<< /Type /Page /Parent 2 0 R /MediaBox [0 0 595.2756 841.8898] /Resources << /XObject << /Im0 ",
        );
        push_all(&mut t, &decimal_chars(image_id as u128));
        push_str(&mut t, " 0 R >> >> /Contents ");
        push_all(&mut t, &decimal_chars(content_id as u128));
        push_str(&mut t, " 0 R >>\n");
        let mut page_body: Vec<u8> = Vec::new();
        push_ascii_chars(&mut page_body, &t);
        let ghost o1 = full_object(page_id as nat, page_body@);
        match self.write_tracked(page_id, page_body.as_slice(), Ghost(objs)) {
            Err(m) => return Err(m),
            Ok(()) => {},
        }
        // image object
        let mut d = chars_of("<< /Type /XObject /Subtype /Image /Width ");
        push_all(&mut d, &decimal_chars(w as u128));
        push_str(&mut d, " /Height ");
        push_all(&mut d, &decimal_chars(h as u128));
        push_str(&mut d, " /ColorSpace ");
        if c == 1 {
            push_str(&mut d, "/DeviceGray");
        } else {
            push_str(&mut d, "/DeviceRGB");
        }
        push_str(&mut d, " /BitsPerComponent 8 /Filter /DCTDecode /Length ");
        push_all(&mut d, &decimal_chars(bytes.len() as u128));
        push_str(&mut d, " >>\nstream\n");
        let mut image_body: Vec<u8> = Vec::new();
        push_ascii_chars(&mut image_body, &d);
        push_bytes(&mut image_body, bytes.as_slice());
        push_ascii(&mut image_body, "\nendstream\n");
        let ghost objs1 = objs.push(o1);
        let ghost o2 = full_object(image_id as nat, image_body@);
        match self.write_tracked(image_id, image_body.as_slice(), Ghost(objs1)) {
            Err(m) => return Err(m),
            Ok(()) => {},
        }
        // content object
        let content = p.content.as_str().as_bytes();
        let mut l = chars_of("<< /Length ");
        push_all(&mut l, &decimal_chars(content.len() as u128));
        push_str(&mut l, " >>\nstream\n");
        let mut content_body: Vec<u8> = Vec::new();
        push_ascii_chars(&mut content_body, &l);
        push_bytes(&mut content_body, content);
        push_ascii(&mut content_body, "endstream\n");
        let ghost objs2 = objs1.push(o2);
        let ghost o3 = full_object(content_id as nat, content_body@);
        match self.write_tracked(content_id, content_body.as_slice(), Ghost(objs2)) {
            Err(m) => return Err(m),
            Ok(()) => {},
        }
        proof {
            assert(o1 =~= page_object(i as nat));
            assert(o2 =~= image_object(i as nat, w as nat, h as nat, c == 1, bytes@));
            assert(o3 =~= content_object(i as nat, encode_utf8(p.content@)));
            assert(objs2.push(o3) =~= objs + page_objects(i as nat, *p));
        }
        Ok(())
    }


    /// Writes the catalog, the page tree and every page, stopping at the
    /// first page that cannot be written.
    #[verifier::rlimit(30)]
    pub fn write_document(&mut self, pages: &Vec<PdfPageSource>, preserve_position: bool) -> (r: Result<
        (),
        String,
    >)
        requires
            holds_objects(*old(self), Seq::empty()),
            3 * pages.len() + 5 <= usize::MAX,
        ensures
            final(self).flushed() == old(self).flushed(),
            (old(self).flushed().len() > 0 && (r matches Err(m) && m@ == "PDFが大きすぎます"@)) || match first_page_error(
                pages@,
                preserve_position,
                0,
            ) {
                Some(e) => r matches Err(m) && m@ == e,
                None => r is Ok && holds_objects(*final(self), document_objects(pages@)),
            },
    {
        let mut catalog: Vec<u8> = Vec::new();
        push_ascii(&mut catalog, "<< /Type /Catalog /Pages 2 0 R >>\n");
        match self.write_tracked(1, catalog.as_slice(), Ghost(Seq::empty())) {
            Err(m) => return Err(m),
            Ok(()) => {},
        }
        let ghost objs0 = Seq::<Seq<u8>>::empty().push(catalog_object());
        let mut kids: Vec<char> = Vec::new();
        let mut k: usize = 0;
        while k < pages.len()
            invariant
                k <= pages.len(),
                3 * pages.len() + 5 <= usize::MAX,
                kids@ == page_kids(k as nat),
            decreases pages.len() - k,
        {
            if k > 0 {
                push_str(&mut kids, " ");
            }
            push_all(&mut kids, &decimal_chars((3 + 3 * k) as u128));
            push_str(&mut kids, " 0 R");
            k = k + 1;
            assert(kids@ =~= page_kids(k as nat));
        }
        let mut tree = chars_of("<< /Type /Pages /Count ");
        push_all(&mut tree, &decimal_chars(pages.len() as u128));
        push_str(&mut tree, " /Kids [ ");
        push_all(&mut tree, &kids);
        push_str(&mut tree, " ] >>\n");
        let mut tree_bytes: Vec<u8> = Vec::new();
        push_ascii_chars(&mut tree_bytes, &tree);
        match self.write_tracked(2, tree_bytes.as_slice(), Ghost(objs0)) {
            Err(m) => return Err(m),
            Ok(()) => {},
        }
        let ghost objs1 = objs0.push(pages_object(pages.len() as nat));
        proof {
            assert(full_object(2, tree_bytes@) =~= pages_object(pages.len() as nat));
            assert(objs1 =~= seq![catalog_object(), pages_object(pages@.len())] + pages_objects(pages@, 0));
        }
        let mut i: usize = 0;
        while i < pages.len()
            invariant
                i <= pages.len(),
                3 * pages.len() + 5 <= usize::MAX,
                holds_objects(*self, seq![catalog_object(), pages_object(pages@.len())] + pages_objects(pages@, i as int)),
                self.flushed() == old(self).flushed(),
                first_page_error(pages@, preserve_position, 0) == first_page_error(pages@, preserve_position, i as int),
            decreases pages.len() - i,
        {
            let ghost objs = seq![catalog_object(), pages_object(pages@.len())] + pages_objects(pages@, i as int);
            proof {
                lemma_pages_objects_len(pages@, i as int);
            }
            let r = self.write_page(i, &pages[i], preserve_position, Ghost(objs));
            match r {
                Err(e) => {
                    return Err(e);
                },
                Ok(()) => {},
            }
            i = i + 1;
            proof {
                assert(objs + page_objects((i - 1) as nat, pages@[i - 1]) =~= seq![catalog_object(), pages_object(pages@.len())] + pages_objects(pages@, i as int));
            }
        }
        Ok(())
    }

}


proof fn lemma_pages_objects_prefix(a: Seq<PdfPageSource>, b: Seq<PdfPageSource>, n: int)
    requires
        0 <= n <= a.len(),
        n <= b.len(),
        forall|j: int| 0 <= j < n ==> #[trigger] a[j] == b[j],
    ensures
        pages_objects(a, n) == pages_objects(b, n),
    decreases n,
{
    if n > 0 {
        lemma_pages_objects_prefix(a, b, n - 1);
        assert(a[n - 1] == b[n - 1]);
    }
}

/// A book-scan PDF written page by page, so that only one page's JPEG is
/// needed at a time: first the header, catalog and page tree, then each
/// page's objects as the page comes, then the cross-reference table and
/// trailer. Each step hands out the bytes it wrote.
pub struct PdfStream {
    writer: DirectPdfWriter,
    count: usize,
    next: usize,
    preserve_position: bool,
    done: Ghost<Seq<PdfPageSource>>,
}

impl PdfStream {
    /// The number of pages the PDF is to hold.
    pub closed spec fn page_count(&self) -> nat {
        self.count as nat
    }

    /// The pages written so far.
    pub closed spec fn pages_written(&self) -> Seq<PdfPageSource> {
        self.done@
    }

    /// Whether pages are placed at their position on the source canvas.
    pub closed spec fn preserves_position(&self) -> bool {
        self.preserve_position
    }

    /// The bytes handed out so far.
    pub closed spec fn bytes_out(&self) -> Seq<u8> {
        self.writer.flushed()
    }

    /// Everything written has been handed out, and it is the header, the
    /// catalog, the page tree and the objects of the pages written.
    pub closed spec fn inv(&self) -> bool {
        &&& holds_objects(
            self.writer,
            seq![catalog_object(), pages_object(self.count as nat)] + pages_objects(
                self.done@,
                self.done@.len() as int,
            ),
        )
        &&& self.writer.flushed() == self.writer.written()
        &&& self.next == self.done@.len()
        &&& self.next <= self.count
        &&& 3 * self.count + 5 <= usize::MAX
    }

    /// Starts a PDF of `count` pages: hands out its header, catalog and
    /// page tree. No pages is an error.
    pub fn start(count: usize, preserve_position: bool) -> (r: Result<(PdfStream, Vec<u8>), String>)
        requires
            3 * count + 5 <= usize::MAX,
        ensures
            match r {
                Ok((s, b)) => count > 0 && s.inv() && s.page_count() == count && s.pages_written()
                    == Seq::<PdfPageSource>::empty() && s.preserves_position() == preserve_position
                    && s.bytes_out() == b@,
                Err(m) => count == 0 && m@ == "PDFへ書き出すページがありません"@,
            },
    {
        if count == 0 {
            return Err(String::from_str("PDFへ書き出すページがありません"));
        }
        let mut writer = DirectPdfWriter::new();
        proof {
            assert(pdf_header() + flatten(Seq::<Seq<u8>>::empty()) =~= pdf_header());
            assert(object_starts(Seq::<Seq<u8>>::empty()) =~= seq![0u64]);
        }
        let mut catalog: Vec<u8> = Vec::new();
        push_ascii(&mut catalog, "<< /Type /Catalog /Pages 2 0 R >>\n");
        let _ = writer.write_tracked(1, catalog.as_slice(), Ghost(Seq::empty()));
        let ghost objs0 = Seq::<Seq<u8>>::empty().push(catalog_object());
        let mut kids: Vec<char> = Vec::new();
        let mut k: usize = 0;
        while k < count
            invariant
                k <= count,
                3 * count + 5 <= usize::MAX,
                kids@ == page_kids(k as nat),
            decreases count - k,
        {
            if k > 0 {
                push_str(&mut kids, " ");
            }
            push_all(&mut kids, &decimal_chars((3 + 3 * k) as u128));
            push_str(&mut kids, " 0 R");
            k = k + 1;
            assert(kids@ =~= page_kids(k as nat));
        }
        let mut tree = chars_of("<< /Type /Pages /Count ");
        push_all(&mut tree, &decimal_chars(count as u128));
        push_str(&mut tree, " /Kids [ ");
        push_all(&mut tree, &kids);
        push_str(&mut tree, " ] >>\n");
        let mut tree_bytes: Vec<u8> = Vec::new();
        push_ascii_chars(&mut tree_bytes, &tree);
        let _ = writer.write_tracked(2, tree_bytes.as_slice(), Ghost(objs0));
        proof {
            assert(full_object(2, tree_bytes@) =~= pages_object(count as nat));
            assert(objs0.push(pages_object(count as nat)) =~= seq![catalog_object(), pages_object(count as nat)]
                + pages_objects(Seq::<PdfPageSource>::empty(), 0));
        }
        assert(writer.flushed().len() == 0);
        assert(writer.output.len() == writer.output@.len());
        assert(writer.written().len() == writer.flushed().len() + writer.output@.len());
        let bytes = writer.take_output();
        let s = PdfStream { writer, count, next: 0, preserve_position, done: Ghost(Seq::empty()) };
        Ok((s, bytes))
    }

    /// Writes the next page and hands out its objects; a page that cannot
    /// be written is an error, as is a file grown past `u64::MAX` bytes.
    pub fn add_page(&mut self, p: &PdfPageSource) -> (r: Result<Vec<u8>, String>)
        requires
            old(self).inv(),
            old(self).pages_written().len() < old(self).page_count(),
        ensures
            final(self).page_count() == old(self).page_count(),
            final(self).preserves_position() == old(self).preserves_position(),
            match page_error(*p, old(self).preserves_position()) {
                Some(e) => r matches Err(m) && m@ == e,
                None => (r matches Err(m) && m@ == "PDFが大きすぎます"@) || (r matches Ok(b)
                    && final(self).inv()
                    && final(self).pages_written() == old(self).pages_written().push(*p)
                    && final(self).bytes_out() == old(self).bytes_out() + b@),
            },
    {
        let ghost done = self.done@;
        let ghost objs = seq![catalog_object(), pages_object(self.count as nat)] + pages_objects(
            done,
            done.len() as int,
        );
        let i = self.next;
        proof {
            lemma_pages_objects_len(done, done.len() as int);
        }
        match self.writer.write_page(i, p, self.preserve_position, Ghost(objs)) {
            Err(m) => return Err(m),
            Ok(()) => {},
        }
        if self.writer.total_len() > u64::MAX as u128 {
            return Err(String::from_str("PDFが大きすぎます"));
        }
        let bytes = self.writer.take_output();
        self.next = i + 1;
        proof {
            let nd = done.push(*p);
            lemma_pages_objects_prefix(done, nd, i as int);
            assert(pages_objects(nd, i + 1) == pages_objects(nd, i as int) + page_objects(i as nat, nd[i as int]));
            assert(objs + page_objects(i as nat, *p) =~= seq![catalog_object(), pages_object(self.count as nat)]
                + pages_objects(nd, nd.len() as int));
            self.done = Ghost(nd);
        }
        Ok(bytes)
    }

    /// Writes the cross-reference table and trailer once every page is
    /// written: with the bytes handed out before, they make the file
    /// `write_pdf_bytes` makes of the same pages.
    pub fn finish(self) -> (r: Vec<u8>)
        requires
            self.inv(),
            self.pages_written().len() == self.page_count(),
        ensures
            self.bytes_out() + r@ == pdf_file(document_objects(self.pages_written())),
    {
        self.writer.finish()
    }
}

/// The bytes of a file holding `objs`: header, objects, cross-reference
/// table and trailer.
pub open spec fn pdf_file(objs: Seq<Seq<u8>>) -> Seq<u8> {
    pdf_header() + flatten(objs) + pdf_tail(
        object_starts(objs),
        pdf_header().len() + flatten(objs).len(),
    )
}

/// The book-scan PDF of `pages`: one A4 page per JPEG, placed as each
/// page's content says. No pages, or a page that cannot be written, is an
/// error.
pub fn write_pdf_bytes(pages: &Vec<PdfPageSource>, preserve_position: bool) -> (r: Result<
    Vec<u8>,
    String,
>)
    requires
        3 * pages.len() + 5 <= usize::MAX,
    ensures
        pages.len() == 0 ==> (r matches Err(m) && m@ == "PDFへ書き出すページがありません"@),
        pages.len() > 0 ==> match first_page_error(pages@, preserve_position, 0) {
            Some(e) => r matches Err(m) && m@ == e,
            None => r matches Ok(b) && b@ == pdf_file(document_objects(pages@)),
        },
{
    if pages.len() == 0 {
        return Err(String::from_str("PDFへ書き出すページがありません"));
    }
    let mut writer = DirectPdfWriter::new();
    proof {
        assert(pdf_header() + flatten(Seq::<Seq<u8>>::empty()) =~= pdf_header());
        assert(object_starts(Seq::<Seq<u8>>::empty()) =~= seq![0u64]);
    }
    match writer.write_document(pages, preserve_position) {
        Err(e) => Err(e),
        Ok(()) => Ok(writer.finish()),
    }
}


// ---------------------------------------------------------------------
// Cross-reference law

proof fn lemma_flatten_take_len(objs: Seq<Seq<u8>>, k: int)
    requires
        0 <= k <= objs.len(),
    ensures
        flatten(objs.take(k)).len() <= flatten(objs).len(),
        flatten(objs) == flatten(objs.take(k)) + flatten(objs.skip(k)),
    decreases objs.len() - k,
{
    if k == objs.len() {
        assert(objs.take(k) =~= objs);
        assert(objs.skip(k) =~= Seq::<Seq<u8>>::empty());
        assert(flatten(objs) + flatten(Seq::<Seq<u8>>::empty()) =~= flatten(objs));
    } else {
        lemma_flatten_take_len(objs.drop_last(), k);
        assert(objs.drop_last().take(k) =~= objs.take(k));
        assert(objs.skip(k).drop_last() =~= objs.drop_last().skip(k));
        assert(objs.skip(k).last() == objs.last());
        assert(flatten(objs) =~= flatten(objs.take(k)) + flatten(objs.skip(k)));
    }
}

proof fn lemma_flatten_slice(objs: Seq<Seq<u8>>, k: int)
    requires
        0 <= k < objs.len(),
    ensures
        flatten(objs.take(k)).len() + objs[k].len() <= flatten(objs).len(),
        flatten(objs).subrange(
            flatten(objs.take(k)).len() as int,
            (flatten(objs.take(k)).len() + objs[k].len()) as int,
        ) == objs[k],
{
    lemma_flatten_take_len(objs, k);
    lemma_flatten_take_len(objs, k + 1);
    assert(objs.take(k + 1).drop_last() =~= objs.take(k));
    assert(objs.take(k + 1).last() == objs[k]);
    let a = flatten(objs.take(k));
    assert(flatten(objs.take(k + 1)) == a + objs[k]);
    assert(flatten(objs).subrange(a.len() as int, (a.len() + objs[k].len()) as int) =~= objs[k]);
}

/// Object `k + 1` is the `k`-th of `objs` and starts with its own header.
pub open spec fn numbered(objs: Seq<Seq<u8>>) -> bool {
    forall|k: int|
        0 <= k < objs.len() ==> object_header((k + 1) as nat).len() <= (#[trigger] objs[k]).len()
            && objs[k].take(object_header((k + 1) as nat).len() as int) == object_header((k + 1) as nat)
}

proof fn lemma_full_object_numbered(id: nat, body: Seq<u8>)
    ensures
        object_header(id).len() <= full_object(id, body).len(),
        full_object(id, body).take(object_header(id).len() as int) == object_header(id),
{
    assert(full_object(id, body).take(object_header(id).len() as int) =~= object_header(id));
}

proof fn lemma_pages_objects_index(pages: Seq<PdfPageSource>, n: int, j: int, r: int)
    requires
        0 <= j < n,
        0 <= r < 3,
    ensures
        pages_objects(pages, n).len() == 3 * n,
        pages_objects(pages, n)[3 * j + r] == page_objects(j as nat, pages[j])[r],
    decreases n,
{
    lemma_pages_objects_len(pages, n);
    lemma_pages_objects_len(pages, n - 1);
    if j < n - 1 {
        lemma_pages_objects_index(pages, n - 1, j, r);
    }
}

proof fn lemma_document_numbered(pages: Seq<PdfPageSource>)
    ensures
        numbered(document_objects(pages)),
        document_objects(pages).len() == 3 * pages.len() + 2,
{
    let objs = document_objects(pages);
    lemma_pages_objects_len(pages, pages.len() as int);
    assert forall|k: int| 0 <= k < objs.len() implies object_header((k + 1) as nat).len() <= (
    #[trigger] objs[k]).len() && objs[k].take(object_header((k + 1) as nat).len() as int)
        == object_header((k + 1) as nat) by {
        if k == 0 {
            lemma_full_object_numbered(1, ascii("<< /Type /Catalog /Pages 2 0 R >>\n"@));
        } else if k == 1 {
            lemma_full_object_numbered(
                2,
                ascii(
                    "<< /Type /Pages /Count "@ + decimal(pages.len()) + " /Kids [ "@ + page_kids(
                        pages.len(),
                    ) + " ] >>\n"@,
                ),
            );
        } else {
            let j = (k - 2) / 3;
            let r = (k - 2) % 3;
            lemma_pages_objects_index(pages, pages.len() as int, j, r);
            assert(objs[k] == pages_objects(pages, pages.len() as int)[3 * j + r]);
            let p = pages[j];
            let bytes = p.jpeg->0->Ok_0@;
            let (w, h) = p.dimensions->Ok_0;
            let gray = jpeg_header_components(bytes)->Ok_0 == 1;
            let content = encode_utf8(p.content@);
            if r == 0 {
                lemma_full_object_numbered(
                    (3 + 3 * j) as nat,
                    ascii(
                        "<< /Type /Page /Parent 2 0 R /MediaBox [0 0 595.2756 841.8898] /Resources << /XObject << /Im0 "@
                            + decimal((4 + 3 * j) as nat) + " 0 R >> >> /Contents "@ + decimal(
                            (5 + 3 * j) as nat,
                        ) + " 0 R >>\n"@,
                    ),
                );
            } else if r == 1 {
                lemma_full_object_numbered(
                    (4 + 3 * j) as nat,
                    ascii(
                        "<< /Type /XObject /Subtype /Image /Width "@ + decimal(w as nat) + " /Height "@
                            + decimal(h as nat) + " /ColorSpace "@ + (if gray {
                            "/DeviceGray"@
                        } else {
                            "/DeviceRGB"@
                        }) + " /BitsPerComponent 8 /Filter /DCTDecode /Length "@ + decimal(bytes.len())
                            + " >>\nstream\n"@,
                    ) + bytes + ascii("\nendstream\n"@),
                );
            } else {
                lemma_full_object_numbered(
                    (5 + 3 * j) as nat,
                    ascii("<< /Length "@ + decimal(content.len()) + " >>\nstream\n"@) + content + ascii(
                        "endstream\n"@,
                    ),
                );
            }
        }
    }
}

/// In a written book-scan PDF, the cross-reference entry of each object
/// gives the byte offset at which that object's own `id 0 obj` line
/// starts.
pub proof fn lemma_xref_points_at_objects(pages: Seq<PdfPageSource>, i: int)
    requires
        1 <= i <= 3 * pages.len() + 2,
        pdf_header().len() + flatten(document_objects(pages)).len() <= u64::MAX,
    ensures
        ({
            let objs = document_objects(pages);
            let file = pdf_file(objs);
            let off = object_starts(objs)[i] as int;
            file.subrange(off, off + object_header(i as nat).len()) == object_header(i as nat)
        }),
{
    let objs = document_objects(pages);
    lemma_document_numbered(pages);
    lemma_flatten_slice(objs, i - 1);
    let file = pdf_file(objs);
    let before = flatten(objs.take(i - 1)).len();
    let off = pdf_header().len() + before;
    assert(object_starts(objs)[i] == off as u64);
    let h = object_header(i as nat);
    assert(objs[i - 1].take(h.len() as int) == h);
    assert(file.subrange(off as int, (off + h.len()) as int) =~= flatten(objs).subrange(
        before as int,
        (before + objs[i - 1].len()) as int,
    ).take(h.len() as int));
}

} // verus!
