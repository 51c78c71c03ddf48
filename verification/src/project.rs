//! Reading a ScanTailor project: from the XML events of the `.ScanTailor`
//! file, the size of each source image and the size and position of each
//! page ScanTailor wrote.
use vstd::prelude::*;
use crate::paths::{file_stem_of_name, name_part, simple_path};
use quick_xml::events::Event;
use std::io::Cursor;
use crate::text::{
    chars_of, float_literal, is_float_literal, is_text, parse_unsigned, parse_unsigned_chars, push_str,
    string_of,
};

verus! {

/// An attribute of an XML element: its local name and its raw value.
#[derive(Debug, Clone)]
pub struct XmlAttribute {
    pub key: String,
    pub value: String,
}

/// An XML event of the project file, element names local (without
/// namespace prefix). Each attribute is what reading it gave: the attribute
/// or the reader's complaint; nothing after a complaint is looked at.
/// `Other` stands for text, comments, declarations and the like.
#[derive(Debug)]
pub enum XmlEvent {
    Start { name: String, attributes: Vec<Result<XmlAttribute, String>> },
    Empty { name: String, attributes: Vec<Result<XmlAttribute, String>> },
    End { name: String },
    Other,
}

/// What reading an attribute gave, as text: its local name and value, or
/// the complaint.
pub type AttrView = Result<(Seq<char>, Seq<char>), Seq<char>>;

/// An XML event as text.
pub enum XmlEventView {
    Start(Seq<char>, Seq<AttrView>),
    Empty(Seq<char>, Seq<AttrView>),
    End(Seq<char>),
    Other,
}

pub open spec fn attr_view(a: Result<XmlAttribute, String>) -> AttrView {
    match a {
        Ok(x) => Ok((x.key@, x.value@)),
        Err(e) => Err(e@),
    }
}

pub open spec fn attrs_view(attrs: Seq<Result<XmlAttribute, String>>) -> Seq<AttrView> {
    attrs.map_values(|a: Result<XmlAttribute, String>| attr_view(a))
}

pub open spec fn event_view(e: XmlEvent) -> XmlEventView {
    match e {
        XmlEvent::Start { name, attributes } => XmlEventView::Start(name@, attrs_view(attributes@)),
        XmlEvent::Empty { name, attributes } => XmlEventView::Empty(name@, attrs_view(attributes@)),
        XmlEvent::End { name } => XmlEventView::End(name@),
        XmlEvent::Other => XmlEventView::Other,
    }
}

pub open spec fn events_view(events: Seq<XmlEvent>) -> Seq<XmlEventView> {
    events.map_values(|e: XmlEvent| event_view(e))
}

// ---------------------------------------------------------------------
// Attributes

/// From position `i`: the value of attribute `name`, or the first
/// complaint met before it, or that it is missing.
pub open spec fn attribute_from(attrs: Seq<AttrView>, name: Seq<char>, i: int) -> Result<
    Seq<char>,
    Seq<char>,
>
    decreases attrs.len() - i,
{
    if i < 0 || i >= attrs.len() {
        Err("XML属性"@ + name + "がありません"@)
    } else {
        match attrs[i] {
            Err(e) => Err("XML属性エラー: "@ + e),
            Ok(a) => if a.0 == name {
                Ok(a.1)
            } else {
                attribute_from(attrs, name, i + 1)
            },
        }
    }
}

/// The value of attribute `name`.
pub open spec fn attribute_of(attrs: Seq<AttrView>, name: Seq<char>) -> Result<
    Seq<char>,
    Seq<char>,
> {
    attribute_from(attrs, name, 0)
}

/// The value of attribute `name`.
pub fn attribute(attrs: &Vec<Result<XmlAttribute, String>>, name: &str) -> (r: Result<String, String>)
    ensures
        match r {
            Ok(v) => attribute_of(attrs_view(attrs@), name@) == Ok::<Seq<char>, Seq<char>>(v@),
            Err(e) => attribute_of(attrs_view(attrs@), name@) == Err::<Seq<char>, Seq<char>>(e@),
        },
{
    let mut i: usize = 0;
    while i < attrs.len()
        invariant
            i <= attrs.len(),
            attribute_of(attrs_view(attrs@), name@) == attribute_from(attrs_view(attrs@), name@, i as int),
        decreases attrs.len() - i,
    {
        match &attrs[i] {
            Err(e) => {
                let mut m = chars_of("XML属性エラー: ");
                push_str(&mut m, e.as_str());
                return Err(string_of(&m));
            },
            Ok(a) => {
                if is_text(&chars_of(a.key.as_str()), name) {
                    return Ok(a.value.clone());
                }
            },
        }
        i = i + 1;
    }
    let mut m = chars_of("XML属性");
    push_str(&mut m, name);
    push_str(&mut m, "がありません");
    Err(string_of(&m))
}

// ---------------------------------------------------------------------
// The model of what has been read

/// A source image: its file and size.
#[verifier::ext_equal]
pub struct ImageModel {
    pub file_id: Seq<char>,
    pub width: u32,
    pub height: u32,
}

/// An output page: the page it shows, its size, and the first corner of
/// its crop area (as text) where there is one.
#[verifier::ext_equal]
pub struct OutputModel {
    pub page_id: Seq<char>,
    pub width: u32,
    pub height: u32,
    pub crop_point: Option<(Seq<char>, Seq<char>)>,
}

/// What has been read of a project so far.
#[verifier::ext_equal]
pub struct ProjectModel {
    pub stack: Seq<Seq<char>>,
    pub files: Seq<(Seq<char>, Seq<char>)>,
    pub images: Seq<(Seq<char>, ImageModel)>,
    pub pages: Seq<(Seq<char>, Seq<char>)>,
    pub current_image: Option<Seq<char>>,
    pub current_output_page: Option<Seq<char>>,
    pub current_output: Option<OutputModel>,
    pub outputs: Seq<OutputModel>,
    pub in_output_image: bool,
    pub in_crop_area: bool,
}

/// Nothing read yet.
pub open spec fn empty_project() -> ProjectModel {
    ProjectModel {
        stack: Seq::empty(),
        files: Seq::empty(),
        images: Seq::empty(),
        pages: Seq::empty(),
        current_image: None,
        current_output_page: None,
        current_output: None,
        outputs: Seq::empty(),
        in_output_image: false,
        in_crop_area: false,
    }
}

/// Position of the last of the first `n` keys equal to `key`, or -1.
pub open spec fn last_key_index(keys: Seq<Seq<char>>, key: Seq<char>, n: int) -> int
    decreases n,
{
    if n <= 0 {
        -1
    } else if keys[n - 1] == key {
        n - 1
    } else {
        last_key_index(keys, key, n - 1)
    }
}

/// The keys of map entries.
pub open spec fn keys<V>(entries: Seq<(Seq<char>, V)>) -> Seq<Seq<char>> {
    entries.map_values(|e: (Seq<char>, V)| e.0)
}

/// Position of the last entry with `key` among the first `n`, or -1: a
/// later entry replaces an earlier one, as in a map.
pub open spec fn last_index<V>(entries: Seq<(Seq<char>, V)>, key: Seq<char>, n: int) -> int {
    last_key_index(keys(entries), key, n)
}

/// The value stored under `key`.
pub open spec fn lookup<V>(entries: Seq<(Seq<char>, V)>, key: Seq<char>) -> Option<V> {
    let k = last_index(entries, key, entries.len() as int);
    if k >= 0 {
        Some(entries[k].1)
    } else {
        None
    }
}

/// The entries read as a map: nothing is found in no entries, a key finds
/// the value last added under it, and adding under one key leaves every
/// other key's value as it was.
pub proof fn lemma_lookup_reads_last_write<V>(
    entries: Seq<(Seq<char>, V)>,
    key: Seq<char>,
    value: V,
    other: Seq<char>,
)
    requires
        other != key,
    ensures
        lookup(Seq::<(Seq<char>, V)>::empty(), key) is None,
        lookup(entries.push((key, value)), key) == Some(value),
        lookup(entries.push((key, value)), other) == lookup(entries, other),
{
    let pushed = entries.push((key, value));
    let n = entries.len() as int;
    assert(keys(pushed)[n] == key);
    assert forall|i: int| 0 <= i < n implies #[trigger] keys(pushed)[i] == keys(entries)[i] by {}
    lemma_last_key_index_prefix(keys(pushed), keys(entries), other, n);
    assert(keys(pushed)[n] != other);
    assert(keys(pushed).len() == n + 1);
    assert(last_index(pushed, other, n + 1) == last_key_index(keys(pushed), other, n));
    let k = last_index(entries, other, n);
    if k >= 0 {
        assert(pushed[k] == entries[k]);
    }
}

proof fn lemma_last_key_index_prefix(a: Seq<Seq<char>>, b: Seq<Seq<char>>, key: Seq<char>, n: int)
    requires
        0 <= n <= a.len(),
        n <= b.len(),
        forall|i: int| 0 <= i < n ==> #[trigger] a[i] == b[i],
    ensures
        last_key_index(a, key, n) == last_key_index(b, key, n),
        -1 <= last_key_index(a, key, n) < n,
    decreases n,
{
    if n > 0 {
        lemma_last_key_index_prefix(a, b, key, n - 1);
    }
}

/// The parent of the next element: the innermost open one.
pub open spec fn parent_of(s: ProjectModel) -> Option<Seq<char>> {
    if s.stack.len() > 0 {
        Some(s.stack.last())
    } else {
        None
    }
}

/// A `u32` attribute, with `message` where it does not read.
pub open spec fn u32_attribute(attrs: Seq<AttrView>, name: Seq<char>, message: Seq<
    char,
>) -> Result<u32, Seq<char>> {
    match attribute_of(attrs, name) {
        Err(e) => Err(e),
        Ok(v) => match parse_unsigned(v, 0xffff_ffff) {
            Some(n) => Ok(n as u32),
            None => Err(message),
        },
    }
}

/// A real-valued attribute, kept as text, with `message` where std's float
/// parser would refuse it.
pub open spec fn real_attribute(attrs: Seq<AttrView>, name: Seq<char>, message: Seq<
    char,
>) -> Result<Seq<char>, Seq<char>> {
    match attribute_of(attrs, name) {
        Err(e) => Err(e),
        Ok(v) => if float_literal(v) {
            Ok(v)
        } else {
            Err(message)
        },
    }
}

/// What an opening (or empty) element does to the project read so far.
pub open spec fn element_step(s: ProjectModel, name: Seq<char>, attrs: Seq<AttrView>) -> Result<
    ProjectModel,
    Seq<char>,
> {
    let parent = parent_of(s);
    if parent == Some("files"@) && name == "file"@ {
        match attribute_of(attrs, "id"@) {
            Err(e) => Err(e),
            Ok(id) => match attribute_of(attrs, "name"@) {
                Err(e) => Err(e),
                Ok(file) => Ok(ProjectModel { files: s.files.push((id, file)), ..s }),
            },
        }
    } else if parent == Some("images"@) && name == "image"@ {
        match attribute_of(attrs, "id"@) {
            Err(e) => Err(e),
            Ok(id) => match attribute_of(attrs, "fileId"@) {
                Err(e) => Err(e),
                Ok(file_id) => Ok(
                    ProjectModel {
                        images: s.images.push((id, ImageModel { file_id, width: 0, height: 0 })),
                        current_image: Some(id),
                        ..s
                    },
                ),
            },
        }
    } else if parent == Some("image"@) && name == "size"@ && s.current_image is Some
        && !s.in_output_image {
        match u32_attribute(attrs, "width"@, "widthが不正です"@) {
            Err(e) => Err(e),
            Ok(w) => match u32_attribute(attrs, "height"@, "heightが不正です"@) {
                Err(e) => Err(e),
                Ok(h) => {
                    let id = s.current_image->0;
                    let k = last_index(s.images, id, s.images.len() as int);
                    Ok(
                        ProjectModel {
                            images: s.images.update(
                                k,
                                (id, ImageModel { file_id: s.images[k].1.file_id, width: w, height: h }),
                            ),
                            ..s
                        },
                    )
                },
            },
        }
    } else if parent == Some("pages"@) && name == "page"@ {
        match attribute_of(attrs, "id"@) {
            Err(e) => Err(e),
            Ok(id) => match attribute_of(attrs, "imageId"@) {
                Err(e) => Err(e),
                Ok(image) => Ok(ProjectModel { pages: s.pages.push((id, image)), ..s }),
            },
        }
    } else if parent == Some("output"@) && name == "page"@ {
        match attribute_of(attrs, "id"@) {
            Err(e) => Err(e),
            Ok(id) => Ok(ProjectModel { current_output_page: Some(id), ..s }),
        }
    } else if parent == Some("output-params"@) && name == "image"@ && s.current_output_page is Some {
        Ok(
            ProjectModel {
                in_output_image: true,
                current_output: Some(
                    OutputModel {
                        page_id: s.current_output_page->0,
                        width: 0,
                        height: 0,
                        crop_point: None,
                    },
                ),
                ..s
            },
        )
    } else if parent == Some("image"@) && name == "size"@ && s.in_output_image {
        match s.current_output {
            None => Err("output情報がありません"@),
            Some(o) => match u32_attribute(attrs, "width"@, "widthが不正です"@) {
                Err(e) => Err(e),
                Ok(w) => match u32_attribute(attrs, "height"@, "heightが不正です"@) {
                    Err(e) => Err(e),
                    Ok(h) => Ok(
                        ProjectModel {
                            current_output: Some(OutputModel { width: w, height: h, ..o }),
                            ..s
                        },
                    ),
                },
            },
        }
    } else if parent == Some("image"@) && name == "crop-area"@ && s.in_output_image {
        Ok(ProjectModel { in_crop_area: true, ..s })
    } else if parent == Some("crop-area"@) && name == "point"@ && s.in_crop_area {
        match s.current_output {
            None => Err("output情報がありません"@),
            Some(o) => if o.crop_point is Some {
                Ok(s)
            } else {
                match real_attribute(attrs, "x"@, "xが不正です"@) {
                    Err(e) => Err(e),
                    Ok(x) => match real_attribute(attrs, "y"@, "yが不正です"@) {
                        Err(e) => Err(e),
                        Ok(y) => Ok(
                            ProjectModel {
                                current_output: Some(OutputModel { crop_point: Some((x, y)), ..o }),
                                ..s
                            },
                        ),
                    },
                }
            },
        }
    } else {
        Ok(s)
    }
}

/// What a closing element does, before it is taken off the stack.
pub open spec fn end_step(s: ProjectModel, name: Seq<char>) -> ProjectModel {
    if name == "image"@ && s.in_output_image {
        ProjectModel { in_output_image: false, ..s }
    } else if name == "image"@ {
        ProjectModel { current_image: None, ..s }
    } else if name == "crop-area"@ {
        ProjectModel { in_crop_area: false, ..s }
    } else if name == "output-params"@ && s.current_output is Some {
        ProjectModel { outputs: s.outputs.push(s.current_output->0), current_output: None, ..s }
    } else if name == "page"@ && s.stack.contains("output"@) {
        ProjectModel { current_output_page: None, ..s }
    } else {
        s
    }
}

/// The stack without its innermost element (unchanged when empty).
pub open spec fn popped(stack: Seq<Seq<char>>) -> Seq<Seq<char>> {
    if stack.len() > 0 {
        stack.drop_last()
    } else {
        stack
    }
}

/// What one event does to the project read so far.
pub open spec fn event_step(s: ProjectModel, e: XmlEventView) -> Result<ProjectModel, Seq<char>> {
    match e {
        XmlEventView::Start(name, attributes) => match element_step(s, name, attributes) {
            Err(m) => Err(m),
            Ok(t) => Ok(ProjectModel { stack: t.stack.push(name), ..t }),
        },
        XmlEventView::Empty(name, attributes) => element_step(s, name, attributes),
        XmlEventView::End(name) => {
            let t = end_step(s, name);
            Ok(ProjectModel { stack: popped(t.stack), ..t })
        },
        XmlEventView::Other => Ok(s),
    }
}

/// The project after the first `n` events, or the first complaint.
pub open spec fn read_events(events: Seq<XmlEventView>, n: int) -> Result<ProjectModel, Seq<char>>
    decreases n,
{
    if n <= 0 {
        Ok(empty_project())
    } else {
        match read_events(events, n - 1) {
            Err(m) => Err(m),
            Ok(s) => event_step(s, events[n - 1]),
        }
    }
}


// ---------------------------------------------------------------------
// Reading

/// A source image as read.
#[derive(Debug, Clone)]
pub struct ImageEntry {
    pub file_id: String,
    pub width: u32,
    pub height: u32,
}

/// An output page as read; `crop_point` holds the texts of the first
/// corner of its crop area.
#[derive(Debug, Clone)]
pub struct OutputEntry {
    pub page_id: String,
    pub width: u32,
    pub height: u32,
    pub crop_point: Option<(String, String)>,
}

pub open spec fn pair_view(p: (String, String)) -> (Seq<char>, Seq<char>) {
    (p.0@, p.1@)
}

pub open spec fn pairs_view(v: Seq<(String, String)>) -> Seq<(Seq<char>, Seq<char>)> {
    v.map_values(|p: (String, String)| pair_view(p))
}

pub open spec fn image_view(e: ImageEntry) -> ImageModel {
    ImageModel { file_id: e.file_id@, width: e.width, height: e.height }
}

pub open spec fn images_view(v: Seq<(String, ImageEntry)>) -> Seq<(Seq<char>, ImageModel)> {
    v.map_values(|p: (String, ImageEntry)| (p.0@, image_view(p.1)))
}

pub open spec fn crop_view(c: Option<(String, String)>) -> Option<(Seq<char>, Seq<char>)> {
    match c {
        Some(p) => Some(pair_view(p)),
        None => None,
    }
}

pub open spec fn output_view(o: OutputEntry) -> OutputModel {
    OutputModel {
        page_id: o.page_id@,
        width: o.width,
        height: o.height,
        crop_point: crop_view(o.crop_point),
    }
}

pub open spec fn outputs_view(v: Seq<OutputEntry>) -> Seq<OutputModel> {
    v.map_values(|o: OutputEntry| output_view(o))
}

pub open spec fn text_view(o: Option<String>) -> Option<Seq<char>> {
    match o {
        Some(t) => Some(t@),
        None => None,
    }
}

/// Reads a project file event by event.
pub struct ProjectReader {
    stack: Vec<String>,
    files: Vec<(String, String)>,
    images: Vec<(String, ImageEntry)>,
    pages: Vec<(String, String)>,
    current_image: Option<String>,
    current_output_page: Option<String>,
    current_output: Option<OutputEntry>,
    outputs: Vec<OutputEntry>,
    in_output_image: bool,
    in_crop_area: bool,
}

impl ProjectReader {
    /// What has been read.
    pub closed spec fn model(&self) -> ProjectModel {
        ProjectModel {
            stack: self.stack@.map_values(|t: String| t@),
            files: pairs_view(self.files@),
            images: images_view(self.images@),
            pages: pairs_view(self.pages@),
            current_image: text_view(self.current_image),
            current_output_page: text_view(self.current_output_page),
            current_output: match self.current_output {
                Some(o) => Some(output_view(o)),
                None => None,
            },
            outputs: outputs_view(self.outputs@),
            in_output_image: self.in_output_image,
            in_crop_area: self.in_crop_area,
        }
    }

    /// The outputs read so far, as read.
    pub closed spec fn output_entries(&self) -> Seq<OutputEntry> {
        self.outputs@
    }

    /// The current image, where there is one, has been recorded.
    pub open spec fn wf(&self) -> bool {
        self.model().current_image matches Some(id) ==> last_index(
            self.model().images,
            id,
            self.model().images.len() as int,
        ) >= 0
    }

    /// A reader that has read nothing.
    pub fn new() -> (r: Self)
        ensures
            r.wf(),
            r.model() == empty_project(),
    {
        let r = ProjectReader {
            stack: Vec::new(),
            files: Vec::new(),
            images: Vec::new(),
            pages: Vec::new(),
            current_image: None,
            current_output_page: None,
            current_output: None,
            outputs: Vec::new(),
            in_output_image: false,
            in_crop_area: false,
        };
        assert(r.model() =~= empty_project());
        r
    }
}


/// The keys of entries as read.
pub open spec fn entry_keys<V>(v: Seq<(String, V)>) -> Seq<Seq<char>> {
    v.map_values(|e: (String, V)| e.0@)
}

/// Position of the last entry with `key`.
fn find_last_key<V>(entries: &Vec<(String, V)>, key: &str) -> (r: Option<usize>)
    ensures
        match r {
            Some(k) => k == last_key_index(entry_keys(entries@), key@, entries@.len() as int) && k
                < entries@.len(),
            None => last_key_index(entry_keys(entries@), key@, entries@.len() as int) == -1,
        },
{
    let ghost ks = entry_keys(entries@);
    let k = chars_of(key);
    let mut n: usize = entries.len();
    while n > 0
        invariant
            n <= entries.len(),
            ks == entry_keys(entries@),
            k@ == key@,
            last_key_index(ks, key@, entries@.len() as int) == last_key_index(ks, key@, n as int),
        decreases n,
    {
        if is_text(&chars_of(entries[n - 1].0.as_str()), key) {
            assert(ks[n - 1] == key@);
            return Some(n - 1);
        }
        n = n - 1;
    }
    None
}

fn u32_attr(attrs: &Vec<Result<XmlAttribute, String>>, name: &str, message: &str) -> (r: Result<
    u32,
    String,
>)
    ensures
        match r {
            Ok(v) => u32_attribute(attrs_view(attrs@), name@, message@) == Ok::<u32, Seq<char>>(v),
            Err(e) => u32_attribute(attrs_view(attrs@), name@, message@) == Err::<u32, Seq<char>>(e@),
        },
{
    match attribute(attrs, name) {
        Err(e) => Err(e),
        Ok(v) => match parse_unsigned_chars(&chars_of(v.as_str()), 0xffff_ffff) {
            Some(n) => Ok(n as u32),
            None => Err(message.to_string()),
        },
    }
}

fn real_attr(attrs: &Vec<Result<XmlAttribute, String>>, name: &str, message: &str) -> (r: Result<
    String,
    String,
>)
    ensures
        match r {
            Ok(v) => real_attribute(attrs_view(attrs@), name@, message@) == Ok::<Seq<char>, Seq<char>>(v@),
            Err(e) => real_attribute(attrs_view(attrs@), name@, message@) == Err::<Seq<char>, Seq<char>>(e@),
        },
{
    match attribute(attrs, name) {
        Err(e) => Err(e),
        Ok(v) => if is_float_literal(&chars_of(v.as_str())) {
            Ok(v)
        } else {
            Err(message.to_string())
        },
    }
}

proof fn lemma_last_key_index(ks: Seq<Seq<char>>, key: Seq<char>, n: int)
    requires
        0 <= n <= ks.len(),
    ensures
        -1 <= last_key_index(ks, key, n) < n,
        last_key_index(ks, key, n) >= 0 ==> ks[last_key_index(ks, key, n)] == key,
    decreases n,
{
    if n > 0 && ks[n - 1] != key {
        lemma_last_key_index(ks, key, n - 1);
    }
}

fn clone_output(o: &OutputEntry) -> (r: OutputEntry)
    ensures
        output_view(r) == output_view(*o),
{
    let crop_point = match &o.crop_point {
        Some((x, y)) => Some((x.clone(), y.clone())),
        None => None,
    };
    OutputEntry { page_id: o.page_id.clone(), width: o.width, height: o.height, crop_point }
}

impl ProjectReader {
    proof fn lemma_keys(&self)
        ensures
            keys(self.model().files) == entry_keys(self.files@),
            keys(self.model().images) == entry_keys(self.images@),
            keys(self.model().pages) == entry_keys(self.pages@),
    {
        assert(keys(self.model().files) =~= entry_keys(self.files@));
        assert(keys(self.model().images) =~= entry_keys(self.images@));
        assert(keys(self.model().pages) =~= entry_keys(self.pages@));
    }

    fn parent_is(&self, name: &str) -> (r: bool)
        ensures
            r == (parent_of(self.model()) == Some(name@)),
    {
        if self.stack.len() == 0 {
            false
        } else {
            let last = &self.stack[self.stack.len() - 1];
            let r = is_text(&chars_of(last.as_str()), name);
            assert(self.model().stack.last() == last@);
            r
        }
    }

    /// Reads an opening or empty element.
    fn handle_element(&mut self, name: &String, attrs: &Vec<Result<XmlAttribute, String>>) -> (r:
        Result<(), String>)
        requires
            old(self).wf(),
        ensures
            match element_step(old(self).model(), name@, attrs_view(attrs@)) {
                Ok(t) => r is Ok && final(self).model() == t && final(self).wf(),
                Err(m) => r matches Err(e) && e@ == m,
            },
    {
        let ghost s = self.model();
        let n = chars_of(name.as_str());
        proof {
            self.lemma_keys();
        }
        if self.parent_is("files") && is_text(&n, "file") {
            let id = attribute(attrs, "id")?;
            let file = attribute(attrs, "name")?;
            self.files.push((id, file));
            proof {
                assert(self.model() =~= ProjectModel { files: s.files.push((id@, file@)), ..s });
                self.lemma_keys();
            }
            return Ok(());
        }
        if self.parent_is("images") && is_text(&n, "image") {
            let id = attribute(attrs, "id")?;
            let file_id = attribute(attrs, "fileId")?;
            self.images.push((id.clone(), ImageEntry { file_id, width: 0, height: 0 }));
            self.current_image = Some(id);
            proof {
                assert(self.model() =~= ProjectModel {
                    images: s.images.push((id@, ImageModel { file_id: file_id@, width: 0, height: 0 })),
                    current_image: Some(id@),
                    ..s
                });
                self.lemma_keys();
                assert(entry_keys(self.images@)[self.images@.len() - 1] == id@);
            }
            return Ok(());
        }
        if self.parent_is("image") && is_text(&n, "size") && self.current_image.is_some()
            && !self.in_output_image {
            let w = u32_attr(attrs, "width", "widthが不正です")?;
            let h = u32_attr(attrs, "height", "heightが不正です")?;
            let id = self.current_image.clone().unwrap();
            let k = find_last_key(&self.images, id.as_str()).unwrap();
            proof {
                lemma_last_key_index(entry_keys(self.images@), id@, self.images@.len() as int);
            }
            let file_id = self.images[k].1.file_id.clone();
            let entry = (id.clone(), ImageEntry { file_id, width: w, height: h });
            self.images.set(k, entry);
            proof {
                assert(self.model() =~= ProjectModel {
                    images: s.images.update(
                        k as int,
                        (id@, ImageModel { file_id: s.images[k as int].1.file_id, width: w, height: h }),
                    ),
                    ..s
                });
                self.lemma_keys();
                assert(entry_keys(self.images@) =~= entry_keys(old(self).images@));
            }
            return Ok(());
        }
        if self.parent_is("pages") && is_text(&n, "page") {
            let id = attribute(attrs, "id")?;
            let image = attribute(attrs, "imageId")?;
            self.pages.push((id, image));
            proof {
                assert(self.model() =~= ProjectModel { pages: s.pages.push((id@, image@)), ..s });
            }
            return Ok(());
        }
        if self.parent_is("output") && is_text(&n, "page") {
            let id = attribute(attrs, "id")?;
            self.current_output_page = Some(id);
            proof {
                assert(self.model() =~= ProjectModel { current_output_page: Some(id@), ..s });
            }
            return Ok(());
        }
        if self.parent_is("output-params") && is_text(&n, "image") && self.current_output_page.is_some() {
            self.in_output_image = true;
            let page_id = self.current_output_page.clone().unwrap();
            self.current_output = Some(OutputEntry { page_id, width: 0, height: 0, crop_point: None });
            proof {
                assert(self.model() =~= ProjectModel {
                    in_output_image: true,
                    current_output: Some(
                        OutputModel {
                            page_id: s.current_output_page->0,
                            width: 0,
                            height: 0,
                            crop_point: None,
                        },
                    ),
                    ..s
                });
            }
            return Ok(());
        }
        if self.parent_is("image") && is_text(&n, "size") && self.in_output_image {
            if self.current_output.is_none() {
                return Err("output情報がありません".to_string());
            }
            let w = u32_attr(attrs, "width", "widthが不正です")?;
            let h = u32_attr(attrs, "height", "heightが不正です")?;
            let mut o = match &self.current_output {
                Some(c) => clone_output(c),
                None => OutputEntry { page_id: String::new(), width: 0, height: 0, crop_point: None },
            };
            o.width = w;
            o.height = h;
            self.current_output = Some(o);
            proof {
                let om = s.current_output->0;
                assert(self.model() =~= ProjectModel {
                    current_output: Some(OutputModel { width: w, height: h, ..om }),
                    ..s
                });
            }
            return Ok(());
        }
        if self.parent_is("image") && is_text(&n, "crop-area") && self.in_output_image {
            self.in_crop_area = true;
            proof {
                assert(self.model() =~= ProjectModel { in_crop_area: true, ..s });
            }
            return Ok(());
        }
        if self.parent_is("crop-area") && is_text(&n, "point") && self.in_crop_area {
            if self.current_output.is_none() {
                return Err("output情報がありません".to_string());
            }
            let mut o = match &self.current_output {
                Some(c) => clone_output(c),
                None => OutputEntry { page_id: String::new(), width: 0, height: 0, crop_point: None },
            };
            if o.crop_point.is_some() {
                return Ok(());
            }
            let x = real_attr(attrs, "x", "xが不正です")?;
            let y = real_attr(attrs, "y", "yが不正です")?;
            o.crop_point = Some((x, y));
            self.current_output = Some(o);
            proof {
                let om = s.current_output->0;
                assert(self.model() =~= ProjectModel {
                    current_output: Some(OutputModel { crop_point: Some((x@, y@)), ..om }),
                    ..s
                });
            }
            return Ok(());
        }
        Ok(())
    }
}


impl ProjectReader {
    fn stack_contains(&self, name: &str) -> (r: bool)
        ensures
            r == self.model().stack.contains(name@),
    {
        let mut i: usize = 0;
        while i < self.stack.len()
            invariant
                i <= self.stack.len(),
                forall|j: int| 0 <= j < i ==> self.model().stack[j] != name@,
            decreases self.stack.len() - i,
        {
            if is_text(&chars_of(self.stack[i].as_str()), name) {
                assert(self.model().stack[i as int] == name@);
                return true;
            }
            i = i + 1;
        }
        false
    }

    /// Reads a closing element.
    fn handle_end(&mut self, name: &String)
        requires
            old(self).wf(),
        ensures
            final(self).wf(),
            final(self).model() == ({
                let t = end_step(old(self).model(), name@);
                ProjectModel { stack: popped(t.stack), ..t }
            }),
    {
        let ghost s = self.model();
        let n = chars_of(name.as_str());
        if is_text(&n, "image") && self.in_output_image {
            self.in_output_image = false;
        } else if is_text(&n, "image") {
            self.current_image = None;
        } else if is_text(&n, "crop-area") {
            self.in_crop_area = false;
        } else if is_text(&n, "output-params") && self.current_output.is_some() {
            let o = match &self.current_output {
                Some(c) => clone_output(c),
                None => OutputEntry { page_id: String::new(), width: 0, height: 0, crop_point: None },
            };
            self.outputs.push(o);
            self.current_output = None;
        } else if is_text(&n, "page") && self.stack_contains("output") {
            self.current_output_page = None;
        }
        let ghost t = end_step(s, name@);
        assert(self.model().stack == s.stack);
        let _ = self.stack.pop();
        proof {
            assert(self.model() =~= ProjectModel { stack: popped(t.stack), ..t });
            assert(self.model().images == s.images);
        }
    }

    /// Reads one event.
    pub fn handle_event(&mut self, e: &XmlEvent) -> (r: Result<(), String>)
        requires
            old(self).wf(),
        ensures
            match event_step(old(self).model(), event_view(*e)) {
                Ok(t) => r is Ok && final(self).model() == t && final(self).wf(),
                Err(m) => r matches Err(x) && x@ == m,
            },
    {
        match e {
            XmlEvent::Start { name, attributes } => {
                let ghost s = self.model();
                self.handle_element(name, attributes)?;
                let ghost t = self.model();
                self.stack.push(name.clone());
                proof {
                    assert(self.model() =~= ProjectModel { stack: t.stack.push(name@), ..t });
                }
                Ok(())
            },
            XmlEvent::Empty { name, attributes } => self.handle_element(name, attributes),
            XmlEvent::End { name } => {
                self.handle_end(name);
                Ok(())
            },
            XmlEvent::Other => Ok(()),
        }
    }
}

// ---------------------------------------------------------------------
// The pages of a project

/// The file and source image behind an output page, or why they cannot be
/// found.
pub open spec fn resolve(s: ProjectModel, o: OutputModel) -> Result<(Seq<char>, ImageModel), Seq<char>> {
    match lookup(s.pages, o.page_id) {
        None => Err("page "@ + o.page_id + "のimageIdがありません"@),
        Some(image_id) => match lookup(s.images, image_id) {
            None => Err("image "@ + image_id + "がありません"@),
            Some(image) => match lookup(s.files, image.file_id) {
                None => Err("file "@ + image.file_id + "がありません"@),
                Some(file) => Ok((file, image)),
            },
        },
    }
}

/// A page ScanTailor wrote, keyed by the stem of its source file.
#[derive(Debug, Clone)]
pub struct ParsedPage {
    pub stem: String,
    pub source_width: u32,
    pub source_height: u32,
    pub width: u32,
    pub height: u32,
    /// Texts of the first crop-area corner; the page sits at minus these.
    pub crop_point: Option<(String, String)>,
}

/// `p` describes output `o` of source image `image`, read from `file`:
/// where `file` is a plain path, `p` is keyed by the stem of its name.
pub open spec fn describes(p: ParsedPage, o: OutputModel, file: Seq<char>, image: ImageModel) -> bool {
    &&& simple_path(file) ==> p.stem@ == file_stem_of_name(name_part(file))
    &&& p.source_width == image.width
    &&& p.source_height == image.height
    &&& p.width == o.width
    &&& p.height == o.height
    &&& crop_view(p.crop_point) == o.crop_point
}

/// What reading the pages of project `s` gives: for each output page in
/// order, a page that describes it; or the complaint about the first output
/// whose file cannot be found, or whose file name has no stem (which a
/// plain file path always has).
pub open spec fn pages_result(s: ProjectModel, r: Result<Vec<ParsedPage>, String>) -> bool {
    match r {
        Ok(list) => list@.len() == s.outputs.len() && forall|i: int|
            0 <= i < list@.len() ==> (resolve(s, s.outputs[i]) matches Ok(found) && describes(
                #[trigger] list@[i],
                s.outputs[i],
                found.0,
                found.1,
            )),
        Err(m) => exists|k: int|
            0 <= k < s.outputs.len() && (forall|j: int|
                0 <= j < k ==> #[trigger] resolve(s, s.outputs[j]) is Ok) && (resolve(s, s.outputs[k])
                == Err::<(Seq<char>, ImageModel), Seq<char>>(m@) || (resolve(s, s.outputs[k]) matches Ok(
                found,
            ) && !simple_path(found.0) && m@ == "不正なファイル名です: "@ + found.0)),
    }
}

impl ProjectReader {
    fn lookup_pair(entries: &Vec<(String, String)>, key: &str) -> (r: Option<String>)
        ensures
            match r {
                Some(v) => lookup(pairs_view(entries@), key@) == Some(v@),
                None => lookup(pairs_view(entries@), key@) is None,
            },
    {
        let ghost m = pairs_view(entries@);
        assert(keys(m) =~= entry_keys(entries@));
        proof {
            lemma_last_key_index(entry_keys(entries@), key@, entries@.len() as int);
        }
        match find_last_key(entries, key) {
            Some(k) => Some(entries[k].1.clone()),
            None => None,
        }
    }

    fn lookup_image(&self, key: &str) -> (r: Option<ImageEntry>)
        ensures
            match r {
                Some(v) => lookup(self.model().images, key@) == Some(image_view(v)),
                None => lookup(self.model().images, key@) is None,
            },
    {
        proof {
            self.lemma_keys();
            lemma_last_key_index(entry_keys(self.images@), key@, self.images@.len() as int);
        }
        match find_last_key(&self.images, key) {
            Some(k) => {
                let e = &self.images[k].1;
                Some(ImageEntry { file_id: e.file_id.clone(), width: e.width, height: e.height })
            },
            None => None,
        }
    }

    /// The pages of everything read: for each output page in order, its
    /// source file's stem, its source size and its own size and crop corner.
    pub fn finish(&self) -> (r: Result<Vec<ParsedPage>, String>)
        ensures
            pages_result(self.model(), r),
    {
        let ghost s = self.model();
        proof {
            assert(pairs_view(self.pages@) == s.pages);
            assert(pairs_view(self.files@) == s.files);
        }
        let mut list: Vec<ParsedPage> = Vec::new();
        let mut i: usize = 0;
        while i < self.outputs.len()
            invariant
                i <= self.outputs.len(),
                s == self.model(),
                list@.len() == i,
                forall|j: int| 0 <= j < i ==> #[trigger] resolve(s, s.outputs[j]) is Ok,
                forall|j: int|
                    0 <= j < i ==> describes(
                        #[trigger] list@[j],
                        s.outputs[j],
                        resolve(s, s.outputs[j])->Ok_0.0,
                        resolve(s, s.outputs[j])->Ok_0.1,
                    ),
            decreases self.outputs.len() - i,
        {
            let o = &self.outputs[i];
            assert(s.outputs[i as int] == output_view(*o));
            let ghost om = s.outputs[i as int];
            let image_id = match Self::lookup_pair(&self.pages, o.page_id.as_str()) {
                Some(v) => v,
                None => {
                    let mut m = chars_of("page ");
                    push_str(&mut m, o.page_id.as_str());
                    push_str(&mut m, "のimageIdがありません");
                    let m = string_of(&m);
                    assert(resolve(s, om) == Err::<(Seq<char>, ImageModel), Seq<char>>(m@));
                    assert(forall|j: int| 0 <= j < i ==> #[trigger] resolve(s, s.outputs[j]) is Ok);
                    return Err(m);
                },
            };
            let image = match self.lookup_image(image_id.as_str()) {
                Some(v) => v,
                None => {
                    let mut m = chars_of("image ");
                    push_str(&mut m, image_id.as_str());
                    push_str(&mut m, "がありません");
                    let m = string_of(&m);
                    assert(resolve(s, om) == Err::<(Seq<char>, ImageModel), Seq<char>>(m@));
                    assert(forall|j: int| 0 <= j < i ==> #[trigger] resolve(s, s.outputs[j]) is Ok);
                    return Err(m);
                },
            };
            let file = match Self::lookup_pair(&self.files, image.file_id.as_str()) {
                Some(v) => v,
                None => {
                    let mut m = chars_of("file ");
                    push_str(&mut m, image.file_id.as_str());
                    push_str(&mut m, "がありません");
                    let m = string_of(&m);
                    assert(resolve(s, om) == Err::<(Seq<char>, ImageModel), Seq<char>>(m@));
                    assert(forall|j: int| 0 <= j < i ==> #[trigger] resolve(s, s.outputs[j]) is Ok);
                    return Err(m);
                },
            };
            assert(resolve(s, om) == Ok::<(Seq<char>, ImageModel), Seq<char>>((file@, image_view(image))));
            let stem = match crate::paths::path_file_stem(file.as_str()) {
                Some(v) => v,
                None => {
                    let mut m = chars_of("不正なファイル名です: ");
                    push_str(&mut m, file.as_str());
                    let m = string_of(&m);
                    assert(forall|j: int| 0 <= j < i ==> #[trigger] resolve(s, s.outputs[j]) is Ok);
                    return Err(m);
                },
            };
            let crop_point = match &o.crop_point {
                Some((x, y)) => Some((x.clone(), y.clone())),
                None => None,
            };
            let p = ParsedPage {
                stem,
                source_width: image.width,
                source_height: image.height,
                width: o.width,
                height: o.height,
                crop_point,
            };
            assert(describes(p, om, file@, image_view(image)));
            let ghost before = list@;
            list.push(p);
            assert forall|j: int| 0 <= j < i + 1 implies describes(
                #[trigger] list@[j],
                s.outputs[j],
                resolve(s, s.outputs[j])->Ok_0.0,
                resolve(s, s.outputs[j])->Ok_0.1,
            ) by {
                if j < i {
                    assert(list@[j] == before[j]);
                }
            }
            i = i + 1;
        }
        assert forall|j: int| 0 <= j < list@.len() implies (resolve(s, s.outputs[j]) matches Ok(found)
            && describes(#[trigger] list@[j], s.outputs[j], found.0, found.1)) by {
            assert(resolve(s, s.outputs[j]) is Ok);
        }
        Ok(list)
    }
}

/// Reads a whole project from its events: the pages of `finish`, or the
/// first complaint.
pub fn parse_project_events(events: &Vec<XmlEvent>) -> (r: Result<Vec<ParsedPage>, String>)
    ensures
        match read_events(events_view(events@), events@.len() as int) {
            Err(m) => r matches Err(x) && x@ == m,
            Ok(s) => pages_result(s, r),
        },
{
    let mut reader = ProjectReader::new();
    let mut i: usize = 0;
    while i < events.len()
        invariant
            i <= events.len(),
            reader.wf(),
            read_events(events_view(events@), i as int) == Ok::<ProjectModel, Seq<char>>(reader.model()),
        decreases events.len() - i,
    {
        let r = reader.handle_event(&events[i]);
        match r {
            Err(m) => {
                proof {
                    lemma_read_events_stops(events_view(events@), (i + 1) as int, events@.len() as int);
                }
                return Err(m);
            },
            Ok(()) => {},
        }
        i = i + 1;
    }
    let ghost s = reader.model();
    assert(read_events(events_view(events@), events@.len() as int) == Ok::<ProjectModel, Seq<char>>(s));
    let r = reader.finish();
    r
}

// ---------------------------------------------------------------------
// Reading the file's bytes

/// `std::io::Cursor`, declared so that an XML reader over bytes can be held.
#[verifier::external_type_specification]
#[verifier::external_body]
#[verifier::reject_recursive_types(T)]
pub struct ExCursor<T>(std::io::Cursor<T>);

/// `quick_xml::Reader`, held while the project's events are read.
#[verifier::external_type_specification]
#[verifier::external_body]
#[verifier::reject_recursive_types(R)]
pub struct ExXmlReader<R>(quick_xml::Reader<R>);

/// `quick_xml::events::BytesStart`: an opening or empty element as read.
#[verifier::external_type_specification]
#[verifier::external_body]
pub struct ExBytesStart<'a>(quick_xml::events::BytesStart<'a>);

/// An XML event as the reader gives it, an element still as read.
pub enum RawXmlEvent {
    Start(quick_xml::events::BytesStart<'static>),
    Empty(quick_xml::events::BytesStart<'static>),
    End(String),
    Other,
}

/// The local name of element `e`.
pub uninterp spec fn element_name_of(e: quick_xml::events::BytesStart<'static>) -> Seq<char>;

/// The attributes quick_xml reads from element `e` with checks off, in
/// order: each its local key and value, or the text of its error.
pub uninterp spec fn element_attributes_of(e: quick_xml::events::BytesStart<'static>) -> Seq<AttrView>;

/// An event as text.
pub open spec fn raw_view(e: RawXmlEvent) -> XmlEventView {
    match e {
        RawXmlEvent::Start(b) => XmlEventView::Start(element_name_of(b), element_attributes_of(b)),
        RawXmlEvent::Empty(b) => XmlEventView::Empty(element_name_of(b), element_attributes_of(b)),
        RawXmlEvent::End(n) => XmlEventView::End(n@),
        RawXmlEvent::Other => XmlEventView::Other,
    }
}

/// The events quick_xml reads from a project file's `bytes` with text
/// trimmed, as text: in order, up to the end of the document, or up to and
/// including the first error (its text).
pub uninterp spec fn xml_events_of(bytes: Seq<u8>) -> Seq<Result<XmlEventView, Seq<char>>>;

/// The events `reader` still gives, counted as `xml_events_of` counts them.
pub uninterp spec fn xml_pending(reader: quick_xml::Reader<Cursor<Vec<u8>>>) -> Seq<
    Result<XmlEventView, Seq<char>>,
>;

/// `quick_xml::Reader::from_reader` over `bytes`, with `trim_text(true)`:
/// the events it gives are those of `xml_events_of(bytes)`.
#[verifier::external_body]
fn xml_reader(bytes: Vec<u8>) -> (r: quick_xml::Reader<Cursor<Vec<u8>>>)
    ensures
        xml_pending(r) == xml_events_of(bytes@),
{
    let mut reader = quick_xml::Reader::from_reader(Cursor::new(bytes));
    reader.config_mut().trim_text(true);
    reader
}

/// `quick_xml::Reader::read_event_into`: the first pending event, the
/// rest left pending; an element kept as read, an end tag by its local
/// name, any other kind of event `Other`; `None` at the end of the
/// document; the text of the error on an error.
#[verifier::external_body]
fn next_xml_event(reader: &mut quick_xml::Reader<Cursor<Vec<u8>>>) -> (r: Result<Option<RawXmlEvent>, String>)
    ensures
        match r {
            Ok(Some(e)) => xml_pending(*old(reader)).len() > 0 && xml_pending(*old(reader))[0] == Ok::<
                XmlEventView,
                Seq<char>,
            >(raw_view(e)) && xml_pending(*final(reader)) == xml_pending(*old(reader)).skip(1),
            Ok(None) => xml_pending(*old(reader)).len() == 0,
            Err(m) => xml_pending(*old(reader)).len() > 0 && xml_pending(*old(reader))[0] == Err::<
                XmlEventView,
                Seq<char>,
            >(m@),
        },
{
    match reader.read_event_into(&mut Vec::new()) {
        Ok(Event::Start(e)) => Ok(Some(RawXmlEvent::Start(e.into_owned()))),
        Ok(Event::Empty(e)) => Ok(Some(RawXmlEvent::Empty(e.into_owned()))),
        Ok(Event::End(e)) => Ok(Some(RawXmlEvent::End(e.local_name().as_ref().to_string()))),
        Ok(Event::Eof) => Ok(None),
        Ok(_) => Ok(Some(RawXmlEvent::Other)),
        Err(e) => Err(e.to_string()),
    }
}

/// `quick_xml::events::BytesStart::local_name`, as text.
#[verifier::external_body]
fn element_name(e: &quick_xml::events::BytesStart<'static>) -> (r: String)
    ensures
        r@ == element_name_of(*e),
{
    e.local_name().as_ref().to_string()
}

/// `quick_xml::events::BytesStart::attributes` with checks off, each
/// attribute by its local key and value, or the text of its error.
#[verifier::external_body]
fn element_attributes(e: &quick_xml::events::BytesStart<'static>) -> (r: Vec<Result<XmlAttribute, String>>)
    ensures
        attrs_view(r@) == element_attributes_of(*e),
{
    e.attributes().with_checks(false).map(|a| a.map(|a| XmlAttribute {
        key: a.key.local_name().as_ref().to_string(),
        value: a.value.into_owned(),
    }).map_err(|e| e.to_string())).collect()
}

/// The event as the project reader takes it.
fn converted_event(e: RawXmlEvent) -> (r: XmlEvent)
    ensures
        event_view(r) == raw_view(e),
{
    match e {
        RawXmlEvent::Start(b) => XmlEvent::Start { name: element_name(&b), attributes: element_attributes(&b) },
        RawXmlEvent::Empty(b) => XmlEvent::Empty { name: element_name(&b), attributes: element_attributes(&b) },
        RawXmlEvent::End(n) => XmlEvent::End { name: n },
        RawXmlEvent::Other => XmlEvent::Other,
    }
}

/// The first `n` entries of a stream of events handled in order: the
/// project read, or the first complaint, the reader's own prefixed with
/// `ScanTailor XML解析エラー: `.
#[verifier::opaque]
pub open spec fn read_stream(st: Seq<Result<XmlEventView, Seq<char>>>, n: int) -> Result<
    ProjectModel,
    Seq<char>,
>
    decreases n,
{
    if n <= 0 {
        Ok(empty_project())
    } else {
        match read_stream(st, n - 1) {
            Err(m) => Err(m),
            Ok(s) => match st[n - 1] {
                Err(m) => Err("ScanTailor XML解析エラー: "@ + m),
                Ok(e) => event_step(s, e),
            },
        }
    }
}

proof fn lemma_read_stream_next(st: Seq<Result<XmlEventView, Seq<char>>>, k: int)
    requires
        0 <= k,
    ensures
        read_stream(st, 0) == Ok::<ProjectModel, Seq<char>>(empty_project()),
        read_stream(st, k + 1) == match read_stream(st, k) {
            Err(m) => Err(m),
            Ok(s) => match st[k] {
                Err(m) => Err("ScanTailor XML解析エラー: "@ + m),
                Ok(e) => event_step(s, e),
            },
        },
{
    reveal(read_stream);
}

proof fn lemma_read_stream_stops(st: Seq<Result<XmlEventView, Seq<char>>>, k: int, n: int)
    requires
        0 < k <= n,
        read_stream(st, k) is Err,
    ensures
        read_stream(st, n) == read_stream(st, k),
    decreases n - k,
{
    reveal(read_stream);
    if n > k {
        lemma_read_stream_stops(st, k, n - 1);
    }
}

/// Reads a whole project from the bytes of its file: the events quick_xml
/// reads from them, handled as they come; the pages of `finish`, or the
/// first complaint.
pub fn parse_project_bytes(bytes: &[u8]) -> (r: Result<Vec<ParsedPage>, String>)
    ensures
        match read_stream(xml_events_of(bytes@), xml_events_of(bytes@).len() as int) {
            Err(m) => r matches Err(x) && x@ == m,
            Ok(s) => pages_result(s, r),
        },
{
    let ghost all = xml_events_of(bytes@);
    let owned = vstd::slice::slice_to_vec(bytes);
    let mut xml = xml_reader(owned);
    let mut reader = ProjectReader::new();
    let ghost mut k: int = 0;
    proof {
        lemma_read_stream_next(all, 0);
    }
    let mut done = false;
    while !done
        invariant
            all == xml_events_of(bytes@),
            reader.wf(),
            0 <= k <= all.len(),
            done ==> k == all.len(),
            !done ==> xml_pending(xml) == all.skip(k),
            read_stream(all, k) == Ok::<ProjectModel, Seq<char>>(reader.model()),
        decreases all.len() - k + if done {
            0int
        } else {
            1int
        },
    {
        let ghost before = xml_pending(xml);
        assert(before == all.skip(k));
        match next_xml_event(&mut xml) {
            Err(m) => {
                let mut t = chars_of("ScanTailor XML解析エラー: ");
                push_str(&mut t, m.as_str());
                let t = string_of(&t);
                proof {
                    assert(k < all.len());
                    assert(all[k] == before[0]);
                    lemma_read_stream_next(all, k);
                    assert(all[k] == Err::<XmlEventView, Seq<char>>(m@));
                    assert(read_stream(all, k + 1) == Err::<ProjectModel, Seq<char>>(t@));
                    lemma_read_stream_stops(all, k + 1, all.len() as int);

                }
                return Err(t);
            },
            Ok(None) => {
                done = true;
            },
            Ok(Some(raw)) => {
                let ghost raw_v = raw_view(raw);
                let e = converted_event(raw);
                proof {
                    assert(k < all.len());
                    assert(all[k] == before[0]);
                    lemma_read_stream_next(all, k);
                    assert(all[k] == Ok::<XmlEventView, Seq<char>>(raw_v));
                    assert(all[k] == Ok::<XmlEventView, Seq<char>>(event_view(e)));
                    assert(all.skip(k).skip(1) =~= all.skip(k + 1));
                    assert(xml_pending(xml) == all.skip(k + 1));
                }
                match reader.handle_event(&e) {
                    Err(m) => {
                        proof {
                            lemma_read_stream_stops(all, k + 1, all.len() as int);
                        }
                        return Err(m);
                    },
                    Ok(()) => {},
                }
                proof {
                    k = k + 1;
                }
            },
        }
    }
    let r = reader.finish();
    r
}

proof fn lemma_read_events_stops(events: Seq<XmlEventView>, k: int, n: int)
    requires
        0 < k <= n,
        read_events(events, k) is Err,
    ensures
        read_events(events, n) == read_events(events, k),
    decreases n - k,
{
    if n > k {
        lemma_read_events_stops(events, k, n - 1);
    }
}

} // verus!
