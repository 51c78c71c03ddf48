use img2pdf::project::{parse_project_bytes, parse_project_events, ParsedPage, XmlAttribute, XmlEvent};

fn attrs(pairs: &[(&str, &str)]) -> Vec<Result<XmlAttribute, String>> {
    pairs
        .iter()
        .map(|(k, v)| Ok(XmlAttribute { key: k.to_string(), value: v.to_string() }))
        .collect()
}

fn start(name: &str, pairs: &[(&str, &str)]) -> XmlEvent {
    XmlEvent::Start { name: name.to_string(), attributes: attrs(pairs) }
}

fn empty(name: &str, pairs: &[(&str, &str)]) -> XmlEvent {
    XmlEvent::Empty { name: name.to_string(), attributes: attrs(pairs) }
}

fn end(name: &str) -> XmlEvent {
    XmlEvent::End { name: name.to_string() }
}

/// The events of a one-page project as scantailor-cli writes it.
fn one_page_project(file: &str, crop: Option<(&str, &str)>) -> Vec<XmlEvent> {
    let mut events = vec![
        start("project", &[("version", "3")]),
        start("directories", &[]),
        empty("directory", &[("path", "/work/scantailor-input"), ("id", "1")]),
        end("directories"),
        start("files", &[]),
        empty("file", &[("dirId", "1"), ("id", "2"), ("name", file)]),
        end("files"),
        start("images", &[]),
        start("image", &[("subPages", "1"), ("fileImage", "0"), ("fileId", "2"), ("id", "3")]),
        empty("size", &[("width", "1654"), ("height", "2339")]),
        empty("dpi", &[("vertical", "300"), ("horizontal", "300")]),
        end("image"),
        end("images"),
        start("pages", &[]),
        empty("page", &[("imageId", "3"), ("subPage", "single"), ("id", "4")]),
        end("pages"),
        start("filters", &[]),
        start("output", &[]),
        start("page", &[("id", "4")]),
        start("output-params", &[]),
        start("image", &[]),
        empty("size", &[("width", "1232"), ("height", "1022")]),
    ];
    if let Some((x, y)) = crop {
        events.push(start("crop-area", &[]));
        events.push(empty("point", &[("x", x), ("y", y)]));
        events.push(empty("point", &[("x", "1038"), ("y", "-168")]));
        events.push(end("crop-area"));
    }
    events.extend([
        end("image"),
        end("output-params"),
        end("page"),
        end("output"),
        end("filters"),
        end("project"),
    ]);
    events
}

fn restore(page: &ParsedPage) -> (f32, f32) {
    match &page.crop_point {
        Some((x, y)) => (-x.parse::<f32>().unwrap(), -y.parse::<f32>().unwrap()),
        None => (0.0, 0.0),
    }
}

#[test]
fn parses_experiment_project_when_available() {
    let events = one_page_project("p0077.png", Some(("-194", "-168")));
    let pages = parse_project_events(&events).unwrap();
    let page = pages.iter().find(|p| p.stem == "p0077").unwrap();
    assert_eq!((page.width, page.height), (1232, 1022));
    assert_eq!((page.source_width, page.source_height), (1654, 2339));
    assert_eq!(restore(page), (194.0, 168.0));
}

#[test]
fn project_without_crop_area_has_no_crop_point() {
    let events = one_page_project("p0001.tif", None);
    let pages = parse_project_events(&events).unwrap();
    assert_eq!(pages.len(), 1);
    assert_eq!(pages[0].stem, "p0001");
    assert!(pages[0].crop_point.is_none());
    assert_eq!(restore(&pages[0]), (0.0, 0.0));
}

#[test]
fn project_with_bad_size_is_refused() {
    let mut events = one_page_project("p0001.tif", None);
    events[9] = empty("size", &[("width", "wide"), ("height", "2339")]);
    let err = parse_project_events(&events).unwrap_err();
    assert_eq!(err, "widthが不正です");
}

#[test]
fn project_with_missing_attribute_is_refused() {
    let mut events = one_page_project("p0001.tif", None);
    events[14] = empty("page", &[("subPage", "single"), ("id", "4")]);
    let err = parse_project_events(&events).unwrap_err();
    assert_eq!(err, "XML属性imageIdがありません");
}

#[test]
fn project_with_unknown_image_reports_it() {
    let mut events = one_page_project("p0001.tif", None);
    events[14] = empty("page", &[("imageId", "9"), ("id", "4")]);
    let err = parse_project_events(&events).unwrap_err();
    assert_eq!(err, "image 9がありません");
}

#[test]
fn project_with_bad_crop_point_is_refused() {
    let events = one_page_project("p0001.tif", Some(("left", "-168")));
    let err = parse_project_events(&events).unwrap_err();
    assert_eq!(err, "xが不正です");
}

#[test]
fn attribute_error_is_reported() {
    let mut events = one_page_project("p0001.tif", None);
    events[5] = XmlEvent::Empty {
        name: "file".to_string(),
        attributes: vec![Err("bad quote".to_string())],
    };
    let err = parse_project_events(&events).unwrap_err();
    assert_eq!(err, "XML属性エラー: bad quote");
}

const PROJECT_XML: &str = r#"<?xml version="1.0" encoding="UTF-8"?>
<project version="3" outputDirectory="/work/out">
  <directories>
    <directory path="/work/scantailor-input" id="1"/>
  </directories>
  <files>
    <file dirId="1" id="2" name="p0077.png"/>
  </files>
  <images>
    <image subPages="1" fileImage="0" fileId="2" id="3">
      <size width="1654" height="2339"/>
      <dpi vertical="300" horizontal="300"/>
    </image>
  </images>
  <pages>
    <page imageId="3" subPage="single" id="4"/>
  </pages>
  <filters>
    <output>
      <page id="4">
        <!-- written by scantailor-cli -->
        <output-params>
          <image>
            <size width="1232" height="1022"/>
            <crop-area>
              <point x="-194" y="-168"/>
              <point x="1038" y="-168"/>
            </crop-area>
          </image>
        </output-params>
      </page>
    </output>
  </filters>
</project>
"#;

#[test]
fn project_file_bytes_are_read() {
    let pages = parse_project_bytes(PROJECT_XML.as_bytes()).unwrap();
    assert_eq!(pages.len(), 1);
    assert_eq!(pages[0].stem, "p0077");
    assert_eq!((pages[0].width, pages[0].height), (1232, 1022));
    assert_eq!((pages[0].source_width, pages[0].source_height), (1654, 2339));
    assert_eq!(restore(&pages[0]), (194.0, 168.0));
}

#[test]
fn malformed_project_file_is_a_reader_error() {
    let err = parse_project_bytes(b"<project><files></project>").unwrap_err();
    assert!(err.starts_with("ScanTailor XML解析エラー: "), "{err}");
}

#[test]
fn project_error_before_reader_error_wins() {
    let err = parse_project_bytes(b"<project><images><image id=\"3\" fileId=\"2\"><size width=\"x\" height=\"1\"/></image></images><oops></project>").unwrap_err();
    assert_eq!(err, "widthが不正です");
}
