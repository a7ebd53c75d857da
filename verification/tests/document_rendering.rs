use local_jira::atlassian_document_format::root_elt_doc_to_string;
use local_jira::atlassian_document_format_html_output::{
    find_file, media_file_ids, root_elt_doc_to_html_string, to_html_verbatim, FileData,
};
use local_jira::json::{Json, JsonMap, JsonNumber, JsonValue};

fn to_json(v: &serde_json::Value) -> Json {
    let value = match v {
        serde_json::Value::Null => JsonValue::Null,
        serde_json::Value::Bool(b) => JsonValue::Bool(*b),
        serde_json::Value::Number(n) => {
            if let Some(u) = n.as_u64() {
                JsonValue::Number(JsonNumber::PosInt(u))
            } else if let Some(i) = n.as_i64() {
                JsonValue::Number(JsonNumber::NegInt(i))
            } else {
                JsonValue::Number(JsonNumber::Float(n.to_string()))
            }
        },
        serde_json::Value::String(s) => JsonValue::String(s.clone()),
        serde_json::Value::Array(a) => JsonValue::Array(a.iter().map(to_json).collect()),
        serde_json::Value::Object(o) => JsonValue::Object(JsonMap {
            entries: o.iter().map(|(k, x)| (k.clone(), to_json(x))).collect(),
        }),
    };
    Json { value, text: v.to_string() }
}

fn parse(text: &str) -> Json {
    to_json(&serde_json::from_str::<serde_json::Value>(text).unwrap())
}

const SAMPLE_DOC: &str = r#"{"type":"doc","version":1,"content":[
  {"type":"heading","attrs":{"level":2},"content":[{"type":"text","text":"Title"}]},
  {"type":"paragraph","content":[{"type":"text","text":"Hello "},{"type":"text","text":"<world>","marks":[{"type":"strong"}]}]},
  {"type":"bulletList","content":[
    {"type":"listItem","content":[{"type":"paragraph","content":[{"type":"text","text":"one"}]}]},
    {"type":"listItem","content":[{"type":"paragraph","content":[{"type":"text","text":"two"}]}]}
  ]}
]}"#;

#[test]
fn document_is_rendered_as_text() {
    let doc = parse(SAMPLE_DOC);
    assert_eq!(
        root_elt_doc_to_string(&doc),
        Some("Title\n-----\n\nHello *<world>*\n\n  - one\n  - two".to_string())
    );
}

#[test]
fn text_marks_in_markdown() {
    let doc = parse(
        r#"{"type":"doc","content":[{"type":"paragraph","content":[
        {"type":"text","text":"c","marks":[{"type":"code"}]},
        {"type":"text","text":"e","marks":[{"type":"em"}]},
        {"type":"text","text":"l","marks":[{"type":"link","attrs":{"href":"http://x"}}]},
        {"type":"text","text":"s","marks":[{"type":"strike"},{"type":"underline"}]}
    ]}]}"#,
    );
    assert_eq!(root_elt_doc_to_string(&doc), Some("`c`/e/[l](http://x)_~s~_".to_string()));
}

#[test]
fn headings_of_each_level_in_markdown() {
    let doc = parse(
        r#"{"type":"doc","content":[
        {"type":"heading","attrs":{"level":1},"content":[{"type":"text","text":"Big"}]},
        {"type":"heading","attrs":{"level":4},"content":[{"type":"text","text":"Small"}]},
        {"type":"heading","attrs":{"level":9},"content":[{"type":"text","text":"Clamped"}]}
    ]}"#,
    );
    assert_eq!(root_elt_doc_to_string(&doc), Some("Big\n===\n\n#### Small\n\n###### Clamped".to_string()));
}

#[test]
fn a_value_that_is_not_a_document_is_given_back() {
    assert_eq!(root_elt_doc_to_string(&parse(r#""abc""#)), Some("\"abc\"".to_string()));
    assert_eq!(root_elt_doc_to_string(&parse(r#"{"type":"para"}"#)), Some("{\"type\":\"para\"}".to_string()));
    let files: Vec<(String, FileData)> = Vec::new();
    assert_eq!(root_elt_doc_to_html_string(&parse("[1,2]"), &files), "[1,2]");
}

#[test]
fn unknown_nodes_are_shown_as_pretty_json() {
    let doc = parse(r#"{"type":"doc","content":[{"type":"unknownThing","a":1}]}"#);
    assert_eq!(root_elt_doc_to_string(&doc), Some("{\n  \"a\": 1,\n  \"type\": \"unknownThing\"\n}".to_string()));
    let nested = parse(r#"{"type":"doc","content":[{"type":"mystery","a":[1]}]}"#);
    assert_eq!(
        root_elt_doc_to_string(&nested),
        Some("{\n  \"a\": [\n    1\n  ],\n  \"type\": \"mystery\"\n}".to_string())
    );
}

#[test]
fn tables_are_rendered_through_html_to_text() {
    let doc = parse(
        r#"{"type":"doc","content":[{"type":"table","content":[
        {"type":"tableRow","content":[
            {"type":"tableHeader","content":[{"type":"paragraph","content":[{"type":"text","text":"Name"}]}]},
            {"type":"tableHeader","content":[{"type":"paragraph","content":[{"type":"text","text":"Value"}]}]}
        ]},
        {"type":"tableRow","content":[
            {"type":"tableCell","content":[{"type":"paragraph","content":[{"type":"text","text":"alpha"}]}]},
            {"type":"tableCell","content":[{"type":"paragraph","content":[{"type":"text","text":"beta"}]}]}
        ]}
    ]}]}"#,
    );
    let text = root_elt_doc_to_string(&doc).unwrap();
    assert!(text.contains("Name") && text.contains("alpha") && text.contains("beta"));
    assert!(!text.contains("<table>") && !text.contains("<td>"));
}

#[test]
fn document_is_rendered_as_html() {
    let doc = parse(SAMPLE_DOC);
    let files: Vec<(String, FileData)> = Vec::new();
    assert_eq!(
        root_elt_doc_to_html_string(&doc, &files),
        "<h2>Title</h2>\n\n<p>\nHello \n<strong>&lt;world&gt;</strong>\n\n<ul>\n  <li><p>\n  one\n  </li>\n  <li><p>\n  two\n  </li>\n</ul>"
    );
}

#[test]
fn html_text_marks() {
    let doc = parse(
        "{\"type\":\"doc\",\"content\":[{\"type\":\"paragraph\",\"content\":[\
        {\"type\":\"text\",\"text\":\"a\",\"marks\":[{\"type\":\"textColor\",\"attrs\":{\"color\":\"#ff0000\"}}]},\
        {\"type\":\"text\",\"text\":\"b\",\"marks\":[{\"type\":\"link\",\"attrs\":{\"href\":\"http://x\",\"title\":\"T\"}}]}\
    ]}]}",
    );
    let files: Vec<(String, FileData)> = Vec::new();
    assert_eq!(
        root_elt_doc_to_html_string(&doc, &files),
        "<p>\n<span style=\"color:#ff0000\">a</span>\n<a href=\"http://x\" title=\"T\">b</a>\n"
    );
}

fn image_file() -> (String, FileData) {
    (
        "u1".to_string(),
        FileData { filename: "a.png".to_string(), size: 3, mime_type: "image/png".to_string(), data: vec![1, 2, 3] },
    )
}

#[test]
fn stored_images_are_embedded() {
    let doc = parse(r#"{"type":"doc","content":[{"type":"media","attrs":{"id":"u1","type":"file","width":10}}]}"#);
    let files = vec![image_file()];
    assert_eq!(
        root_elt_doc_to_html_string(&doc, &files),
        "<div class=\"media\" style=\"width: 10px;\">\n  <img width=\"10\" src=\"data:image&#x2F;png;base64,AQID\">\n</div>"
    );
    assert_eq!(media_file_ids(&doc), vec!["u1".to_string()]);
}

#[test]
fn stored_svg_is_inlined_as_text() {
    let doc = parse(r#"{"type":"doc","content":[{"type":"media","attrs":{"id":"s","type":"file"}}]}"#);
    let files = vec![(
        "s".to_string(),
        FileData { filename: "x.svg".to_string(), size: 6, mime_type: "image/svg+xml".to_string(), data: b"<svg/>".to_vec() },
    )];
    assert_eq!(root_elt_doc_to_html_string(&doc, &files), "<div class=\"media\">\n  <svg/>\n</div>");
}

#[test]
fn other_stored_files_become_download_links() {
    let doc = parse(r#"{"type":"doc","content":[{"type":"media","attrs":{"id":"p","type":"file"}}]}"#);
    let files = vec![(
        "p".to_string(),
        FileData { filename: "r&d.pdf".to_string(), size: 1, mime_type: "application/pdf".to_string(), data: vec![0] },
    )];
    assert_eq!(
        root_elt_doc_to_html_string(&doc, &files),
        "<div class=\"media\">\n  <a href=\"data:application&#x2F;pdf;base64,AA==\" download=\"r&amp;d.pdf\">r&amp;d.pdf</a>\n</div>"
    );
}

#[test]
fn missing_files_fall_back_to_json() {
    let doc = parse(r#"{"type":"doc","content":[{"type":"media","attrs":{"id":"zz","type":"file"}}]}"#);
    let files = vec![image_file()];
    let html = root_elt_doc_to_html_string(&doc, &files);
    assert!(html.starts_with("&lt;pre&gt;&lt;code class=&quot;json_data&quot;&gt;"));
    assert!(find_file(&files, "zz").is_none());
    assert_eq!(find_file(&files, "u1").unwrap().filename, "a.png");
}

#[test]
fn verbatim_html_is_escaped() {
    assert_eq!(to_html_verbatim("<b>"), "<verbatim>&lt;b&gt;</verbatim>");
}

#[test]
fn stored_svg_with_invalid_bytes_is_decoded_lossily() {
    let doc = parse(r#"{"type":"doc","content":[{"type":"media","attrs":{"id":"s","type":"file"}}]}"#);
    let files = vec![(
        "s".to_string(),
        FileData { filename: "x.svg".to_string(), size: 3, mime_type: "image/svg".to_string(), data: vec![0x61, 0xff, 0x62] },
    )];
    assert_eq!(root_elt_doc_to_html_string(&doc, &files), "<div class=\"media\">\n  a\u{fffd}b\n</div>");
}
