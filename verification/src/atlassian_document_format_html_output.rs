use vstd::prelude::*;

use crate::atlassian_document_format::{
    are_all_medias, content_of, emoji_to_string, heading_level, is_panel_type, json_map_to_string,
    spec_all_medias, spec_as_u64_opt, spec_emoji, spec_heading_level, spec_is_panel_type,
    spec_or_empty, spec_pretty, spec_snls, spec_str_at, str_at, str_of, string_or_empty,
};
use crate::atlassian_document_utils::{
    get_mark_kind, spec_inline, spec_mark_kind, spec_top, to_inline, to_top_level, MarkKind,
    MarkView, NodeLevel, SnlView, StringWithNodeLevel,
};
use crate::encoding::{base64_encode, escape_html, spec_base64, spec_escape, spec_utf8_lossy, utf8_lossy};
use crate::json::{
    lemma_content_decreases, spec_as_bool, spec_as_str, spec_content, spec_get, spec_opt_array,
    spec_opt_get, spec_opt_object, spec_opt_str, Json, JsonValue,
};
use crate::text::{
    decimal, indent_with, join, replace, spec_decimal, spec_indent, spec_join, spec_replace,
    spec_starts_with, starts_with, str_eq, to_owned,
};

verus! {

// ---------------------------------------------------------------------------
// Specification of the HTML rendering of Atlassian Document Format.
// ---------------------------------------------------------------------------

/// An attachment kept in the local database: the file behind a media node.
pub struct FileData {
    pub filename: String,
    pub size: i64,
    pub mime_type: String,
    pub data: Vec<u8>,
}

/// The file stored under `uuid`: the first entry with that identifier.
pub open spec fn spec_find_file(files: Seq<(String, FileData)>, uuid: Seq<char>) -> Option<FileData>
    decreases files.len(),
{
    if files.len() == 0 {
        None
    } else if files[0].0@ == uuid {
        Some(files[0].1)
    } else {
        spec_find_file(files.drop_first(), uuid)
    }
}

/// A node shown as its escaped, pretty-printed JSON in a `json_data` block.
pub open spec fn spec_json_html(j: Json) -> Seq<char> {
    "<pre><code class=\"json_data\">\n"@ + spec_indent(spec_escape(spec_pretty(j)), "  "@)
        + "\n</code></pre><!-- json_data -->"@
}

/// The fallback for a node that cannot be rendered: its JSON block, escaped
/// once more, at top level.
pub open spec fn spec_fallback(j: Json) -> SnlView {
    spec_top(spec_escape(spec_json_html(j)))
}

/// Two consecutive pieces joined by a newline; the result takes the second level.
pub open spec fn spec_merge_html(a: SnlView, b: SnlView) -> SnlView {
    SnlView { text: a.text + "\n"@ + b.text, level: b.level }
}

/// All pieces merged from left to right; an empty inline piece when there is none.
pub open spec fn spec_merge_all_html(xs: Seq<SnlView>) -> SnlView
    decreases xs.len(),
{
    if xs.len() == 0 {
        spec_inline(Seq::empty())
    } else if xs.len() == 1 {
        xs[0]
    } else {
        spec_merge_html(spec_merge_all_html(xs.drop_last()), xs.last())
    }
}

/// The texts of pieces.
pub open spec fn spec_texts_html(xs: Seq<SnlView>) -> Seq<Seq<char>> {
    xs.map_values(|x: SnlView| x.text)
}

/// A text decorated by one mark, as HTML.
pub open spec fn spec_apply_mark_html(mark: Result<MarkView, Seq<char>>, c: Seq<char>) -> Seq<char> {
    match mark {
        Ok(MarkView::Code) => "<code>"@ + c + "</code>"@,
        Ok(MarkView::Emphasis) => "<em>"@ + c + "</em>"@,
        Ok(MarkView::Link(l)) => "<a href=\""@ + l.href + "\""@ + (match l.title {
            Some(t) => " title=\""@ + t + "\""@,
            None => Seq::empty(),
        }) + ">"@ + c + "</a>"@,
        Ok(MarkView::Strike) => "<s>"@ + c + "</s>"@,
        Ok(MarkView::Strong) => "<strong>"@ + c + "</strong>"@,
        Ok(MarkView::Superscript) => "<sup>"@ + c + "</sup>"@,
        Ok(MarkView::SubScript) => "<sub>"@ + c + "</sub>"@,
        Ok(MarkView::TextColour(h)) => "<span style=\"color:"@ + h + "\">"@ + c + "</span>"@,
        Ok(MarkView::BackgroundColour(h)) => "<span style=\"background-color:"@ + h + "\">"@ + c + "</span>"@,
        Ok(MarkView::Underline) => "<span class=\"underline\">"@ + c + "</span>"@,
        Err(_) => c,
    }
}

/// A text decorated by each mark in turn, the first mark innermost.
pub open spec fn spec_apply_marks_html(marks: Seq<Json>, c: Seq<char>) -> Seq<char>
    decreases marks.len(),
{
    if marks.len() == 0 {
        c
    } else {
        spec_apply_mark_html(spec_mark_kind(marks.last()), spec_apply_marks_html(marks.drop_last(), c))
    }
}

/// A text node: its escaped text with its marks.
pub open spec fn spec_text_html(j: Json) -> SnlView {
    let content = spec_escape(spec_or_empty(spec_opt_str(spec_get(j, "text"@))));
    match spec_opt_array(spec_get(j, "marks"@)) {
        Some(marks) => spec_inline(spec_apply_marks_html(marks, content)),
        None => spec_inline(content),
    }
}

/// In HTML, a text node carrying a single simple mark is its escaped text
/// wrapped in that mark's element and nothing else: `em` gives `<em>`,
/// `strong` gives `<strong>`, `code` gives `<code>`, `strike` gives `<s>`,
/// `underline` gives a span of class `underline`.
pub proof fn lemma_text_with_one_mark_html(j: Json, m: Json)
    requires
        spec_opt_array(spec_get(j, "marks"@)) == Some(seq![m]),
    ensures
        ({
            let text = spec_escape(spec_or_empty(spec_opt_str(spec_get(j, "text"@))));
            &&& spec_mark_kind(m) == Ok::<MarkView, Seq<char>>(MarkView::Emphasis)
                ==> spec_text_html(j) == spec_inline("<em>"@ + text + "</em>"@)
            &&& spec_mark_kind(m) == Ok::<MarkView, Seq<char>>(MarkView::Strong)
                ==> spec_text_html(j) == spec_inline("<strong>"@ + text + "</strong>"@)
            &&& spec_mark_kind(m) == Ok::<MarkView, Seq<char>>(MarkView::Code)
                ==> spec_text_html(j) == spec_inline("<code>"@ + text + "</code>"@)
            &&& spec_mark_kind(m) == Ok::<MarkView, Seq<char>>(MarkView::Strike)
                ==> spec_text_html(j) == spec_inline("<s>"@ + text + "</s>"@)
            &&& spec_mark_kind(m) == Ok::<MarkView, Seq<char>>(MarkView::Underline)
                ==> spec_text_html(j) == spec_inline("<span class=\"underline\">"@ + text + "</span>"@)
        }),
{
    let text = spec_escape(spec_or_empty(spec_opt_str(spec_get(j, "text"@))));
    assert(seq![m].drop_last() =~= Seq::<Json>::empty());
    assert(spec_apply_marks_html(Seq::<Json>::empty(), text) == text);
    assert(spec_apply_marks_html(seq![m], text) == spec_apply_mark_html(spec_mark_kind(m), text));
}

/// An emphasised text and a strong text never render alike: the element
/// opened first is `<em>` for the one and `<strong>` for the other.
pub proof fn lemma_emphasis_is_not_strong(c: Seq<char>)
    ensures
        spec_apply_mark_html(Ok(MarkView::Emphasis), c) != spec_apply_mark_html(Ok(MarkView::Strong), c),
{
    reveal_strlit("<em>");
    reveal_strlit("<strong>");
    assert(spec_apply_mark_html(Ok(MarkView::Emphasis), c)[1] == 'e');
    assert(spec_apply_mark_html(Ok(MarkView::Strong), c)[1] == 's');
}

/// A mention: the mentioned text, else the id, else the node's JSON block.
pub open spec fn spec_mention_html(j: Json) -> SnlView {
    match spec_opt_object(spec_get(j, "attrs"@)) {
        None => spec_inline(spec_json_html(j)),
        Some(attrs) => match spec_opt_str(spec_get(attrs, "text"@)) {
            Some(s) => spec_inline(spec_escape(s)),
            None => match spec_opt_str(spec_get(attrs, "id"@)) {
                None => spec_inline(spec_json_html(j)),
                Some(s) => spec_inline(spec_escape(s)),
            },
        },
    }
}

/// An inline card: a link to its URL, or its data.
pub open spec fn spec_inline_card_html(j: Json) -> SnlView {
    match spec_get(j, "attrs"@) {
        None => spec_inline(spec_json_html(j)),
        Some(attrs) => if !(attrs.value is Object) {
            spec_inline(spec_json_html(j))
        } else {
            spec_inline(
                match (spec_get(attrs, "url"@), spec_get(attrs, "data"@)) {
                    (None, None) => spec_json_html(j),
                    (Some(url), None) => match spec_as_str(url) {
                        Some(u) => "<a href=\""@ + spec_escape(u) + "\">"@ + spec_escape(u) + "</a>"@,
                        None => if url.value is Object { spec_json_html(url) } else { spec_json_html(j) },
                    },
                    (Some(_), Some(_)) => spec_json_html(j),
                    (None, Some(data)) => if data.value is Object {
                        spec_json_html(data)
                    } else {
                        "<verbatim>"@ + spec_escape(data.text@) + "</verbatim>"@
                    },
                },
            )
        },
    }
}

/// The checkbox shown in front of a task.
pub open spec fn spec_checkbox(status: Seq<char>) -> Seq<char> {
    if status == "TODO"@ {
        "<input type=\"checkbox\" checked class=\"task_item_done\" />"@
    } else if status == "DONE"@ {
        "<input type=\"checkbox\" class=\"task_item_todo\" />"@
    } else {
        "<input type=\"checkbox\" class=\"task_item_invalid\" />"@
    }
}

/// How a decision's state is written for a reader.
pub open spec fn spec_decision_for_human(state: Seq<char>) -> Seq<char> {
    if state == "DECIDED"@ {
        "decided"@
    } else if state == "UNDECIDED"@ {
        "undecided"@
    } else {
        "unknown"@
    }
}

/// The class given to a decision of the given state.
pub open spec fn spec_decision_class(state: Seq<char>) -> Seq<char> {
    if state == "DECIDED"@ {
        "decision-agreed-on"@
    } else if state == "UNDECIDED"@ {
        "decision-pending"@
    } else {
        "decision-unknown"@
    }
}

/// `before` + the number in decimal + `after`, or nothing without a number.
pub open spec fn spec_num_attr(before: Seq<char>, n: Option<u64>, after: Seq<char>) -> Seq<char> {
    match n {
        Some(v) => before + spec_decimal(v as nat) + after,
        None => Seq::empty(),
    }
}

/// The attributes of a table cell or header: background, column and row spans.
pub open spec fn spec_cell_style(j: Json) -> Seq<char> {
    let attrs = spec_opt_object(spec_get(j, "attrs"@));
    (match spec_opt_str(spec_opt_get(attrs, "background"@)) {
        Some(b) => " style=\"background: "@ + spec_escape(b) + ";\""@,
        None => Seq::empty(),
    }) + spec_num_attr(" colspan=\""@, spec_as_u64_opt(spec_opt_get(attrs, "colspan"@)), "\""@)
        + spec_num_attr(" rowspan=\""@, spec_as_u64_opt(spec_opt_get(attrs, "rowspan"@)), "\""@)
}

/// The `style` attribute of a table: its width and its layout.
pub open spec fn spec_table_style(j: Json) -> Seq<char> {
    let attrs = spec_opt_object(spec_get(j, "attrs"@));
    let width = spec_num_attr("width: "@, spec_as_u64_opt(spec_opt_get(attrs, "width"@)), "px;"@);
    let layout = match spec_opt_str(spec_opt_get(attrs, "layout"@)) {
        Some(l) => if l == "center"@ {
            "align-content: center;"@
        } else if l == "align-start"@ {
            "align-content: flex-start;"@
        } else {
            Seq::empty()
        },
        None => Seq::empty(),
    };
    let style = width + layout;
    if style.len() == 0 { style } else { " style=\""@ + style + "\""@ }
}

/// Whether a table has a column of row numbers.
pub open spec fn spec_numbered_columns(j: Json) -> bool {
    match spec_opt_get(spec_opt_object(spec_get(j, "attrs"@)), "isNumberColumnEnabled"@) {
        Some(b) => spec_as_bool(b) == Some(true),
        None => false,
    }
}

/// A rendered row that holds data cells.
pub open spec fn spec_is_data_row(v: Seq<char>) -> bool {
    spec_starts_with(v, "<tr>\n  <td"@)
}

/// A rendered row that holds header cells.
pub open spec fn spec_is_header_row(v: Seq<char>) -> bool {
    spec_starts_with(v, "<tr>\n  <th"@)
}

/// The number of data rows among the rendered rows.
pub open spec fn spec_data_rows(vs: Seq<Seq<char>>) -> nat
    decreases vs.len(),
{
    if vs.len() == 0 {
        0
    } else {
        spec_data_rows(vs.drop_last()) + if spec_is_data_row(vs.last()) { 1nat } else { 0nat }
    }
}

/// A rendered row of a numbered table: a data row gets its number in a first
/// cell, a header row an empty first header cell.
pub open spec fn spec_numbered_row(v: Seq<char>, number: nat) -> Seq<char> {
    if spec_is_data_row(v) {
        spec_replace(v, "<tr>"@, "<tr>\n  <td>"@ + spec_decimal(number) + "</td>"@)
    } else if spec_is_header_row(v) {
        spec_replace(v, "<tr>"@, "<tr>\n  <th></th>"@)
    } else {
        v
    }
}

/// The rendered rows of a table, numbered when the table asks for it.
pub open spec fn spec_table_rows(vs: Seq<Seq<char>>, numbered: bool) -> Seq<Seq<char>> {
    if numbered {
        Seq::new(vs.len(), |k: int| spec_numbered_row(vs[k], spec_data_rows(vs.take(k + 1))))
    } else {
        vs
    }
}

/// `<a>` link that downloads `data` as a file named `filename`.
pub open spec fn spec_download_link(mime: Seq<char>, b64: Seq<char>, filename: Seq<char>) -> Seq<char> {
    "<a href=\"data:"@ + mime + ";base64,"@ + b64 + "\" download=\""@ + filename + "\">"@ + filename + "</a>"@
}

/// The link to an external media.
pub open spec fn spec_media_link(attrs: Json, id: Seq<char>) -> Seq<char> {
    let filename_attr = match spec_opt_str(spec_get(attrs, "alt"@)) {
        Some(a) => " filename=\""@ + spec_escape(a) + "\""@,
        None => Seq::empty(),
    };
    "<a href=\""@ + spec_escape(id) + "\""@ + filename_attr + " download>"@ + spec_escape(id) + "</a>"@
}

/// The HTML showing a stored file according to its MIME type.
pub open spec fn spec_file_html(f: FileData, width: Option<u64>, height: Option<u64>) -> Seq<char> {
    let mime = f.mime_type@;
    let b64 = spec_base64(f.data@);
    let w = spec_num_attr(" width=\""@, width, "\""@);
    let h = spec_num_attr(" height=\""@, height, "\""@);
    if spec_starts_with(mime, "image/svg"@) {
        spec_utf8_lossy(f.data@)
    } else if spec_starts_with(mime, "image/"@) {
        "<img"@ + w + h + " src=\"data:"@ + spec_escape(mime) + ";base64,"@ + b64 + "\">"@
    } else if spec_starts_with(mime, "video/"@) || spec_starts_with(mime, "audio/"@) {
        let tag = if spec_starts_with(mime, "video/"@) { "video"@ } else { "audio"@ };
        let m = spec_escape(mime);
        "<"@ + tag + w + h + " controls>\n  <source src=\"data:"@ + m + ";base64,"@ + b64 + "\" type=\""@ + m
            + "\">\n  download "@ + tag + " file here: "@ + spec_download_link(m, b64, spec_escape(f.filename@))
            + "\n</"@ + tag + ">"@
    } else {
        spec_download_link(spec_escape(mime), b64, spec_escape(f.filename@))
    }
}

/// The `style` attribute of a media of the given size.
pub open spec fn spec_media_style(width: Option<u64>, height: Option<u64>) -> Seq<char> {
    if width is None && height is None {
        Seq::empty()
    } else {
        " style=\""@ + spec_num_attr("height: "@, height, "px;"@) + spec_num_attr("width: "@, width, "px;"@) + "\""@
    }
}

/// A media node: a stored file shown by its type, or a link, in a `media` block.
pub open spec fn spec_media_html(j: Json, files: Seq<(String, FileData)>) -> SnlView {
    match spec_opt_object(spec_get(j, "attrs"@)) {
        None => spec_fallback(j),
        Some(attrs) => match (spec_opt_str(spec_get(attrs, "id"@)), spec_opt_str(spec_get(attrs, "type"@))) {
            (Some(id), Some(kind)) => {
                let width = spec_as_u64_opt(spec_get(attrs, "width"@));
                let height = spec_as_u64_opt(spec_get(attrs, "height"@));
                let text = if kind == "file"@ {
                    match spec_find_file(files, id) {
                        Some(f) => Some(spec_file_html(f, width, height)),
                        None => None,
                    }
                } else if kind == "link"@ {
                    Some(spec_media_link(attrs, id))
                } else {
                    None
                };
                match text {
                    Some(t) => spec_inline(
                        "<div class=\"media\""@ + spec_media_style(width, height) + ">\n"@ + spec_indent(t, "  "@)
                            + "\n</div>"@,
                    ),
                    None => spec_fallback(j),
                }
            },
            _ => spec_fallback(j),
        },
    }
}

/// An inline media node: a link that downloads the stored file, or a link.
pub open spec fn spec_media_inline_html(j: Json, files: Seq<(String, FileData)>) -> SnlView {
    match spec_opt_object(spec_get(j, "attrs"@)) {
        None => spec_fallback(j),
        Some(attrs) => match (spec_opt_str(spec_get(attrs, "id"@)), spec_opt_str(spec_get(attrs, "type"@))) {
            (Some(id), Some(kind)) => if kind == "file"@ {
                match spec_find_file(files, id) {
                    Some(f) => spec_inline(
                        spec_download_link(spec_escape(f.mime_type@), spec_base64(f.data@), spec_escape(f.filename@)),
                    ),
                    None => spec_fallback(j),
                }
            } else if kind == "link"@ {
                spec_inline(spec_media_link(attrs, id))
            } else {
                spec_fallback(j)
            },
            _ => spec_fallback(j),
        },
    }
}

/// A single media: the media itself, when the content is exactly one media object.
pub open spec fn spec_media_single_html(j: Json, files: Seq<(String, FileData)>) -> SnlView {
    match spec_content(j) {
        Some(a) => if a.len() == 1 && a[0].value is Object && spec_opt_str(spec_get(a[0], "type"@)) == Some("media"@) {
            spec_media_html(a[0], files)
        } else {
            spec_fallback(j)
        },
        None => spec_fallback(j),
    }
}


/// The HTML rendering of a JSON value.
pub open spec fn spec_value_html(j: Json, files: Seq<(String, FileData)>) -> SnlView
    decreases j, 3nat,
{
    match j.value {
        JsonValue::Null => spec_inline("null"@),
        JsonValue::Bool(b) => spec_inline(if b { "true"@ } else { "false"@ }),
        JsonValue::Number(_) => spec_inline(j.text@),
        JsonValue::String(s) => spec_inline(spec_escape(s@)),
        JsonValue::Array(a) => {
            proof {
                assert(decreases_to!(j => j.value));
                assert(decreases_to!(j.value => a));
                assert(decreases_to!(a => a@));
            }
            spec_array_html(a@, files)
        },
        JsonValue::Object(_) => spec_object_html(j, files),
    }
}

/// The renderings of the elements, each in turn.
pub open spec fn spec_values_html(a: Seq<Json>, files: Seq<(String, FileData)>) -> Seq<SnlView>
    decreases a, 0nat,
{
    if a.len() == 0 {
        Seq::empty()
    } else {
        spec_values_html(a.drop_last(), files).push(spec_value_html(a.last(), files))
    }
}

/// The elements rendered and merged.
pub open spec fn spec_array_html(a: Seq<Json>, files: Seq<(String, FileData)>) -> SnlView
    decreases a, 1nat,
{
    spec_merge_all_html(spec_values_html(a, files))
}

/// The merged rendering of `j["content"]`, or `default` when there is no such array.
pub open spec fn spec_content_text_html(j: Json, default: Seq<char>, files: Seq<(String, FileData)>) -> Seq<char>
    decreases j, 0nat,
{
    match spec_content(j) {
        None => default,
        Some(a) => {
            proof { lemma_content_decreases(j); }
            spec_array_html(a, files).text
        },
    }
}

/// An object rendered according to its `type`.
pub open spec fn spec_object_html(j: Json, files: Seq<(String, FileData)>) -> SnlView
    decreases j, 2nat,
{
    match spec_opt_str(spec_get(j, "type"@)) {
        None => spec_fallback(j),
        Some(t) => if t == "blockquote"@ {
            spec_blockquote_html(j, files)
        } else if t == "bulletList"@ {
            spec_bullet_list_html(j, files)
        } else if t == "codeBlock"@ {
            spec_codeblock_html(j, files)
        } else if t == "decisionList"@ {
            spec_decision_list_html(j, files)
        } else if t == "decisionItem"@ {
            spec_decision_item_html(j, files)
        } else if t == "doc"@ {
            spec_top(spec_content_text_html(j, Seq::empty(), files))
        } else if t == "emoji"@ {
            spec_inline(spec_escape(spec_emoji(j)))
        } else if t == "hardBreak"@ {
            spec_inline("<br/>\n"@)
        } else if t == "heading"@ {
            spec_heading_html(j, files)
        } else if t == "inlineCard"@ {
            spec_inline_card_html(j)
        } else if t == "listItem"@ {
            spec_list_item_html(j, files)
        } else if t == "media"@ {
            spec_media_html(j, files)
        } else if t == "mediaInline"@ {
            spec_media_inline_html(j, files)
        } else if t == "mediaSingle"@ {
            spec_media_single_html(j, files)
        } else if t == "mediaGroup"@ {
            spec_media_group_html(j, files)
        } else if t == "mention"@ {
            spec_mention_html(j)
        } else if t == "orderedList"@ {
            spec_ordered_list_html(j, files)
        } else if t == "panel"@ {
            spec_panel_html(j, files)
        } else if t == "paragraph"@ {
            spec_paragraph_html(j, files)
        } else if t == "rule"@ {
            spec_inline("<hr>"@)
        } else if t == "table"@ {
            spec_table_html(j, files)
        } else if t == "tableHeader"@ {
            spec_cell_html(j, "th"@, files)
        } else if t == "tableCell"@ {
            spec_cell_html(j, "td"@, files)
        } else if t == "tableRow"@ {
            spec_table_row_html(j, files)
        } else if t == "taskItem"@ {
            spec_task_item_html(j, files)
        } else if t == "taskList"@ {
            spec_task_list_html(j, files)
        } else if t == "text"@ {
            spec_text_html(j)
        } else {
            spec_fallback(j)
        }
    }
}

/// A quotation: its content, indented, in a `blockquote` element.
pub open spec fn spec_blockquote_html(j: Json, files: Seq<(String, FileData)>) -> SnlView
    decreases j, 1nat,
{
    let inner = spec_content_text_html(j, spec_json_html(j), files);
    spec_top("<blockquote>\n"@ + spec_indent(inner, "  "@) + "\n</blockquote>"@)
}

/// A code block in `pre` and `code` elements of its language's class.
pub open spec fn spec_codeblock_html(j: Json, files: Seq<(String, FileData)>) -> SnlView
    decreases j, 1nat,
{
    let inner = spec_content_text_html(j, spec_escape(spec_json_html(j)), files);
    let language = spec_escape(spec_str_at(j, "attrs"@, "language"@));
    spec_top(
        "<pre><code class=\""@ + language + "\">\n"@ + spec_indent(inner, "  "@) + "\n</code></pre><!-- "@ + language
            + " -->"@,
    )
}

/// A list of decisions.
pub open spec fn spec_decision_list_html(j: Json, files: Seq<(String, FileData)>) -> SnlView
    decreases j, 1nat,
{
    match spec_content(j) {
        None => spec_fallback(j),
        Some(a) => {
            proof { lemma_content_decreases(j); }
            let inner = spec_join(spec_texts_html(spec_values_html(a, files)), "\n"@);
            spec_top("<ul class=\"decision-list\">\n"@ + spec_indent(inner, "  "@) + "\n</ul>"@)
        },
    }
}

/// One decision: its state, then its content.
pub open spec fn spec_decision_item_html(j: Json, files: Seq<(String, FileData)>) -> SnlView
    decreases j, 1nat,
{
    match spec_content(j) {
        None => spec_fallback(j),
        Some(a) => {
            proof { lemma_content_decreases(j); }
            let state = spec_str_at(j, "attrs"@, "state"@);
            let inner = spec_array_html(a, files);
            SnlView {
                text: "<li class=\""@ + spec_decision_class(state)
                    + "\">\n  <span class=\"decision_status\">decision: "@ + spec_decision_for_human(state)
                    + ". </span>\n"@ + spec_indent(inner.text, "  "@) + "\n</li>"@,
                level: inner.level,
            }
        },
    }
}

/// A paragraph, with its local id when it has one.
pub open spec fn spec_paragraph_html(j: Json, files: Seq<(String, FileData)>) -> SnlView
    decreases j, 1nat,
{
    let inner = spec_content_text_html(j, Seq::empty(), files);
    let id = spec_escape(spec_str_at(j, "attrs"@, "localId"@));
    let id_attr = if id.len() == 0 { Seq::empty() } else { " id=\""@ + id + "\""@ };
    spec_top("<p"@ + id_attr + ">\n"@ + inner + "\n"@)
}

/// A heading of its level.
pub open spec fn spec_heading_html(j: Json, files: Seq<(String, FileData)>) -> SnlView
    decreases j, 1nat,
{
    let inner = spec_content_text_html(j, Seq::empty(), files);
    let level = spec_decimal(spec_heading_level(j) as nat);
    spec_top("<h"@ + level + ">"@ + inner + "</h"@ + level + ">\n"@)
}

/// A list item: each rendered element in an `li` element.
pub open spec fn spec_list_item_html(j: Json, files: Seq<(String, FileData)>) -> SnlView
    decreases j, 1nat,
{
    let items = match spec_content(j) {
        None => seq![spec_json_html(j)],
        Some(a) => {
            proof { lemma_content_decreases(j); }
            spec_texts_html(spec_values_html(a, files))
        },
    };
    SnlView {
        text: spec_join(items.map_values(|t: Seq<char>| "<li>"@ + t + "</li>"@), "\n"@),
        level: NodeLevel::ChildNode,
    }
}

/// A bullet list: its rendered elements in a `ul` element.
pub open spec fn spec_bullet_list_html(j: Json, files: Seq<(String, FileData)>) -> SnlView
    decreases j, 1nat,
{
    match spec_content(j) {
        None => spec_top(spec_json_html(j)),
        Some(a) => {
            proof { lemma_content_decreases(j); }
            let inner = spec_join(spec_texts_html(spec_values_html(a, files)), "\n"@);
            spec_top("<ul>\n"@ + spec_indent(inner, "  "@) + "\n</ul>"@)
        },
    }
}

/// A group of media.
pub open spec fn spec_media_group_html(j: Json, files: Seq<(String, FileData)>) -> SnlView
    decreases j, 1nat,
{
    match spec_content(j) {
        Some(a) => if spec_all_medias(a) {
            proof { lemma_content_decreases(j); }
            spec_top(spec_array_html(a, files).text)
        } else {
            spec_fallback(j)
        },
        None => spec_fallback(j),
    }
}

/// An ordered list: each element rendered as a whole document, in an `ol` element.
pub open spec fn spec_ordered_list_html(j: Json, files: Seq<(String, FileData)>) -> SnlView
    decreases j, 1nat,
{
    match spec_content(j) {
        None => SnlView { text: spec_json_html(j), level: NodeLevel::ChildNode },
        Some(a) => {
            proof { lemma_content_decreases(j); }
            let start = spec_num_attr(
                " start=\""@,
                spec_as_u64_opt(spec_opt_get(spec_opt_object(spec_get(j, "attrs"@)), "order"@)),
                "\""@,
            );
            SnlView {
                text: "<ol"@ + start + ">\n"@ + spec_join(spec_roots_html(a, files), "\n"@) + "\n</ol>"@,
                level: NodeLevel::ChildNode,
            }
        },
    }
}

/// A panel of a known type in a `div` of that class.
pub open spec fn spec_panel_html(j: Json, files: Seq<(String, FileData)>) -> SnlView
    decreases j, 1nat,
{
    match spec_opt_str(spec_opt_get(spec_get(j, "attrs"@), "panelType"@)) {
        Some(pt) => if spec_is_panel_type(pt) {
            let inner = spec_content_text_html(j, spec_json_html(j), files);
            spec_top(
                "<div class=\""@ + pt + "\">\n"@ + spec_indent(inner, "  "@) + "\n</div><!-- "@ + pt + " -->"@,
            )
        } else {
            spec_fallback(j)
        },
        None => spec_fallback(j),
    }
}

/// A table cell (`td`) or header (`th`) with its style attributes.
pub open spec fn spec_cell_html(j: Json, tag: Seq<char>, files: Seq<(String, FileData)>) -> SnlView
    decreases j, 1nat,
{
    match spec_content(j) {
        None => spec_top(spec_json_html(j)),
        Some(a) => {
            proof { lemma_content_decreases(j); }
            spec_top(
                "<"@ + tag + spec_cell_style(j) + ">"@ + spec_array_html(a, files).text + "</"@ + tag + ">"@,
            )
        },
    }
}

/// A table row: its cells, indented, in a `tr` element.
pub open spec fn spec_table_row_html(j: Json, files: Seq<(String, FileData)>) -> SnlView
    decreases j, 1nat,
{
    match spec_content(j) {
        None => spec_top(spec_json_html(j)),
        Some(a) => {
            proof { lemma_content_decreases(j); }
            spec_top("<tr>\n"@ + spec_indent(spec_array_html(a, files).text, "  "@) + "\n</tr>"@)
        },
    }
}

/// A table: its rows, numbered when asked, in a `table` element.
pub open spec fn spec_table_html(j: Json, files: Seq<(String, FileData)>) -> SnlView
    decreases j, 1nat,
{
    match spec_content(j) {
        None => spec_top(spec_json_html(j)),
        Some(a) => {
            proof { lemma_content_decreases(j); }
            if a.len() == 0 {
                spec_fallback(j)
            } else {
                let rows = spec_table_rows(spec_texts_html(spec_values_html(a, files)), spec_numbered_columns(j));
                spec_top(
                    "<table"@ + spec_table_style(j) + ">\n"@ + spec_indent(spec_join(rows, "\n"@), "  "@)
                        + "\n</table>"@,
                )
            }
        },
    }
}

/// A task: its checkbox, then its content, in an `li` element.
pub open spec fn spec_task_item_html(j: Json, files: Seq<(String, FileData)>) -> SnlView
    decreases j, 1nat,
{
    match (spec_opt_object(spec_get(j, "attrs"@)), spec_content(j)) {
        (Some(attrs), Some(a)) => {
            proof { lemma_content_decreases(j); }
            let status = spec_or_empty(spec_opt_str(spec_get(attrs, "state"@)));
            let inner = spec_array_html(a, files);
            SnlView {
                text: "<li class=\"task_item\">\n"@ + spec_indent(spec_checkbox(status) + " "@ + inner.text, "  "@)
                    + "\n</li>"@,
                level: inner.level,
            }
        },
        _ => spec_fallback(j),
    }
}

/// A task list: its tasks in a `ul` element.
pub open spec fn spec_task_list_html(j: Json, files: Seq<(String, FileData)>) -> SnlView
    decreases j, 1nat,
{
    match spec_content(j) {
        None => spec_fallback(j),
        Some(a) => {
            proof { lemma_content_decreases(j); }
            let inner = if a.len() == 0 {
                spec_json_html(j)
            } else {
                spec_join(spec_texts_html(spec_values_html(a, files)), "\n"@)
            };
            spec_top("<ul class=\"task_list\">\n"@ + spec_indent(inner, "  "@) + "\n</ul>"@)
        },
    }
}

/// Each element rendered as a whole document.
pub open spec fn spec_roots_html(a: Seq<Json>, files: Seq<(String, FileData)>) -> Seq<Seq<char>>
    decreases a, 0nat,
{
    if a.len() == 0 {
        Seq::empty()
    } else {
        spec_roots_html(a.drop_last(), files).push(spec_root_html(a.last(), files))
    }
}

/// A whole document (`{"type": "doc", "content": [...]}`) rendered as HTML;
/// anything else is given back as its JSON text.
pub open spec fn spec_root_html(d: Json, files: Seq<(String, FileData)>) -> Seq<char>
    decreases d, 3nat,
{
    if !(d.value is Object) {
        d.text@
    } else if spec_opt_str(spec_get(d, "type"@)) != Some("doc"@) {
        d.text@
    } else {
        match spec_content(d) {
            None => d.text@,
            Some(a) => {
                proof { lemma_content_decreases(d); }
                spec_array_html(a, files).text
            },
        }
    }
}


// ---------------------------------------------------------------------------
// Rendering
// ---------------------------------------------------------------------------

/// The file stored under `uuid`, if any.
pub fn find_file<'a>(files: &'a Vec<(String, FileData)>, uuid: &str) -> (res: Option<&'a FileData>)
    ensures
        match res {
            Some(f) => spec_find_file(files@, uuid@) == Some(*f),
            None => spec_find_file(files@, uuid@) is None,
        },
{
    let mut i: usize = 0;
    assert(files@.skip(0) == files@);
    while i < files.len()
        invariant
            i <= files.len(),
            spec_find_file(files@, uuid@) == spec_find_file(files@.skip(i as int), uuid@),
        decreases files.len() - i,
    {
        let ghost rest = files@.skip(i as int);
        assert(rest[0] == files@[i as int]);
        assert(rest.drop_first() == files@.skip(i + 1));
        if str_eq(files[i].0.as_str(), uuid) {
            return Some(&files[i].1);
        }
        i = i + 1;
    }
    None
}

/// The node's pretty-printed JSON, escaped, in a `json_data` block.
fn json_map_to_html_string(json: &Json) -> (res: String)
    ensures
        res@ == spec_json_html(*json),
{
    let pretty = json_map_to_string(json);
    let escaped = escape_html(pretty.as_str());
    let mut res = to_owned("<pre><code class=\"json_data\">\n");
    res.append(indent_with(escaped.as_str(), "  ").as_str());
    res.append("\n</code></pre><!-- json_data -->");
    res
}

/// The fallback for a node that cannot be rendered.
fn json_to_toplevel_html_string(json: &Json) -> (res: StringWithNodeLevel)
    ensures
        res@ == spec_fallback(*json),
{
    let block = json_map_to_html_string(json);
    to_top_level(escape_html(block.as_str()))
}

/// Two pieces joined by a newline.
pub fn merge_two_string_with_node_level(a: &StringWithNodeLevel, b: &StringWithNodeLevel) -> (res: StringWithNodeLevel)
    ensures
        res@ == spec_merge_html(a@, b@),
{
    let mut text = a.text.clone();
    text.append("\n");
    text.append(b.text.as_str());
    StringWithNodeLevel { text, node_level: b.node_level }
}

/// All pieces merged from left to right.
fn merge_all_html(xs: &Vec<StringWithNodeLevel>) -> (res: StringWithNodeLevel)
    ensures
        res@ == spec_merge_all_html(spec_snls(xs@)),
{
    if xs.len() == 0 {
        return to_inline(String::new());
    }
    let ghost v = spec_snls(xs@);
    let mut acc = StringWithNodeLevel { text: xs[0].text.clone(), node_level: xs[0].node_level };
    assert(v.take(1).drop_last().len() == 0);
    let mut i: usize = 1;
    while i < xs.len()
        invariant
            1 <= i <= xs.len(),
            v == spec_snls(xs@),
            acc@ == spec_merge_all_html(v.take(i as int)),
        decreases xs.len() - i,
    {
        assert(v.take(i + 1).drop_last() == v.take(i as int));
        acc = merge_two_string_with_node_level(&acc, &xs[i]);
        i = i + 1;
    }
    assert(v.take(xs.len() as int) == v);
    acc
}

/// The texts of rendered pieces.
fn texts_of_html(xs: &Vec<StringWithNodeLevel>) -> (res: Vec<String>)
    ensures
        res@.map_values(|x: String| x@) == spec_texts_html(spec_snls(xs@)),
{
    let mut res: Vec<String> = Vec::new();
    let mut i: usize = 0;
    while i < xs.len()
        invariant
            i <= xs.len(),
            res@.len() == i,
            forall|k: int| 0 <= k < i ==> #[trigger] res@[k]@ == xs@[k].text@,
        decreases xs.len() - i,
    {
        res.push(xs[i].text.clone());
        i = i + 1;
    }
    assert(res@.map_values(|x: String| x@) == spec_texts_html(spec_snls(xs@)));
    res
}

/// `before` + `n` in decimal + `after`, or nothing without a number.
fn num_attr(before: &str, n: Option<u64>, after: &str) -> (res: String)
    ensures
        res@ == spec_num_attr(before@, n, after@),
{
    match n {
        Some(v) => {
            let mut res = to_owned(before);
            res.append(decimal(v).as_str());
            res.append(after);
            res
        },
        None => String::new(),
    }
}

/// `o[key]` as an unsigned integer, when `o` is an object that has one.
fn u64_at(o: Option<&Json>, key: &str) -> (res: Option<u64>)
    ensures
        res == spec_as_u64_opt(spec_opt_get(
            match o {
                Some(j) => Some(*j),
                None => None::<Json>,
            },
            key@,
        )),
{
    match o {
        None => None,
        Some(j) => match j.get(key) {
            None => None,
            Some(v) => v.as_u64(),
        },
    }
}

/// `j["attrs"]` when it is an object.
fn attrs_object(j: &Json) -> (res: Option<&Json>)
    ensures
        match res {
            Some(a) => spec_opt_object(spec_get(*j, "attrs"@)) == Some(*a),
            None => spec_opt_object(spec_get(*j, "attrs"@)) is None,
        },
{
    match j.get("attrs") {
        None => None,
        Some(a) => if a.is_object() { Some(a) } else { None },
    }
}

/// A text decorated by one mark, as HTML.
fn apply_mark_html(mark: Result<MarkKind, String>, content: String) -> (res: String)
    ensures
        res@ == spec_apply_mark_html(
            match mark {
                Ok(k) => Ok::<MarkView, Seq<char>>(k@),
                Err(e) => Err::<MarkView, Seq<char>>(e@),
            },
            content@,
        ),
{
    let (before, after): (&str, &str) = match &mark {
        Ok(MarkKind::Code) => ("<code>", "</code>"),
        Ok(MarkKind::Emphasis) => ("<em>", "</em>"),
        Ok(MarkKind::Link(l)) => {
            let mut res = to_owned("<a href=\"");
            res.append(l.href.as_str());
            res.append("\"");
            match &l.title {
                Some(t) => {
                    res.append(" title=\"");
                    res.append(t.as_str());
                    res.append("\"");
                },
                None => {},
            }
            res.append(">");
            res.append(content.as_str());
            res.append("</a>");
            return res;
        },
        Ok(MarkKind::Strike) => ("<s>", "</s>"),
        Ok(MarkKind::Strong) => ("<strong>", "</strong>"),
        Ok(MarkKind::Superscript) => ("<sup>", "</sup>"),
        Ok(MarkKind::SubScript) => ("<sub>", "</sub>"),
        Ok(MarkKind::TextColour(h)) => {
            let mut res = to_owned("<span style=\"color:");
            res.append(h.as_str());
            res.append("\">");
            res.append(content.as_str());
            res.append("</span>");
            return res;
        },
        Ok(MarkKind::BackgroundColour(h)) => {
            let mut res = to_owned("<span style=\"background-color:");
            res.append(h.as_str());
            res.append("\">");
            res.append(content.as_str());
            res.append("</span>");
            return res;
        },
        Ok(MarkKind::Underline) => ("<span class=\"underline\">", "</span>"),
        Err(_) => return content,
    };
    let mut res = to_owned(before);
    res.append(content.as_str());
    res.append(after);
    res
}

fn text_to_html_string(json: &Json) -> (res: StringWithNodeLevel)
    ensures
        res@ == spec_text_html(*json),
{
    let mut content = escape_html(string_or_empty(str_of(json, "text")).as_str());
    let ghost c0 = content@;
    if let Some(marks) = json.get("marks") {
        if let Some(marks) = marks.as_array() {
            let mut i: usize = 0;
            while i < marks.len()
                invariant
                    i <= marks.len(),
                    content@ == spec_apply_marks_html(marks@.take(i as int), c0),
                decreases marks.len() - i,
            {
                assert(marks@.take(i + 1).drop_last() == marks@.take(i as int));
                assert(marks@.take(i + 1).last() == marks@[i as int]);
                content = apply_mark_html(get_mark_kind(&marks[i]), content);
                i = i + 1;
            }
            assert(marks@.take(marks.len() as int) == marks@);
        }
    }
    to_inline(content)
}

fn emoji_to_html_string(json: &Json) -> (res: StringWithNodeLevel)
    ensures
        res@ == spec_inline(spec_escape(spec_emoji(*json))),
{
    let plain = emoji_to_string(json);
    to_inline(escape_html(plain.text.as_str()))
}

fn hardbreak_to_html_string(_json: &Json) -> (res: StringWithNodeLevel)
    ensures
        res@ == spec_inline("<br/>\n"@),
{
    to_inline(to_owned("<br/>\n"))
}

fn rule_to_html_string(_json: &Json) -> (res: StringWithNodeLevel)
    ensures
        res@ == spec_inline("<hr>"@),
{
    to_inline(to_owned("<hr>"))
}

/// Text, escaped, between `<verbatim>` tags.
pub fn to_html_verbatim(val: &str) -> (res: String)
    ensures
        res@ == "<verbatim>"@ + spec_escape(val@) + "</verbatim>"@,
{
    let mut res = to_owned("<verbatim>");
    res.append(escape_html(val).as_str());
    res.append("</verbatim>");
    res
}

fn mention_to_html_string(json: &Json) -> (res: StringWithNodeLevel)
    ensures
        res@ == spec_mention_html(*json),
{
    let attrs = match attrs_object(json) {
        Some(a) => a,
        None => return to_inline(json_map_to_html_string(json)),
    };
    if let Some(s) = str_of(attrs, "text") {
        return to_inline(escape_html(s.as_str()));
    }
    match str_of(attrs, "id") {
        None => to_inline(json_map_to_html_string(json)),
        Some(s) => to_inline(escape_html(s.as_str())),
    }
}

fn inline_card_to_html_string(inline_card: &Json) -> (res: StringWithNodeLevel)
    ensures
        res@ == spec_inline_card_html(*inline_card),
{
    let attrs = match inline_card.get("attrs") {
        None => return to_inline(json_map_to_html_string(inline_card)),
        Some(a) => a,
    };
    if !attrs.is_object() {
        return to_inline(json_map_to_html_string(inline_card));
    }
    let url = attrs.get("url");
    let data = attrs.get("data");
    let res = match (url, data) {
        (None, None) => json_map_to_html_string(inline_card),
        (Some(url), None) => match url.as_str() {
            Some(u) => {
                let eu = escape_html(u.as_str());
                let mut res = to_owned("<a href=\"");
                res.append(eu.as_str());
                res.append("\">");
                res.append(eu.as_str());
                res.append("</a>");
                res
            },
            None => if url.is_object() {
                json_map_to_html_string(url)
            } else {
                json_map_to_html_string(inline_card)
            },
        },
        (Some(_), Some(_)) => json_map_to_html_string(inline_card),
        (None, Some(data)) => if data.is_object() {
            json_map_to_html_string(data)
        } else {
            to_html_verbatim(data.text.as_str())
        },
    };
    to_inline(res)
}


/// Each element rendered in turn.
fn values_to_html_strings(content: &Vec<Json>, files: &Vec<(String, FileData)>) -> (res: Vec<StringWithNodeLevel>)
    ensures
        spec_snls(res@) == spec_values_html(content@, files@),
    decreases content@, 0nat,
{
    let mut res: Vec<StringWithNodeLevel> = Vec::new();
    let mut i: usize = 0;
    while i < content.len()
        invariant
            i <= content.len(),
            spec_values_html(content@.take(i as int), files@) == spec_snls(res@),
        decreases content.len() - i,
    {
        assert(content@.take(i + 1).drop_last() == content@.take(i as int));
        assert(content@.take(i + 1).last() == content@[i as int]);
        let x = value_to_html_string(&content[i], files);
        res.push(x);
        assert(spec_snls(res@) == spec_snls(res@.drop_last()).push(res@.last()@));
        i = i + 1;
    }
    assert(content@.take(content.len() as int) == content@);
    res
}

/// The elements rendered and merged with newlines.
pub fn array_of_value_to_html_string(content: &Vec<Json>, files: &Vec<(String, FileData)>) -> (res: StringWithNodeLevel)
    ensures
        res@ == spec_array_html(content@, files@),
    decreases content@, 1nat,
{
    let v = values_to_html_strings(content, files);
    merge_all_html(&v)
}

/// The merged rendering of the content, or `default` without content.
fn content_text_html(json: &Json, default: String, files: &Vec<(String, FileData)>) -> (res: String)
    ensures
        res@ == spec_content_text_html(*json, default@, files@),
    decreases json, 0nat,
{
    match content_of(json) {
        None => default,
        Some(a) => {
            proof { lemma_content_decreases(*json); }
            array_of_value_to_html_string(a, files).text
        },
    }
}

fn blockquote_to_html_string(json: &Json, files: &Vec<(String, FileData)>) -> (res: StringWithNodeLevel)
    ensures
        res@ == spec_blockquote_html(*json, files@),
    decreases json, 1nat,
{
    let inner = content_text_html(json, json_map_to_html_string(json), files);
    let mut text = to_owned("<blockquote>\n");
    text.append(indent_with(inner.as_str(), "  ").as_str());
    text.append("\n</blockquote>");
    to_top_level(text)
}

fn codeblock_to_html_string(json: &Json, files: &Vec<(String, FileData)>) -> (res: StringWithNodeLevel)
    ensures
        res@ == spec_codeblock_html(*json, files@),
    decreases json, 1nat,
{
    let fallback = escape_html(json_map_to_html_string(json).as_str());
    let inner = content_text_html(json, fallback, files);
    let language = escape_html(string_or_empty(str_at(json, "attrs", "language")).as_str());
    let mut text = to_owned("<pre><code class=\"");
    text.append(language.as_str());
    text.append("\">\n");
    text.append(indent_with(inner.as_str(), "  ").as_str());
    text.append("\n</code></pre><!-- ");
    text.append(language.as_str());
    text.append(" -->");
    to_top_level(text)
}

fn decision_list_to_html_string(decision_list: &Json, files: &Vec<(String, FileData)>) -> (res: StringWithNodeLevel)
    ensures
        res@ == spec_decision_list_html(*decision_list, files@),
    decreases decision_list, 1nat,
{
    let content = match content_of(decision_list) {
        None => return json_to_toplevel_html_string(decision_list),
        Some(a) => a,
    };
    proof { lemma_content_decreases(*decision_list); }
    let xs = values_to_html_strings(content, files);
    let inner = join(&texts_of_html(&xs), "\n");
    let mut text = to_owned("<ul class=\"decision-list\">\n");
    text.append(indent_with(inner.as_str(), "  ").as_str());
    text.append("\n</ul>");
    to_top_level(text)
}

fn decision_item_to_html_string(decision_item: &Json, files: &Vec<(String, FileData)>) -> (res: StringWithNodeLevel)
    ensures
        res@ == spec_decision_item_html(*decision_item, files@),
    decreases decision_item, 1nat,
{
    let content = match content_of(decision_item) {
        None => return json_to_toplevel_html_string(decision_item),
        Some(a) => a,
    };
    proof { lemma_content_decreases(*decision_item); }
    let state = string_or_empty(str_at(decision_item, "attrs", "state"));
    let (class, human): (&str, &str) = if str_eq(state.as_str(), "DECIDED") {
        ("decision-agreed-on", "decided")
    } else if str_eq(state.as_str(), "UNDECIDED") {
        ("decision-pending", "undecided")
    } else {
        ("decision-unknown", "unknown")
    };
    let inner = array_of_value_to_html_string(content, files);
    let mut text = to_owned("<li class=\"");
    text.append(class);
    text.append("\">\n  <span class=\"decision_status\">decision: ");
    text.append(human);
    text.append(". </span>\n");
    text.append(indent_with(inner.text.as_str(), "  ").as_str());
    text.append("\n</li>");
    StringWithNodeLevel { text, node_level: inner.node_level }
}

fn paragraph_to_html_string(json: &Json, files: &Vec<(String, FileData)>) -> (res: StringWithNodeLevel)
    ensures
        res@ == spec_paragraph_html(*json, files@),
    decreases json, 1nat,
{
    let inner = content_text_html(json, String::new(), files);
    let id = escape_html(string_or_empty(str_at(json, "attrs", "localId")).as_str());
    let id_attr = if id.as_str().is_empty() {
        String::new()
    } else {
        let mut a = to_owned(" id=\"");
        a.append(id.as_str());
        a.append("\"");
        a
    };
    let mut text = to_owned("<p");
    text.append(id_attr.as_str());
    text.append(">\n");
    text.append(inner.as_str());
    text.append("\n");
    assert(text@ =~= "<p"@ + id_attr@ + ">\n"@ + inner@ + "\n"@);
    to_top_level(text)
}

fn doc_to_html_string(json: &Json, files: &Vec<(String, FileData)>) -> (res: StringWithNodeLevel)
    ensures
        res@ == spec_top(spec_content_text_html(*json, Seq::empty(), files@)),
    decreases json, 1nat,
{
    to_top_level(content_text_html(json, String::new(), files))
}

fn heading_to_html_string(json: &Json, files: &Vec<(String, FileData)>) -> (res: StringWithNodeLevel)
    ensures
        res@ == spec_heading_html(*json, files@),
    decreases json, 1nat,
{
    let inner = content_text_html(json, String::new(), files);
    let level = decimal(heading_level(json) as u64);
    let mut text = to_owned("<h");
    text.append(level.as_str());
    text.append(">");
    text.append(inner.as_str());
    text.append("</h");
    text.append(level.as_str());
    text.append(">\n");
    to_top_level(text)
}

fn list_item_to_html_string(json: &Json, files: &Vec<(String, FileData)>) -> (res: StringWithNodeLevel)
    ensures
        res@ == spec_list_item_html(*json, files@),
    decreases json, 1nat,
{
    let texts = match content_of(json) {
        None => vec![json_map_to_html_string(json)],
        Some(a) => {
            proof { lemma_content_decreases(*json); }
            let xs = values_to_html_strings(a, files);
            texts_of_html(&xs)
        },
    };
    let ghost tv = texts@.map_values(|x: String| x@);
    let mut items: Vec<String> = Vec::new();
    let mut i: usize = 0;
    while i < texts.len()
        invariant
            i <= texts.len(),
            tv == texts@.map_values(|x: String| x@),
            items@.len() == i,
            forall|k: int| 0 <= k < i ==> #[trigger] items@[k]@ == "<li>"@ + tv[k] + "</li>"@,
        decreases texts.len() - i,
    {
        let mut item = to_owned("<li>");
        item.append(texts[i].as_str());
        item.append("</li>");
        items.push(item);
        i = i + 1;
    }
    assert(items@.map_values(|x: String| x@) == tv.map_values(|t: Seq<char>| "<li>"@ + t + "</li>"@));
    StringWithNodeLevel { text: join(&items, "\n"), node_level: NodeLevel::ChildNode }
}

fn bullet_list_to_html_string(json: &Json, files: &Vec<(String, FileData)>) -> (res: StringWithNodeLevel)
    ensures
        res@ == spec_bullet_list_html(*json, files@),
    decreases json, 1nat,
{
    let content = match content_of(json) {
        None => return to_top_level(json_map_to_html_string(json)),
        Some(a) => a,
    };
    proof { lemma_content_decreases(*json); }
    let xs = values_to_html_strings(content, files);
    let inner = join(&texts_of_html(&xs), "\n");
    let mut text = to_owned("<ul>\n");
    text.append(indent_with(inner.as_str(), "  ").as_str());
    text.append("\n</ul>");
    to_top_level(text)
}

fn media_group_to_html_string(media_group_item: &Json, files: &Vec<(String, FileData)>) -> (res: StringWithNodeLevel)
    ensures
        res@ == spec_media_group_html(*media_group_item, files@),
    decreases media_group_item, 1nat,
{
    let content = match content_of(media_group_item) {
        None => return json_to_toplevel_html_string(media_group_item),
        Some(a) => a,
    };
    if !are_all_medias(content) {
        return json_to_toplevel_html_string(media_group_item);
    }
    proof { lemma_content_decreases(*media_group_item); }
    to_top_level(array_of_value_to_html_string(content, files).text)
}


/// The views of strings after a push: the views before, and the new one.
proof fn lemma_map_views_push(before: Seq<String>, after: Seq<String>)
    requires
        after.len() == before.len() + 1,
        after.drop_last() == before,
    ensures
        after.map_values(|x: String| x@) == before.map_values(|x: String| x@).push(after.last()@),
{
    assert(after.map_values(|x: String| x@) =~= before.map_values(|x: String| x@).push(after.last()@));
}

/// Each element rendered as a whole document.
fn roots_to_html_strings(content: &Vec<Json>, files: &Vec<(String, FileData)>) -> (res: Vec<String>)
    ensures
        res@.map_values(|x: String| x@) == spec_roots_html(content@, files@),
    decreases content@, 0nat,
{
    let mut res: Vec<String> = Vec::new();
    let mut i: usize = 0;
    while i < content.len()
        invariant
            i <= content.len(),
            spec_roots_html(content@.take(i as int), files@) == res@.map_values(|x: String| x@),
        decreases content.len() - i,
    {
        assert(content@.take(i + 1).drop_last() == content@.take(i as int));
        assert(content@.take(i + 1).last() == content@[i as int]);
        let x = root_elt_doc_to_html_string(&content[i], files);
        let ghost before = res@;
        res.push(x);
        proof {
            assert(res@.drop_last() =~= before);
            lemma_map_views_push(before, res@);
        }
        i = i + 1;
    }
    assert(content@.take(content.len() as int) == content@);
    res
}

fn ordered_list_to_html_string(json: &Json, files: &Vec<(String, FileData)>) -> (res: StringWithNodeLevel)
    ensures
        res@ == spec_ordered_list_html(*json, files@),
    decreases json, 1nat,
{
    let content = match content_of(json) {
        None => return StringWithNodeLevel { text: json_map_to_html_string(json), node_level: NodeLevel::ChildNode },
        Some(a) => a,
    };
    proof { lemma_content_decreases(*json); }
    let start = num_attr(" start=\"", u64_at(attrs_object(json), "order"), "\"");
    let items = roots_to_html_strings(content, files);
    let mut text = to_owned("<ol");
    text.append(start.as_str());
    text.append(">\n");
    text.append(join(&items, "\n").as_str());
    text.append("\n</ol>");
    StringWithNodeLevel { text, node_level: NodeLevel::ChildNode }
}

fn panel_to_html_string(json: &Json, files: &Vec<(String, FileData)>) -> (res: StringWithNodeLevel)
    ensures
        res@ == spec_panel_html(*json, files@),
    decreases json, 1nat,
{
    let panel_type = match str_at(json, "attrs", "panelType") {
        Some(t) => if is_panel_type(t.as_str()) { t } else { return json_to_toplevel_html_string(json) },
        None => return json_to_toplevel_html_string(json),
    };
    let inner = content_text_html(json, json_map_to_html_string(json), files);
    let mut text = to_owned("<div class=\"");
    text.append(panel_type.as_str());
    text.append("\">\n");
    text.append(indent_with(inner.as_str(), "  ").as_str());
    text.append("\n</div><!-- ");
    text.append(panel_type.as_str());
    text.append(" -->");
    to_top_level(text)
}

/// The style attributes of a table cell or header.
fn get_style_str_for_table_cell_and_header(json: &Json) -> (res: String)
    ensures
        res@ == spec_cell_style(*json),
{
    let attrs = attrs_object(json);
    let mut res = match attrs {
        None => String::new(),
        Some(a) => match str_of(a, "background") {
            Some(b) => {
                let mut s = to_owned(" style=\"background: ");
                s.append(escape_html(b.as_str()).as_str());
                s.append(";\"");
                s
            },
            None => String::new(),
        },
    };
    res.append(num_attr(" colspan=\"", u64_at(attrs, "colspan"), "\"").as_str());
    res.append(num_attr(" rowspan=\"", u64_at(attrs, "rowspan"), "\"").as_str());
    res
}

/// A table cell or header between the tags `<tag ...>` and `</tag>`.
fn cell_to_html_string(json: &Json, tag: &str, files: &Vec<(String, FileData)>) -> (res: StringWithNodeLevel)
    ensures
        res@ == spec_cell_html(*json, tag@, files@),
    decreases json, 0nat,
{
    let content = match content_of(json) {
        None => return to_top_level(json_map_to_html_string(json)),
        Some(a) => a,
    };
    proof { lemma_content_decreases(*json); }
    let inner = array_of_value_to_html_string(content, files);
    let attrs = get_style_str_for_table_cell_and_header(json);
    let mut text = to_owned("<");
    text.append(tag);
    text.append(attrs.as_str());
    text.append(">");
    text.append(inner.text.as_str());
    text.append("</");
    text.append(tag);
    text.append(">");
    to_top_level(text)
}

fn table_cell_to_html_string(json: &Json, files: &Vec<(String, FileData)>) -> (res: StringWithNodeLevel)
    ensures
        res@ == spec_cell_html(*json, "td"@, files@),
    decreases json, 1nat,
{
    cell_to_html_string(json, "td", files)
}

fn table_header_to_html_string(json: &Json, files: &Vec<(String, FileData)>) -> (res: StringWithNodeLevel)
    ensures
        res@ == spec_cell_html(*json, "th"@, files@),
    decreases json, 1nat,
{
    cell_to_html_string(json, "th", files)
}

fn table_row_to_html_string(json: &Json, files: &Vec<(String, FileData)>) -> (res: StringWithNodeLevel)
    ensures
        res@ == spec_table_row_html(*json, files@),
    decreases json, 1nat,
{
    let content = match content_of(json) {
        None => return to_top_level(json_map_to_html_string(json)),
        Some(a) => a,
    };
    proof { lemma_content_decreases(*json); }
    let inner = array_of_value_to_html_string(content, files);
    let mut text = to_owned("<tr>\n");
    text.append(indent_with(inner.text.as_str(), "  ").as_str());
    text.append("\n</tr>");
    to_top_level(text)
}

/// The `style` attribute of a table.
fn table_style(json: &Json) -> (res: String)
    ensures
        res@ == spec_table_style(*json),
{
    let attrs = attrs_object(json);
    let mut style = num_attr("width: ", u64_at(attrs, "width"), "px;");
    let layout = match attrs {
        None => None,
        Some(a) => str_of(a, "layout"),
    };
    match layout {
        Some(l) => if str_eq(l.as_str(), "center") {
            style.append("align-content: center;");
        } else if str_eq(l.as_str(), "align-start") {
            style.append("align-content: flex-start;");
        },
        None => {},
    }
    if style.as_str().is_empty() {
        style
    } else {
        let mut res = to_owned(" style=\"");
        res.append(style.as_str());
        res.append("\"");
        res
    }
}

/// Whether a table asks for a column of row numbers.
fn numbered_columns(json: &Json) -> (res: bool)
    ensures
        res == spec_numbered_columns(*json),
{
    match attrs_object(json) {
        None => false,
        Some(a) => match a.get("isNumberColumnEnabled") {
            None => false,
            Some(b) => match b.as_bool() {
                Some(v) => v,
                None => false,
            },
        },
    }
}

/// The number of data rows in a prefix grows by one at each data row.
proof fn lemma_data_rows_step(vs: Seq<Seq<char>>, k: int)
    requires
        0 <= k < vs.len(),
    ensures
        spec_data_rows(vs.take(k + 1)) == spec_data_rows(vs.take(k)) + if spec_is_data_row(vs[k]) { 1nat } else { 0nat },
{
    assert(vs.take(k + 1).drop_last() == vs.take(k));
    assert(vs.take(k + 1).last() == vs[k]);
}

/// The rows of a table, numbered when asked.
fn number_rows(rows: Vec<String>, numbered: bool) -> (res: Vec<String>)
    ensures
        res@.map_values(|x: String| x@) == spec_table_rows(rows@.map_values(|x: String| x@), numbered),
{
    if !numbered {
        return rows;
    }
    let ghost rv = rows@.map_values(|x: String| x@);
    let mut res: Vec<String> = Vec::new();
    let mut cur_row: u64 = 0;
    let mut i: usize = 0;
    while i < rows.len()
        invariant
            i <= rows.len(),
            rv == rows@.map_values(|x: String| x@),
            cur_row == spec_data_rows(rv.take(i as int)),
            cur_row <= i,
            res@.len() == i,
            forall|k: int| 0 <= k < i ==> #[trigger] res@[k]@ == spec_numbered_row(rv[k], spec_data_rows(rv.take(k + 1))),
        decreases rows.len() - i,
    {
        proof { lemma_data_rows_step(rv, i as int); }
        let v = rows[i].as_str();
        let row = if starts_with(v, "<tr>\n  <td") {
            cur_row = cur_row + 1;
            let mut replacement = to_owned("<tr>\n  <td>");
            replacement.append(decimal(cur_row).as_str());
            replacement.append("</td>");
            proof { reveal_strlit("<tr>"); }
            replace(v, "<tr>", replacement.as_str())
        } else if starts_with(v, "<tr>\n  <th") {
            proof { reveal_strlit("<tr>"); }
            replace(v, "<tr>", "<tr>\n  <th></th>")
        } else {
            rows[i].clone()
        };
        res.push(row);
        i = i + 1;
    }
    assert(res@.map_values(|x: String| x@) == spec_table_rows(rv, true));
    res
}

fn table_to_html_string(json: &Json, files: &Vec<(String, FileData)>) -> (res: StringWithNodeLevel)
    ensures
        res@ == spec_table_html(*json, files@),
    decreases json, 1nat,
{
    let content = match content_of(json) {
        None => return to_top_level(json_map_to_html_string(json)),
        Some(a) => a,
    };
    proof { lemma_content_decreases(*json); }
    if content.len() == 0 {
        return json_to_toplevel_html_string(json);
    }
    let style = table_style(json);
    let xs = values_to_html_strings(content, files);
    let rows = number_rows(texts_of_html(&xs), numbered_columns(json));
    let mut text = to_owned("<table");
    text.append(style.as_str());
    text.append(">\n");
    text.append(indent_with(join(&rows, "\n").as_str(), "  ").as_str());
    text.append("\n</table>");
    to_top_level(text)
}

fn task_item_to_html_string(json: &Json, files: &Vec<(String, FileData)>) -> (res: StringWithNodeLevel)
    ensures
        res@ == spec_task_item_html(*json, files@),
    decreases json, 1nat,
{
    let attrs = attrs_object(json);
    let content = content_of(json);
    if attrs.is_none() || content.is_none() {
        return json_to_toplevel_html_string(json);
    }
    let attrs = attrs.unwrap();
    let content = content.unwrap();
    proof { lemma_content_decreases(*json); }
    let status = string_or_empty(str_of(attrs, "state"));
    let checkbox = if str_eq(status.as_str(), "TODO") {
        "<input type=\"checkbox\" checked class=\"task_item_done\" />"
    } else if str_eq(status.as_str(), "DONE") {
        "<input type=\"checkbox\" class=\"task_item_todo\" />"
    } else {
        "<input type=\"checkbox\" class=\"task_item_invalid\" />"
    };
    let inner = array_of_value_to_html_string(content, files);
    let mut line = to_owned(checkbox);
    line.append(" ");
    line.append(inner.text.as_str());
    let mut text = to_owned("<li class=\"task_item\">\n");
    text.append(indent_with(line.as_str(), "  ").as_str());
    text.append("\n</li>");
    StringWithNodeLevel { text, node_level: inner.node_level }
}

fn task_list_to_html_string(json: &Json, files: &Vec<(String, FileData)>) -> (res: StringWithNodeLevel)
    ensures
        res@ == spec_task_list_html(*json, files@),
    decreases json, 1nat,
{
    let content = match content_of(json) {
        None => return json_to_toplevel_html_string(json),
        Some(a) => a,
    };
    proof { lemma_content_decreases(*json); }
    let inner = if content.len() == 0 {
        json_map_to_html_string(json)
    } else {
        let xs = values_to_html_strings(content, files);
        join(&texts_of_html(&xs), "\n")
    };
    let mut text = to_owned("<ul class=\"task_list\">\n");
    text.append(indent_with(inner.as_str(), "  ").as_str());
    text.append("\n</ul>");
    to_top_level(text)
}


/// A link that downloads data as a file.
fn download_link(mime: &str, b64: &str, filename: &str) -> (res: String)
    ensures
        res@ == spec_download_link(mime@, b64@, filename@),
{
    let mut res = to_owned("<a href=\"data:");
    res.append(mime);
    res.append(";base64,");
    res.append(b64);
    res.append("\" download=\"");
    res.append(filename);
    res.append("\">");
    res.append(filename);
    res.append("</a>");
    res
}

/// The link to an external media.
fn media_link(attrs: &Json, id: &str) -> (res: String)
    ensures
        res@ == spec_media_link(*attrs, id@),
{
    let eid = escape_html(id);
    let mut res = to_owned("<a href=\"");
    res.append(eid.as_str());
    res.append("\"");
    match str_of(attrs, "alt") {
        Some(a) => {
            res.append(" filename=\"");
            res.append(escape_html(a.as_str()).as_str());
            res.append("\"");
        },
        None => {},
    }
    res.append(" download>");
    res.append(eid.as_str());
    res.append("</a>");
    res
}

/// A stored file shown according to its MIME type.
fn file_to_html(f: &FileData, width: Option<u64>, height: Option<u64>) -> (res: String)
    ensures
        res@ == spec_file_html(*f, width, height),
{
    let mime = f.mime_type.as_str();
    if starts_with(mime, "image/svg") {
        return utf8_lossy(f.data.as_slice());
    }
    let b64 = base64_encode(f.data.as_slice());
    let w = num_attr(" width=\"", width, "\"");
    let h = num_attr(" height=\"", height, "\"");
    let m = escape_html(mime);
    let ef = escape_html(f.filename.as_str());
    if starts_with(mime, "image/") {
        let mut res = to_owned("<img");
        res.append(w.as_str());
        res.append(h.as_str());
        res.append(" src=\"data:");
        res.append(m.as_str());
        res.append(";base64,");
        res.append(b64.as_str());
        res.append("\">");
        res
    } else if starts_with(mime, "video/") || starts_with(mime, "audio/") {
        let tag = if starts_with(mime, "video/") { "video" } else { "audio" };
        let mut res = to_owned("<");
        res.append(tag);
        res.append(w.as_str());
        res.append(h.as_str());
        res.append(" controls>\n  <source src=\"data:");
        res.append(m.as_str());
        res.append(";base64,");
        res.append(b64.as_str());
        res.append("\" type=\"");
        res.append(m.as_str());
        res.append("\">\n  download ");
        res.append(tag);
        res.append(" file here: ");
        res.append(download_link(m.as_str(), b64.as_str(), ef.as_str()).as_str());
        res.append("\n</");
        res.append(tag);
        res.append(">");
        res
    } else {
        download_link(m.as_str(), b64.as_str(), ef.as_str())
    }
}

/// The `style` attribute of a media of the given size.
fn media_style(width: Option<u64>, height: Option<u64>) -> (res: String)
    ensures
        res@ == spec_media_style(width, height),
{
    if width.is_none() && height.is_none() {
        return String::new();
    }
    let mut res = to_owned(" style=\"");
    res.append(num_attr("height: ", height, "px;").as_str());
    res.append(num_attr("width: ", width, "px;").as_str());
    res.append("\"");
    res
}

/// A media node, with the stored files at hand.
pub fn media_to_html_string(media: &Json, files: &Vec<(String, FileData)>) -> (res: StringWithNodeLevel)
    ensures
        res@ == spec_media_html(*media, files@),
{
    let attrs = match attrs_object(media) {
        None => return json_to_toplevel_html_string(media),
        Some(a) => a,
    };
    let id = match str_of(attrs, "id") {
        None => return json_to_toplevel_html_string(media),
        Some(v) => v,
    };
    let id_type = match str_of(attrs, "type") {
        None => return json_to_toplevel_html_string(media),
        Some(v) => v,
    };
    let width = u64_at(Some(attrs), "width");
    let height = u64_at(Some(attrs), "height");
    let text = if str_eq(id_type.as_str(), "file") {
        match find_file(files, id.as_str()) {
            Some(f) => file_to_html(f, width, height),
            None => return json_to_toplevel_html_string(media),
        }
    } else if str_eq(id_type.as_str(), "link") {
        media_link(attrs, id.as_str())
    } else {
        return json_to_toplevel_html_string(media);
    };
    let mut res = to_owned("<div class=\"media\"");
    res.append(media_style(width, height).as_str());
    res.append(">\n");
    res.append(indent_with(text.as_str(), "  ").as_str());
    res.append("\n</div>");
    to_inline(res)
}

fn media_inline_to_html_string(media_inline_item: &Json, files: &Vec<(String, FileData)>) -> (res: StringWithNodeLevel)
    ensures
        res@ == spec_media_inline_html(*media_inline_item, files@),
{
    let attrs = match attrs_object(media_inline_item) {
        None => return json_to_toplevel_html_string(media_inline_item),
        Some(a) => a,
    };
    let id = match str_of(attrs, "id") {
        None => return json_to_toplevel_html_string(media_inline_item),
        Some(v) => v,
    };
    let id_type = match str_of(attrs, "type") {
        None => return json_to_toplevel_html_string(media_inline_item),
        Some(v) => v,
    };
    if str_eq(id_type.as_str(), "file") {
        match find_file(files, id.as_str()) {
            Some(f) => {
                let b64 = base64_encode(f.data.as_slice());
                let m = escape_html(f.mime_type.as_str());
                let ef = escape_html(f.filename.as_str());
                to_inline(download_link(m.as_str(), b64.as_str(), ef.as_str()))
            },
            None => json_to_toplevel_html_string(media_inline_item),
        }
    } else if str_eq(id_type.as_str(), "link") {
        to_inline(media_link(attrs, id.as_str()))
    } else {
        json_to_toplevel_html_string(media_inline_item)
    }
}

fn media_single_to_html_string(media_single_item: &Json, files: &Vec<(String, FileData)>) -> (res: StringWithNodeLevel)
    ensures
        res@ == spec_media_single_html(*media_single_item, files@),
{
    let content = match content_of(media_single_item) {
        None => return json_to_toplevel_html_string(media_single_item),
        Some(a) => a,
    };
    if content.len() != 1 {
        return json_to_toplevel_html_string(media_single_item);
    }
    let value = &content[0];
    if !value.is_object() {
        return json_to_toplevel_html_string(media_single_item);
    }
    match str_of(value, "type") {
        Some(t) => if !str_eq(t.as_str(), "media") {
            return json_to_toplevel_html_string(media_single_item);
        },
        None => return json_to_toplevel_html_string(media_single_item),
    }
    media_to_html_string(value, files)
}

#[verifier::rlimit(50)]
fn object_to_html_string(json: &Json, files: &Vec<(String, FileData)>) -> (res: StringWithNodeLevel)
    ensures
        res@ == spec_object_html(*json, files@),
    decreases json, 2nat,
{
    let type_elt = match str_of(json, "type") {
        None => return json_to_toplevel_html_string(json),
        Some(t) => t.as_str(),
    };
    if str_eq(type_elt, "blockquote") {
        blockquote_to_html_string(json, files)
    } else if str_eq(type_elt, "bulletList") {
        bullet_list_to_html_string(json, files)
    } else if str_eq(type_elt, "codeBlock") {
        codeblock_to_html_string(json, files)
    } else if str_eq(type_elt, "decisionList") {
        decision_list_to_html_string(json, files)
    } else if str_eq(type_elt, "decisionItem") {
        decision_item_to_html_string(json, files)
    } else if str_eq(type_elt, "doc") {
        doc_to_html_string(json, files)
    } else if str_eq(type_elt, "emoji") {
        emoji_to_html_string(json)
    } else if str_eq(type_elt, "hardBreak") {
        hardbreak_to_html_string(json)
    } else if str_eq(type_elt, "heading") {
        heading_to_html_string(json, files)
    } else if str_eq(type_elt, "inlineCard") {
        inline_card_to_html_string(json)
    } else if str_eq(type_elt, "listItem") {
        list_item_to_html_string(json, files)
    } else if str_eq(type_elt, "media") {
        media_to_html_string(json, files)
    } else if str_eq(type_elt, "mediaInline") {
        media_inline_to_html_string(json, files)
    } else if str_eq(type_elt, "mediaSingle") {
        media_single_to_html_string(json, files)
    } else if str_eq(type_elt, "mediaGroup") {
        media_group_to_html_string(json, files)
    } else if str_eq(type_elt, "mention") {
        mention_to_html_string(json)
    } else if str_eq(type_elt, "orderedList") {
        ordered_list_to_html_string(json, files)
    } else if str_eq(type_elt, "panel") {
        panel_to_html_string(json, files)
    } else if str_eq(type_elt, "paragraph") {
        paragraph_to_html_string(json, files)
    } else if str_eq(type_elt, "rule") {
        rule_to_html_string(json)
    } else if str_eq(type_elt, "table") {
        table_to_html_string(json, files)
    } else if str_eq(type_elt, "tableHeader") {
        table_header_to_html_string(json, files)
    } else if str_eq(type_elt, "tableCell") {
        table_cell_to_html_string(json, files)
    } else if str_eq(type_elt, "tableRow") {
        table_row_to_html_string(json, files)
    } else if str_eq(type_elt, "taskItem") {
        task_item_to_html_string(json, files)
    } else if str_eq(type_elt, "taskList") {
        task_list_to_html_string(json, files)
    } else if str_eq(type_elt, "text") {
        text_to_html_string(json)
    } else {
        json_to_toplevel_html_string(json)
    }
}

/// The HTML rendering of a JSON value.
pub fn value_to_html_string(json: &Json, files: &Vec<(String, FileData)>) -> (res: StringWithNodeLevel)
    ensures
        res@ == spec_value_html(*json, files@),
    decreases json, 3nat,
{
    match &json.value {
        JsonValue::Null => to_inline(to_owned("null")),
        JsonValue::Bool(b) => to_inline(if *b { to_owned("true") } else { to_owned("false") }),
        JsonValue::Number(_) => to_inline(json.text.clone()),
        JsonValue::String(s) => to_inline(escape_html(s.as_str())),
        JsonValue::Array(a) => {
            proof {
                assert(decreases_to!(*json => json.value));
                assert(decreases_to!(json.value => *a));
                assert(decreases_to!(*a => a@));
            }
            array_of_value_to_html_string(a, files)
        },
        JsonValue::Object(_) => object_to_html_string(json, files),
    }
}

/// Renders a whole document (an object of type `doc`) as HTML, with the
/// stored files that its media nodes name at hand; any other value is given
/// back as its JSON text.
pub fn root_elt_doc_to_html_string(description: &Json, files: &Vec<(String, FileData)>) -> (res: String)
    ensures
        res@ == spec_root_html(*description, files@),
    decreases description, 3nat,
{
    if !description.is_object() {
        return description.text.clone();
    }
    match str_of(description, "type") {
        Some(t) => if !str_eq(t.as_str(), "doc") {
            return description.text.clone();
        },
        None => return description.text.clone(),
    }
    let content = match content_of(description) {
        None => return description.text.clone(),
        Some(a) => a,
    };
    proof { lemma_content_decreases(*description); }
    array_of_value_to_html_string(content, files).text
}


/// The identifier of the stored file a node names: `attrs.id` when
/// `attrs.type` is `"file"`.
pub open spec fn spec_own_file_id(j: Json) -> Option<Seq<char>> {
    let attrs = spec_opt_object(spec_get(j, "attrs"@));
    if spec_opt_str(spec_opt_get(attrs, "type"@)) == Some("file"@) {
        spec_opt_str(spec_opt_get(attrs, "id"@))
    } else {
        None
    }
}

/// The identifiers of all stored files named anywhere in a JSON value, in
/// document order: a node's own before those of its entries.
pub open spec fn spec_file_ids(j: Json) -> Seq<Seq<char>>
    decreases j, 1nat,
{
    match j.value {
        JsonValue::Array(a) => {
            proof {
                assert(decreases_to!(j => j.value));
                assert(decreases_to!(j.value => a));
                assert(decreases_to!(a => a@));
            }
            spec_file_ids_seq(a@)
        },
        JsonValue::Object(m) => {
            proof {
                assert(decreases_to!(j => j.value));
                assert(decreases_to!(j.value => m));
                assert(decreases_to!(m => m.entries));
                assert(decreases_to!(m.entries => m.entries@));
            }
            let own = match spec_own_file_id(j) {
                Some(id) => seq![id],
                None => Seq::empty(),
            };
            own + spec_file_ids_entries(m.entries@)
        },
        _ => Seq::empty(),
    }
}

/// The identifiers named in the elements, in order.
pub open spec fn spec_file_ids_seq(a: Seq<Json>) -> Seq<Seq<char>>
    decreases a, 0nat,
{
    if a.len() == 0 {
        Seq::empty()
    } else {
        spec_file_ids_seq(a.drop_last()) + spec_file_ids(a.last())
    }
}

/// The identifiers named in the values of the entries, in order.
pub open spec fn spec_file_ids_entries(e: Seq<(String, Json)>) -> Seq<Seq<char>>
    decreases e, 0nat,
{
    if e.len() == 0 {
        Seq::empty()
    } else {
        proof {
            assert(decreases_to!(e => e.last()));
            assert(decreases_to!(e.last() => e.last().1));
        }
        spec_file_ids_entries(e.drop_last()) + spec_file_ids(e.last().1)
    }
}

/// Appends the identifiers of the stored files named in `j` to `out`.
#[verifier::loop_isolation(false)]
fn collect_file_ids(j: &Json, out: &mut Vec<String>)
    ensures
        final(out)@.map_values(|x: String| x@) == old(out)@.map_values(|x: String| x@) + spec_file_ids(*j),
    decreases j, 1nat,
{
    match &j.value {
        JsonValue::Array(a) => {
            proof {
                assert(decreases_to!(*j => j.value));
                assert(decreases_to!(j.value => *a));
                assert(decreases_to!(*a => a@));
            }
            let ghost start = out@.map_values(|x: String| x@);
            let mut i: usize = 0;
            while i < a.len()
                invariant
                    i <= a.len(),
                    out@.map_values(|x: String| x@) == start + spec_file_ids_seq(a@.take(i as int)),
                decreases a.len() - i,
            {
                assert(a@.take(i + 1).drop_last() == a@.take(i as int));
                assert(a@.take(i + 1).last() == a@[i as int]);
                proof {
                    assert(decreases_to!(*j => j.value));
                    assert(decreases_to!(j.value => *a));
                    assert(decreases_to!(*a => a@));
                    assert(decreases_to!(a@ => a@[i as int]));
                }
                collect_file_ids(&a[i], out);
                i = i + 1;
            }
            assert(a@.take(a.len() as int) == a@);
        },
        JsonValue::Object(m) => {
            proof {
                assert(decreases_to!(*j => j.value));
                assert(decreases_to!(j.value => *m));
                assert(decreases_to!(*m => m.entries));
                assert(decreases_to!(m.entries => m.entries@));
            }
            let ghost start = out@.map_values(|x: String| x@);
            let attrs = attrs_object(j);
            let is_file = match attrs {
                Some(a) => match str_of(a, "type") {
                    Some(t) => str_eq(t.as_str(), "file"),
                    None => false,
                },
                None => false,
            };
            if is_file {
                match str_of(attrs.unwrap(), "id") {
                    Some(id) => {
                        let ghost before = out@;
                        out.push(id.clone());
                        proof {
                            assert(out@.drop_last() =~= before);
                            lemma_map_views_push(before, out@);
                        }
                    },
                    None => {},
                }
            }
            let ghost own = out@.map_values(|x: String| x@);
            assert(own == start + match spec_own_file_id(*j) {
                Some(id) => seq![id],
                None => Seq::<Seq<char>>::empty(),
            });
            let mut i: usize = 0;
            while i < m.entries.len()
                invariant
                    i <= m.entries.len(),
                    out@.map_values(|x: String| x@) == own + spec_file_ids_entries(m.entries@.take(i as int)),
                decreases m.entries.len() - i,
            {
                assert(m.entries@.take(i + 1).drop_last() == m.entries@.take(i as int));
                assert(m.entries@.take(i + 1).last() == m.entries@[i as int]);
                proof {
                    assert(decreases_to!(*j => j.value));
                    assert(decreases_to!(j.value => *m));
                    assert(decreases_to!(*m => m.entries));
                    assert(decreases_to!(m.entries => m.entries@));
                    assert(decreases_to!(m.entries@ => m.entries@[i as int]));
                    assert(decreases_to!(m.entries@[i as int] => m.entries@[i as int].1));
                }
                collect_file_ids(&m.entries[i].1, out);
                i = i + 1;
            }
            assert(m.entries@.take(m.entries.len() as int) == m.entries@);
        },
        _ => {
            assert(out@.map_values(|x: String| x@) =~= out@.map_values(|x: String| x@) + Seq::<Seq<char>>::empty());
        },
    }
}

/// The identifiers of all stored files that the media nodes of a document
/// name, in document order: the files to have at hand to render it.
pub fn media_file_ids(description: &Json) -> (res: Vec<String>)
    ensures
        res@.map_values(|x: String| x@) == spec_file_ids(*description),
{
    let mut res: Vec<String> = Vec::new();
    collect_file_ids(description, &mut res);
    assert(Seq::<Seq<char>>::empty() + spec_file_ids(*description) =~= spec_file_ids(*description));
    res
}

} // verus!
