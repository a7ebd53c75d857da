use vstd::prelude::*;
use vstd::string::StringSliceAdditionalSpecFns;

use crate::atlassian_document_utils::{
    get_mark_kind, spec_inline, spec_mark_kind, spec_top, to_inline, to_top_level, MarkKind,
    MarkView, NodeLevel, SnlView, StringWithNodeLevel,
};
use crate::json::{
    lemma_content_decreases, lemma_get_decreases, pretty_json, spec_as_i64, spec_as_str,
    spec_as_u64, spec_content, spec_get, spec_opt_array, spec_opt_get, spec_opt_object,
    spec_opt_str, spec_pretty_json, Json, JsonValue,
};
use crate::text::{
    decimal, indent_with, join, lines, repeat_char, spec_decimal, spec_indent, spec_join,
    spec_lines, spec_repeat, spec_trim, str_eq, to_owned, trim,
};

verus! {

// ---------------------------------------------------------------------------
// Specification of the plain-text rendering of Atlassian Document Format.
//
// Every function gives `None` exactly where rendering cannot be done: a table
// that the HTML-to-text conversion refuses, or list numbers past `u64::MAX`.
// ---------------------------------------------------------------------------

/// The text of a JSON value converted from HTML with `html2text` at the
/// given width, or `None` when the conversion fails.
pub uninterp spec fn spec_html_to_text(html: Seq<char>, width: usize) -> Option<Seq<char>>;

/// Converts HTML to wrapped plain text with `html2text`'s plain renderer
/// (`config::plain().string_from_read`, what `html2text::from_read` runs
/// before it panics on an error); `None` when the conversion fails.
#[verifier::external_body]
fn html_to_text(html: &str, width: usize) -> (res: Option<String>)
    ensures
        match res {
            Some(t) => spec_html_to_text(html@, width) == Some(t@),
            None => spec_html_to_text(html@, width) is None,
        },
{
    html2text::config::plain().string_from_read(html.as_bytes(), width).ok()
}

/// The separator put between two consecutive pieces of a document.
pub open spec fn spec_separator(a: NodeLevel, b: NodeLevel) -> Seq<char> {
    match (a, b) {
        (NodeLevel::TopLevel, NodeLevel::TopLevel) => "\n\n"@,
        (NodeLevel::TopLevel, NodeLevel::ChildNode) => "\n"@,
        (NodeLevel::TopLevel, NodeLevel::Inline) => "\n"@,
        (NodeLevel::ChildNode, NodeLevel::TopLevel) => "\n"@,
        (NodeLevel::ChildNode, NodeLevel::ChildNode) => "\n"@,
        (NodeLevel::ChildNode, NodeLevel::Inline) => ""@,
        (NodeLevel::Inline, NodeLevel::TopLevel) => "\n"@,
        (NodeLevel::Inline, NodeLevel::ChildNode) => "\n"@,
        (NodeLevel::Inline, NodeLevel::Inline) => ""@,
    }
}

/// Two consecutive pieces put together; the result takes the second level.
pub open spec fn spec_merge(a: SnlView, b: SnlView) -> SnlView {
    SnlView { text: a.text + spec_separator(a.level, b.level) + b.text, level: b.level }
}

/// All pieces merged from left to right; an empty inline piece when there is none.
pub open spec fn spec_merge_all(xs: Seq<SnlView>) -> SnlView
    decreases xs.len(),
{
    if xs.len() == 0 {
        spec_inline(Seq::empty())
    } else if xs.len() == 1 {
        xs[0]
    } else {
        spec_merge(spec_merge_all(xs.drop_last()), xs.last())
    }
}

/// The object, pretty-printed.
pub open spec fn spec_pretty(j: Json) -> Seq<char> {
    spec_pretty_json(j.text@)
}

/// The texts of pieces.
pub open spec fn spec_texts(xs: Seq<SnlView>) -> Seq<Seq<char>> {
    xs.map_values(|x: SnlView| x.text)
}

/// `o` or the empty string.
pub open spec fn spec_or_empty(o: Option<Seq<char>>) -> Seq<char> {
    match o {
        Some(s) => s,
        None => Seq::empty(),
    }
}

/// `j[k1][k2]`, as a string, or the empty string.
pub open spec fn spec_str_at(j: Json, k1: Seq<char>, k2: Seq<char>) -> Seq<char> {
    spec_or_empty(spec_opt_str(spec_opt_get(spec_get(j, k1), k2)))
}

/// A text decorated by one mark.
pub open spec fn spec_apply_mark(mark: Result<MarkView, Seq<char>>, c: Seq<char>) -> Seq<char> {
    match mark {
        Ok(MarkView::Code) => "`"@ + c + "`"@,
        Ok(MarkView::Emphasis) => "/"@ + c + "/"@,
        Ok(MarkView::Link(l)) => "["@ + c + "]("@ + l.href + ")"@,
        Ok(MarkView::Strike) => "~"@ + c + "~"@,
        Ok(MarkView::Strong) => "*"@ + c + "*"@,
        Ok(MarkView::Superscript) => "^{"@ + c + "}"@,
        Ok(MarkView::SubScript) => "_{"@ + c + "}"@,
        Ok(MarkView::TextColour(_)) => c,
        Ok(MarkView::BackgroundColour(_)) => c,
        Ok(MarkView::Underline) => "_"@ + c + "_"@,
        Err(_) => c,
    }
}

/// A text decorated by each mark in turn, the first mark innermost.
pub open spec fn spec_apply_marks(marks: Seq<Json>, c: Seq<char>) -> Seq<char>
    decreases marks.len(),
{
    if marks.len() == 0 {
        c
    } else {
        spec_apply_mark(spec_mark_kind(marks.last()), spec_apply_marks(marks.drop_last(), c))
    }
}

/// A text node with its marks.
pub open spec fn spec_text_md(j: Json) -> SnlView {
    let content = spec_or_empty(spec_opt_str(spec_get(j, "text"@)));
    match spec_opt_array(spec_get(j, "marks"@)) {
        Some(marks) => spec_inline(spec_apply_marks(marks, content)),
        None => spec_inline(content),
    }
}

/// As text, a text node carrying a single simple mark is its text between
/// that mark's delimiters: `em` between slashes, `strong` between stars,
/// `code` between backticks, `strike` between tildes, `underline` between
/// underscores; a colour mark leaves the text as it is.
pub proof fn lemma_text_with_one_mark_md(j: Json, m: Json)
    requires
        spec_opt_array(spec_get(j, "marks"@)) == Some(seq![m]),
    ensures
        ({
            let text = spec_or_empty(spec_opt_str(spec_get(j, "text"@)));
            &&& spec_mark_kind(m) == Ok::<MarkView, Seq<char>>(MarkView::Emphasis)
                ==> spec_text_md(j) == spec_inline("/"@ + text + "/"@)
            &&& spec_mark_kind(m) == Ok::<MarkView, Seq<char>>(MarkView::Strong)
                ==> spec_text_md(j) == spec_inline("*"@ + text + "*"@)
            &&& spec_mark_kind(m) == Ok::<MarkView, Seq<char>>(MarkView::Code)
                ==> spec_text_md(j) == spec_inline("`"@ + text + "`"@)
            &&& spec_mark_kind(m) == Ok::<MarkView, Seq<char>>(MarkView::Strike)
                ==> spec_text_md(j) == spec_inline("~"@ + text + "~"@)
            &&& spec_mark_kind(m) == Ok::<MarkView, Seq<char>>(MarkView::Underline)
                ==> spec_text_md(j) == spec_inline("_"@ + text + "_"@)
            &&& spec_mark_kind(m) is Ok && (spec_mark_kind(m)->Ok_0 is TextColour || spec_mark_kind(m)->Ok_0 is BackgroundColour)
                ==> spec_text_md(j) == spec_inline(text)
        }),
{
    let text = spec_or_empty(spec_opt_str(spec_get(j, "text"@)));
    assert(seq![m].drop_last() =~= Seq::<Json>::empty());
    assert(spec_apply_marks(Seq::<Json>::empty(), text) == text);
    assert(spec_apply_marks(seq![m], text) == spec_apply_mark(spec_mark_kind(m), text));
}

/// An emoji: its text, else its short name.
pub open spec fn spec_emoji(j: Json) -> Seq<char> {
    match spec_get(j, "attrs"@) {
        None => Seq::empty(),
        Some(x) => match spec_get(x, "text"@) {
            Some(t) => spec_or_empty(spec_as_str(t)),
            None => spec_or_empty(spec_opt_str(spec_get(x, "shortName"@))),
        },
    }
}

/// A mention: the mentioned text, else the id, else the node itself.
pub open spec fn spec_mention_md(j: Json) -> SnlView {
    match spec_opt_object(spec_get(j, "attrs"@)) {
        None => spec_inline(spec_pretty(j)),
        Some(attrs) => match spec_opt_str(spec_get(attrs, "text"@)) {
            Some(s) => spec_inline(s),
            None => match spec_opt_str(spec_get(attrs, "id"@)) {
                None => spec_inline(spec_pretty(j)),
                Some(s) => spec_inline(s),
            },
        },
    }
}

/// An inline card: its URL or its data.
pub open spec fn spec_inline_card_md(j: Json) -> SnlView {
    match spec_get(j, "attrs"@) {
        None => spec_inline(spec_pretty(j)),
        Some(attrs) => if !(attrs.value is Object) {
            spec_inline(spec_pretty(j))
        } else {
            spec_inline(
                match (spec_get(attrs, "url"@), spec_get(attrs, "data"@)) {
                    (None, None) => spec_pretty(j),
                    (Some(url), None) => match spec_as_str(url) {
                        Some(u) => u,
                        None => if url.value is Object { spec_pretty(url) } else { url.text@ },
                    },
                    (Some(_), Some(_)) => spec_pretty(j),
                    (None, Some(data)) => if data.value is Object { spec_pretty(data) } else { data.text@ },
                },
            )
        },
    }
}

/// The media node dumped as JSON.
pub open spec fn spec_media_md(j: Json) -> SnlView {
    SnlView { text: "```json\n"@ + spec_pretty(j) + "\n```"@, level: NodeLevel::ChildNode }
}

/// One bullet: its first line after `  - `, the others after four spaces.
pub open spec fn spec_bullet_item(text: Seq<char>) -> Seq<char> {
    let ls = spec_lines(text);
    spec_join(
        Seq::new(ls.len(), |n: int| if n == 0 { "  - "@ + spec_trim(ls[n]) } else { "    "@ + spec_trim(ls[n]) }),
        "\n"@,
    )
}

/// Each line of a heading followed by a line of `c` as long as its UTF-8 encoding.
pub open spec fn spec_underline(c: char, text: Seq<char>) -> Seq<char> {
    let ls = spec_lines(text);
    spec_join(
        Seq::new(ls.len(), |n: int| ls[n] + "\n"@ + spec_repeat(c, (vstd::utf8::encode_utf8(ls[n]).len() as usize) as nat)),
        "\n"@,
    )
}

/// Each line of a heading after `level` hashes and a space.
pub open spec fn spec_hashes(level: nat, text: Seq<char>) -> Seq<char> {
    let ls = spec_lines(text);
    spec_join(Seq::new(ls.len(), |n: int| spec_repeat('#', level) + " "@ + ls[n]), "\n"@)
}

/// A heading's level clamped to 1..=6, 1 when absent.
pub open spec fn spec_heading_level(j: Json) -> int {
    match spec_as_i64_opt(spec_opt_get(spec_get(j, "attrs"@), "level"@)) {
        Some(l) => if l < 1 { 1 } else if l > 6 { 6 } else { l as int },
        None => 1,
    }
}

pub open spec fn spec_as_i64_opt(o: Option<Json>) -> Option<i64> {
    match o {
        Some(j) => spec_as_i64(j),
        None => None,
    }
}

pub open spec fn spec_as_u64_opt(o: Option<Json>) -> Option<u64> {
    match o {
        Some(j) => spec_as_u64(j),
        None => None,
    }
}

/// The heading text laid out for its level.
pub open spec fn spec_heading_text(level: int, inner: Seq<char>) -> Seq<char> {
    if level == 1 {
        spec_underline('=', inner)
    } else if level == 2 {
        spec_underline('-', inner)
    } else {
        spec_hashes(level as nat, inner)
    }
}

/// A panel type that is rendered as a box.
pub open spec fn spec_is_panel_type(t: Seq<char>) -> bool {
    t == "info"@ || t == "note"@ || t == "warning"@ || t == "success"@ || t == "error"@
}

/// The boxed panel of type `t` around `content`.
pub open spec fn spec_panel_box(t: Seq<char>, content: Seq<char>) -> Seq<char> {
    "/---------- "@ + t + " -----------\n"@ + spec_indent(content, "| "@) + "\n\\----------"@
        + spec_repeat('-', (vstd::utf8::encode_utf8(t).len() + 2) as nat) + "-----------"@
}

/// All elements of the array are `media` objects.
pub open spec fn spec_all_medias(a: Seq<Json>) -> bool {
    forall|i: int| 0 <= i < a.len() ==> spec_opt_str(spec_get(#[trigger] a[i], "type"@)) == Some("media"@)
}

/// The plain-text rendering of a JSON value.
pub open spec fn spec_value_md(j: Json) -> Option<SnlView>
    decreases j, 3nat,
{
    match j.value {
        JsonValue::Null => Some(spec_inline("null"@)),
        JsonValue::Bool(b) => Some(spec_inline(if b { "true"@ } else { "false"@ })),
        JsonValue::Number(_) => Some(spec_inline(j.text@)),
        JsonValue::String(s) => Some(spec_inline(s@)),
        JsonValue::Array(a) => {
            proof {
                assert(decreases_to!(j => j.value));
                assert(decreases_to!(j.value => a));
                assert(decreases_to!(a => a@));
            }
            spec_array_md(a@)
        },
        JsonValue::Object(_) => spec_object_md(j),
    }
}

/// The renderings of the elements, each in turn.
pub open spec fn spec_values_md(a: Seq<Json>) -> Option<Seq<SnlView>>
    decreases a, 0nat,
{
    if a.len() == 0 {
        Some(Seq::empty())
    } else {
        match (spec_values_md(a.drop_last()), spec_value_md(a.last())) {
            (Some(p), Some(x)) => Some(p.push(x)),
            _ => None,
        }
    }
}

/// The elements rendered and merged.
pub open spec fn spec_array_md(a: Seq<Json>) -> Option<SnlView>
    decreases a, 1nat,
{
    match spec_values_md(a) {
        Some(xs) => Some(spec_merge_all(xs)),
        None => None,
    }
}

/// The merged rendering of `j["content"]`, or `default` when there is no such array.
pub open spec fn spec_content_text_md(j: Json, default: Seq<char>) -> Option<Seq<char>>
    decreases j, 0nat,
{
    match spec_content(j) {
        None => Some(default),
        Some(a) => {
            proof { lemma_content_decreases(j); }
            match spec_array_md(a) {
                Some(x) => Some(x.text),
                None => None,
            }
        },
    }
}

/// An object rendered according to its `type`.
pub open spec fn spec_object_md(j: Json) -> Option<SnlView>
    decreases j, 2nat,
{
    match spec_opt_str(spec_get(j, "type"@)) {
        None => Some(spec_top(spec_pretty(j))),
        Some(t) => if t == "blockquote"@ {
            spec_blockquote_md(j)
        } else if t == "bulletList"@ {
            spec_bullet_list_md(j)
        } else if t == "codeBlock"@ {
            spec_codeblock_md(j)
        } else if t == "decisionList"@ {
            spec_decision_list_md(j)
        } else if t == "decisionItem"@ {
            spec_decision_item_md(j)
        } else if t == "doc"@ {
            spec_paragraph_md(j)
        } else if t == "emoji"@ {
            Some(spec_inline(spec_emoji(j)))
        } else if t == "hardBreak"@ {
            Some(spec_inline("\n"@))
        } else if t == "heading"@ {
            spec_heading_md(j)
        } else if t == "inlineCard"@ {
            Some(spec_inline_card_md(j))
        } else if t == "listItem"@ {
            spec_list_item_md(j)
        } else if t == "media"@ {
            Some(spec_media_md(j))
        } else if t == "mediaSingle"@ {
            Some(spec_media_single_md(j))
        } else if t == "mediaGroup"@ {
            spec_media_group_md(j)
        } else if t == "mention"@ {
            Some(spec_mention_md(j))
        } else if t == "orderedList"@ {
            spec_ordered_list_md(j)
        } else if t == "panel"@ {
            spec_panel_md(j)
        } else if t == "paragraph"@ {
            spec_paragraph_md(j)
        } else if t == "rule"@ {
            Some(spec_inline("\n"@))
        } else if t == "table"@ {
            spec_table_md(j)
        } else if t == "tableHeader"@ {
            spec_tagged_md(j, "th"@)
        } else if t == "tableCell"@ {
            spec_tagged_md(j, "td"@)
        } else if t == "tableRow"@ {
            spec_tagged_md(j, "tr"@)
        } else if t == "taskItem"@ {
            spec_task_item_md(j)
        } else if t == "text"@ {
            Some(spec_text_md(j))
        } else {
            Some(spec_top(spec_pretty(j)))
        }
    }
}

/// A quotation: its content with `> ` in front of each line.
pub open spec fn spec_blockquote_md(j: Json) -> Option<SnlView>
    decreases j, 1nat,
{
    match spec_content_text_md(j, spec_pretty(j)) {
        Some(inner) => Some(spec_top(spec_indent(inner, "> "@))),
        None => None,
    }
}

/// A code block fenced with three backquotes and its language.
pub open spec fn spec_codeblock_md(j: Json) -> Option<SnlView>
    decreases j, 1nat,
{
    let language = spec_str_at(j, "attrs"@, "language"@);
    match spec_content(j) {
        None => Some(spec_top("```"@ + language + "\n"@ + spec_pretty(j) + "\n```"@)),
        Some(a) => {
            proof { lemma_content_decreases(j); }
            match spec_array_md(a) {
                Some(x) => Some(spec_top("```"@ + language + "\n"@ + x.text + "\n```"@)),
                None => None,
            }
        },
    }
}

/// A list of decisions, one line each.
pub open spec fn spec_decision_list_md(j: Json) -> Option<SnlView>
    decreases j, 1nat,
{
    match spec_content(j) {
        None => Some(spec_top(spec_pretty(j))),
        Some(a) => {
            proof { lemma_content_decreases(j); }
            match spec_values_md(a) {
                Some(xs) => Some(spec_top("Decision list:\n"@ + spec_join(
                    spec_texts(xs).map_values(|x: Seq<char>| "  decision: "@ + x),
                    "\n"@,
                ))),
                None => None,
            }
        },
    }
}

/// One decision: its content.
pub open spec fn spec_decision_item_md(j: Json) -> Option<SnlView>
    decreases j, 1nat,
{
    match spec_content(j) {
        None => Some(spec_top(spec_pretty(j))),
        Some(a) => {
            proof { lemma_content_decreases(j); }
            spec_array_md(a)
        },
    }
}

/// A paragraph or a document: its content at top level.
pub open spec fn spec_paragraph_md(j: Json) -> Option<SnlView>
    decreases j, 1nat,
{
    match spec_content_text_md(j, Seq::empty()) {
        Some(inner) => Some(spec_top(inner)),
        None => None,
    }
}

/// A heading laid out for its level.
pub open spec fn spec_heading_md(j: Json) -> Option<SnlView>
    decreases j, 1nat,
{
    match spec_content_text_md(j, Seq::empty()) {
        Some(inner) => Some(spec_top(spec_heading_text(spec_heading_level(j), inner))),
        None => None,
    }
}

/// A list item: its rendered elements, one per line.
pub open spec fn spec_list_item_md(j: Json) -> Option<SnlView>
    decreases j, 1nat,
{
    match spec_content(j) {
        None => Some(SnlView { text: spec_pretty(j), level: NodeLevel::ChildNode }),
        Some(a) => {
            proof { lemma_content_decreases(j); }
            match spec_values_md(a) {
                Some(xs) => Some(SnlView { text: spec_join(spec_texts(xs), "\n"@), level: NodeLevel::ChildNode }),
                None => None,
            }
        },
    }
}

/// A single media: the media itself at top level.
pub open spec fn spec_media_single_md(j: Json) -> SnlView {
    match spec_content(j) {
        Some(a) => if a.len() == 1 && a[0].value is Object && spec_opt_str(spec_get(a[0], "type"@)) == Some("media"@) {
            spec_top(spec_media_md(a[0]).text)
        } else {
            spec_top(spec_pretty(j))
        },
        None => spec_top(spec_pretty(j)),
    }
}

/// A group of media.
pub open spec fn spec_media_group_md(j: Json) -> Option<SnlView>
    decreases j, 1nat,
{
    match spec_content(j) {
        Some(a) => if spec_all_medias(a) {
            proof { lemma_content_decreases(j); }
            match spec_array_md(a) {
                Some(x) => Some(spec_top(x.text)),
                None => None,
            }
        } else {
            Some(spec_top(spec_pretty(j)))
        },
        None => Some(spec_top(spec_pretty(j))),
    }
}

/// The first number of an ordered list, 1 when absent.
pub open spec fn spec_list_start(j: Json) -> int {
    match spec_as_u64_opt(spec_opt_get(spec_get(j, "attrs"@), "order"@)) {
        Some(n) => n as int,
        None => 1,
    }
}

/// An ordered list: each element rendered as a document after its number.
pub open spec fn spec_ordered_list_md(j: Json) -> Option<SnlView>
    decreases j, 1nat,
{
    match spec_content(j) {
        None => Some(SnlView { text: spec_pretty(j), level: NodeLevel::ChildNode }),
        Some(a) => {
            proof { lemma_content_decreases(j); }
            let init = spec_list_start(j);
            match spec_roots_md(a) {
                None => None,
                Some(items) => if items.len() > 0 && items.len() - 1 + init > u64::MAX {
                    None
                } else if items.len() == 0 {
                    Some(SnlView { text: spec_pretty(j), level: NodeLevel::ChildNode })
                } else {
                    Some(SnlView {
                        text: spec_join(
                            Seq::new(items.len(), |n: int| spec_decimal((n + init) as nat) + ". "@ + items[n]),
                            "\n"@,
                        ),
                        level: NodeLevel::ChildNode,
                    })
                },
            }
        },
    }
}

/// A panel of a known type in a box; the node itself otherwise.
pub open spec fn spec_panel_md(j: Json) -> Option<SnlView>
    decreases j, 1nat,
{
    match spec_opt_str(spec_opt_get(spec_get(j, "attrs"@), "panelType"@)) {
        Some(pt) => if spec_is_panel_type(pt) {
            match spec_content_text_md(j, spec_pretty(j)) {
                Some(inner) => Some(spec_top(spec_panel_box(pt, inner))),
                None => None,
            }
        } else {
            Some(spec_top(spec_pretty(j)))
        },
        None => Some(spec_top(spec_pretty(j))),
    }
}

/// A table: its content put in HTML table tags and turned into text.
pub open spec fn spec_table_md(j: Json) -> Option<SnlView>
    decreases j, 1nat,
{
    match spec_content(j) {
        None => Some(spec_top(spec_pretty(j))),
        Some(a) => {
            proof { lemma_content_decreases(j); }
            match spec_array_md(a) {
                Some(x) => match spec_html_to_text("<table>"@ + x.text + "</table>"@, 80) {
                    Some(t) => Some(spec_top(t)),
                    None => None,
                },
                None => None,
            }
        },
    }
}

/// A table cell, header or row: its content between HTML tags `tag`.
pub open spec fn spec_tagged_md(j: Json, tag: Seq<char>) -> Option<SnlView>
    decreases j, 1nat,
{
    match spec_content(j) {
        None => Some(spec_top(spec_pretty(j))),
        Some(a) => {
            proof { lemma_content_decreases(j); }
            match spec_array_md(a) {
                Some(x) => Some(spec_top("<"@ + tag + ">"@ + x.text + "</"@ + tag + ">"@)),
                None => None,
            }
        },
    }
}

/// The box drawn in front of a task.
pub open spec fn spec_task_box(status: Seq<char>) -> Seq<char> {
    if status == "TODO"@ { "\u{2610}"@ } else if status == "DONE"@ { "\u{2611}"@ } else { "?"@ }
}

/// A task: a box showing its state, then its content.
pub open spec fn spec_task_item_md(j: Json) -> Option<SnlView>
    decreases j, 1nat,
{
    match (spec_opt_object(spec_get(j, "attrs"@)), spec_content(j)) {
        (Some(attrs), Some(a)) => {
            proof { lemma_content_decreases(j); }
            let beginning = spec_task_box(spec_or_empty(spec_opt_str(spec_get(attrs, "state"@))));
            match spec_array_md(a) {
                Some(x) => Some(SnlView { text: beginning + " "@ + x.text, level: x.level }),
                None => None,
            }
        },
        _ => Some(spec_top(spec_pretty(j))),
    }
}

/// A bullet list: one bullet per rendered element.
pub open spec fn spec_bullet_list_md(j: Json) -> Option<SnlView>
    decreases j, 1nat,
{
    match spec_content(j) {
        None => Some(spec_top(spec_pretty(j))),
        Some(a) => {
            proof { lemma_content_decreases(j); }
            match spec_values_md(a) {
                Some(xs) => Some(spec_top(spec_join(spec_texts(xs).map_values(|t: Seq<char>| spec_bullet_item(t)), "\n"@))),
                None => None,
            }
        },
    }
}

/// Each element rendered as a whole document.
pub open spec fn spec_roots_md(a: Seq<Json>) -> Option<Seq<Seq<char>>>
    decreases a, 0nat,
{
    if a.len() == 0 {
        Some(Seq::empty())
    } else {
        match (spec_roots_md(a.drop_last()), spec_root_md(a.last())) {
            (Some(p), Some(x)) => Some(p.push(x)),
            _ => None,
        }
    }
}

/// A whole document (`{"type": "doc", "content": [...]}`) rendered as plain
/// text; anything else is given back as its JSON text.
pub open spec fn spec_root_md(d: Json) -> Option<Seq<char>>
    decreases d, 3nat,
{
    if !(d.value is Object) {
        Some(d.text@)
    } else if spec_opt_str(spec_get(d, "type"@)) != Some("doc"@) {
        Some(d.text@)
    } else {
        match spec_content(d) {
            None => Some(d.text@),
            Some(a) => {
                proof { lemma_content_decreases(d); }
                match spec_array_md(a) {
                    Some(x) => Some(x.text),
                    None => None,
                }
            },
        }
    }
}


// ---------------------------------------------------------------------------
// Rendering
// ---------------------------------------------------------------------------

/// The view of an optional rendered piece.
pub open spec fn spec_opt_snl(o: Option<StringWithNodeLevel>) -> Option<SnlView> {
    match o {
        Some(x) => Some(x@),
        None => None,
    }
}

/// The views of rendered pieces.
pub open spec fn spec_snls(v: Seq<StringWithNodeLevel>) -> Seq<SnlView> {
    v.map_values(|x: StringWithNodeLevel| x@)
}

/// The elements of `j["content"]`, when it is an array.
pub fn content_of(j: &Json) -> (res: Option<&Vec<Json>>)
    ensures
        match res {
            Some(a) => spec_content(*j) == Some(a@),
            None => spec_content(*j) is None,
        },
{
    match j.get("content") {
        None => None,
        Some(c) => c.as_array(),
    }
}

/// `j[k1][k2]` as a string, if there is one.
pub fn str_at<'a>(j: &'a Json, k1: &str, k2: &str) -> (res: Option<&'a String>)
    ensures
        match res {
            Some(s) => spec_opt_str(spec_opt_get(spec_get(*j, k1@), k2@)) == Some(s@),
            None => spec_opt_str(spec_opt_get(spec_get(*j, k1@), k2@)) is None,
        },
{
    match j.get(k1) {
        None => None,
        Some(a) => match a.get(k2) {
            None => None,
            Some(v) => v.as_str(),
        },
    }
}

/// The string `j[key]`, if there is one.
pub fn str_of<'a>(j: &'a Json, key: &str) -> (res: Option<&'a String>)
    ensures
        match res {
            Some(s) => spec_opt_str(spec_get(*j, key@)) == Some(s@),
            None => spec_opt_str(spec_get(*j, key@)) is None,
        },
{
    match j.get(key) {
        None => None,
        Some(v) => v.as_str(),
    }
}

/// A copy of the string, or an empty string.
pub fn string_or_empty(o: Option<&String>) -> (res: String)
    ensures
        res@ == (match o {
            Some(s) => s@,
            None => Seq::empty(),
        }),
{
    match o {
        Some(s) => s.clone(),
        None => String::new(),
    }
}

/// The object pretty-printed (its JSON text re-indented).
pub(crate) fn json_map_to_string(json: &Json) -> (res: String)
    ensures
        res@ == spec_pretty(*json),
{
    pretty_json(json.text.as_str())
}

/// The object pretty-printed, as a top-level piece.
fn json_to_toplevel_string(json: &Json) -> (res: StringWithNodeLevel)
    ensures
        res@ == spec_top(spec_pretty(*json)),
{
    to_top_level(json_map_to_string(json))
}

/// The separator between two pieces of the given levels.
fn separator(a: NodeLevel, b: NodeLevel) -> (res: &'static str)
    ensures
        res@ == spec_separator(a, b),
{
    match (a, b) {
        (NodeLevel::TopLevel, NodeLevel::TopLevel) => "\n\n",
        (NodeLevel::TopLevel, NodeLevel::ChildNode) => "\n",
        (NodeLevel::TopLevel, NodeLevel::Inline) => "\n",
        (NodeLevel::ChildNode, NodeLevel::TopLevel) => "\n",
        (NodeLevel::ChildNode, NodeLevel::ChildNode) => "\n",
        (NodeLevel::ChildNode, NodeLevel::Inline) => "",
        (NodeLevel::Inline, NodeLevel::TopLevel) => "\n",
        (NodeLevel::Inline, NodeLevel::ChildNode) => "\n",
        (NodeLevel::Inline, NodeLevel::Inline) => "",
    }
}

/// Two consecutive pieces put together with the separator their levels call for.
pub fn merge_two_string_with_node_level(a: &StringWithNodeLevel, b: &StringWithNodeLevel) -> (res: StringWithNodeLevel)
    ensures
        res@ == spec_merge(a@, b@),
{
    let mut text = a.text.clone();
    text.append(separator(a.node_level, b.node_level));
    text.append(b.text.as_str());
    StringWithNodeLevel { text, node_level: b.node_level }
}

/// All pieces merged from left to right.
fn merge_all(xs: &Vec<StringWithNodeLevel>) -> (res: StringWithNodeLevel)
    ensures
        res@ == spec_merge_all(spec_snls(xs@)),
{
    if xs.len() == 0 {
        return to_inline(String::new());
    }
    let ghost v = spec_snls(xs@);
    let mut acc = StringWithNodeLevel { text: xs[0].text.clone(), node_level: xs[0].node_level };
    assert(v.take(1).drop_last().len() == 0);
    let mut i: usize = 1;
    while i < xs.len()
        invariant
            1 <= i <= xs.len(),
            v == spec_snls(xs@),
            acc@ == spec_merge_all(v.take(i as int)),
        decreases xs.len() - i,
    {
        assert(v.take(i + 1).drop_last() == v.take(i as int));
        acc = merge_two_string_with_node_level(&acc, &xs[i]);
        i = i + 1;
    }
    assert(v.take(xs.len() as int) == v);
    acc
}

/// Each element rendered in turn; `None` as soon as one cannot be.
fn values_to_strings(content: &Vec<Json>) -> (res: Option<Vec<StringWithNodeLevel>>)
    ensures
        match res {
            Some(v) => spec_values_md(content@) == Some(spec_snls(v@)),
            None => spec_values_md(content@) is None,
        },
    decreases content@, 0nat,
{
    let mut res: Vec<StringWithNodeLevel> = Vec::new();
    let mut i: usize = 0;
    while i < content.len()
        invariant
            i <= content.len(),
            spec_values_md(content@.take(i as int)) == Some(spec_snls(res@)),
        decreases content.len() - i,
    {
        assert(content@.take(i + 1).drop_last() == content@.take(i as int));
        assert(content@.take(i + 1).last() == content@[i as int]);
        match value_to_string(&content[i]) {
            Some(x) => {
                res.push(x);
                assert(spec_snls(res@) == spec_snls(res@.drop_last()).push(res@.last()@));
            },
            None => {
                proof { lemma_values_none_extends(content@, i as int); }
                return None;
            },
        }
        i = i + 1;
    }
    assert(content@.take(content.len() as int) == content@);
    Some(res)
}

/// Once an element cannot be rendered, neither can any longer prefix.
proof fn lemma_values_none_extends(a: Seq<Json>, i: int)
    requires
        0 <= i < a.len(),
        spec_value_md(a[i]) is None,
    ensures
        spec_values_md(a) is None,
    decreases a.len(),
{
    if i < a.len() - 1 {
        lemma_values_none_extends(a.drop_last(), i);
    }
}

/// The elements rendered and merged (`reduce` with the separator rules).
pub fn array_of_value_to_string(content: &Vec<Json>) -> (res: Option<StringWithNodeLevel>)
    ensures
        spec_opt_snl(res) == spec_array_md(content@),
    decreases content@, 1nat,
{
    match values_to_strings(content) {
        Some(v) => Some(merge_all(&v)),
        None => None,
    }
}

/// The merged rendering of the content, or `default` without content.
fn content_text(json: &Json, default: String) -> (res: Option<String>)
    ensures
        match res {
            Some(t) => spec_content_text_md(*json, default@) == Some(t@),
            None => spec_content_text_md(*json, default@) is None,
        },
    decreases json, 0nat,
{
    match content_of(json) {
        None => Some(default),
        Some(a) => {
            proof { lemma_content_decreases(*json); }
            match array_of_value_to_string(a) {
                Some(x) => Some(x.text),
                None => None,
            }
        },
    }
}

fn codeblock_to_string(json: &Json) -> (res: Option<StringWithNodeLevel>)
    ensures
        spec_opt_snl(res) == spec_codeblock_md(*json),
    decreases json, 1nat,
{
    let inner = match content_of(json) {
        None => json_map_to_string(json),
        Some(a) => {
            proof { lemma_content_decreases(*json); }
            match array_of_value_to_string(a) {
                Some(x) => x.text,
                None => return None,
            }
        },
    };
    let language = string_or_empty(str_at(json, "attrs", "language"));
    let mut res = to_owned("```");
    res.append(language.as_str());
    res.append("\n");
    res.append(inner.as_str());
    res.append("\n```");
    Some(to_top_level(res))
}

/// An emoji: its text, else its short name.
pub fn emoji_to_string(json: &Json) -> (res: StringWithNodeLevel)
    ensures
        res@ == spec_inline(spec_emoji(*json)),
{
    let text = match json.get("attrs") {
        None => String::new(),
        Some(x) => match x.get("text") {
            Some(t) => string_or_empty(t.as_str()),
            None => string_or_empty(str_of(x, "shortName")),
        },
    };
    to_inline(text)
}

fn blockquote_to_string(json: &Json) -> (res: Option<StringWithNodeLevel>)
    ensures
        spec_opt_snl(res) == spec_blockquote_md(*json),
    decreases json, 1nat,
{
    let inner = match content_text(json, json_map_to_string(json)) {
        Some(t) => t,
        None => return None,
    };
    Some(to_top_level(indent_with(inner.as_str(), "> ")))
}

/// The texts of rendered pieces.
fn texts_of(xs: &Vec<StringWithNodeLevel>) -> (res: Vec<String>)
    ensures
        res@.map_values(|x: String| x@) == spec_texts(spec_snls(xs@)),
{
    let mut res: Vec<String> = Vec::new();
    let mut i: usize = 0;
    while i < xs.len()
        invariant
            i <= xs.len(),
            res@.len() == i,
            forall|k: int| 0 <= k < i ==> #[trigger] res@[k]@ == xs@[k].text@,
        decreases xs.len() - i,
    {
        res.push(xs[i].text.clone());
        i = i + 1;
    }
    assert(res@.map_values(|x: String| x@) == spec_texts(spec_snls(xs@)));
    res
}

fn list_item_to_string(json: &Json) -> (res: Option<StringWithNodeLevel>)
    ensures
        spec_opt_snl(res) == spec_list_item_md(*json),
    decreases json, 1nat,
{
    match content_of(json) {
        None => Some(StringWithNodeLevel { text: json_map_to_string(json), node_level: NodeLevel::ChildNode }),
        Some(a) => {
            proof { lemma_content_decreases(*json); }
            match values_to_strings(a) {
                Some(xs) => {
                    let texts = texts_of(&xs);
                    let text = join(&texts, "\n");
                    Some(StringWithNodeLevel { text, node_level: NodeLevel::ChildNode })
                },
                None => None,
            }
        },
    }
}

/// One bullet of a list.
fn bullet_item(text: &str) -> (res: String)
    ensures
        res@ == spec_bullet_item(text@),
{
    let ls = lines(text);
    let ghost lv = ls@.map_values(|x: String| x@);
    let mut items: Vec<String> = Vec::new();
    let mut n: usize = 0;
    while n < ls.len()
        invariant
            n <= ls.len(),
            lv == ls@.map_values(|x: String| x@),
            items@.len() == n,
            forall|k: int| 0 <= k < n ==> #[trigger] items@[k]@ == (if k == 0 {
                "  - "@ + spec_trim(lv[k])
            } else {
                "    "@ + spec_trim(lv[k])
            }),
        decreases ls.len() - n,
    {
        let mut item = if n == 0 { to_owned("  - ") } else { to_owned("    ") };
        let t = trim(ls[n].as_str());
        item.append(t.as_str());
        items.push(item);
        n = n + 1;
    }
    let res = join(&items, "\n");
    assert(items@.map_values(|x: String| x@) == Seq::new(
        lv.len(),
        |k: int| if k == 0 { "  - "@ + spec_trim(lv[k]) } else { "    "@ + spec_trim(lv[k]) },
    ));
    res
}

fn bullet_list_to_string(json: &Json) -> (res: Option<StringWithNodeLevel>)
    ensures
        spec_opt_snl(res) == spec_bullet_list_md(*json),
    decreases json, 1nat,
{
    match content_of(json) {
        None => Some(json_to_toplevel_string(json)),
        Some(a) => {
            proof { lemma_content_decreases(*json); }
            match values_to_strings(a) {
                Some(xs) => {
                    let ghost tv = spec_texts(spec_snls(xs@));
                    let mut items: Vec<String> = Vec::new();
                    let mut i: usize = 0;
                    while i < xs.len()
                        invariant
                            i <= xs.len(),
                            tv == spec_texts(spec_snls(xs@)),
                            items@.len() == i,
                            forall|k: int| 0 <= k < i ==> #[trigger] items@[k]@ == spec_bullet_item(tv[k]),
                        decreases xs.len() - i,
                    {
                        items.push(bullet_item(xs[i].text.as_str()));
                        i = i + 1;
                    }
                    let text = join(&items, "\n");
                    assert(items@.map_values(|x: String| x@) == tv.map_values(|t: Seq<char>| spec_bullet_item(t)));
                    Some(to_top_level(text))
                },
                None => None,
            }
        },
    }
}

/// A text decorated by one mark.
fn apply_mark(mark: Result<MarkKind, String>, content: String) -> (res: String)
    ensures
        res@ == spec_apply_mark(
            match mark {
                Ok(k) => Ok::<MarkView, Seq<char>>(k@),
                Err(e) => Err::<MarkView, Seq<char>>(e@),
            },
            content@,
        ),
{
    let (before, after): (&str, &str) = match &mark {
        Ok(MarkKind::Code) => ("`", "`"),
        Ok(MarkKind::Emphasis) => ("/", "/"),
        Ok(MarkKind::Link(l)) => {
            let mut res = to_owned("[");
            res.append(content.as_str());
            res.append("](");
            res.append(l.href.as_str());
            res.append(")");
            return res;
        },
        Ok(MarkKind::Strike) => ("~", "~"),
        Ok(MarkKind::Strong) => ("*", "*"),
        Ok(MarkKind::Superscript) => ("^{", "}"),
        Ok(MarkKind::SubScript) => ("_{", "}"),
        Ok(MarkKind::TextColour(_)) => return content,
        Ok(MarkKind::BackgroundColour(_)) => return content,
        Ok(MarkKind::Underline) => ("_", "_"),
        Err(_) => return content,
    };
    let mut res = to_owned(before);
    res.append(content.as_str());
    res.append(after);
    res
}

fn text_to_string(json: &Json) -> (res: StringWithNodeLevel)
    ensures
        res@ == spec_text_md(*json),
{
    let mut content = string_or_empty(str_of(json, "text"));
    let ghost c0 = content@;
    if let Some(marks) = json.get("marks") {
        if let Some(marks) = marks.as_array() {
            let mut i: usize = 0;
            while i < marks.len()
                invariant
                    i <= marks.len(),
                    content@ == spec_apply_marks(marks@.take(i as int), c0),
                decreases marks.len() - i,
            {
                assert(marks@.take(i + 1).drop_last() == marks@.take(i as int));
                assert(marks@.take(i + 1).last() == marks@[i as int]);
                content = apply_mark(get_mark_kind(&marks[i]), content);
                i = i + 1;
            }
            assert(marks@.take(marks.len() as int) == marks@);
        }
    }
    to_inline(content)
}

fn paragraph_to_string(json: &Json) -> (res: Option<StringWithNodeLevel>)
    ensures
        spec_opt_snl(res) == spec_paragraph_md(*json),
    decreases json, 1nat,
{
    match content_text(json, String::new()) {
        Some(t) => Some(to_top_level(t)),
        None => None,
    }
}

fn doc_to_string(json: &Json) -> (res: Option<StringWithNodeLevel>)
    ensures
        spec_opt_snl(res) == spec_paragraph_md(*json),
    decreases json, 1nat,
{
    match content_text(json, String::new()) {
        Some(t) => Some(to_top_level(t)),
        None => None,
    }
}

fn hardbreak_to_string(_json: &Json) -> (res: StringWithNodeLevel)
    ensures
        res@ == spec_inline("\n"@),
{
    to_inline(to_owned("\n"))
}

fn rule_to_string(_json: &Json) -> (res: StringWithNodeLevel)
    ensures
        res@ == spec_inline("\n"@),
{
    to_inline(to_owned("\n"))
}

/// Each line followed by a line of `c` as long as its UTF-8 encoding.
fn underline_with(c: char, inner: &str) -> (res: String)
    ensures
        res@ == spec_underline(c, inner@),
{
    let ls = lines(inner);
    let ghost lv = ls@.map_values(|x: String| x@);
    let mut items: Vec<String> = Vec::new();
    let mut n: usize = 0;
    while n < ls.len()
        invariant
            n <= ls.len(),
            lv == ls@.map_values(|x: String| x@),
            items@.len() == n,
            forall|k: int| 0 <= k < n ==> #[trigger] items@[k]@ == lv[k] + "\n"@ + spec_repeat(
                c,
                (vstd::utf8::encode_utf8(lv[k]).len() as usize) as nat,
            ),
        decreases ls.len() - n,
    {
        assert(lv[n as int] == ls[n as int]@);
        let mut item = ls[n].clone();
        item.append("\n");
        let len = ls[n].as_str().len();
        let u = repeat_char(c, len);
        item.append(u.as_str());
        items.push(item);
        n = n + 1;
    }
    assert(items@.map_values(|x: String| x@) == Seq::new(
        lv.len(),
        |k: int| lv[k] + "\n"@ + spec_repeat(c, (vstd::utf8::encode_utf8(lv[k]).len() as usize) as nat),
    ));
    join(&items, "\n")
}

/// Each line after `level` hashes and a space.
fn with_hashes(level: usize, inner: &str) -> (res: String)
    ensures
        res@ == spec_hashes(level as nat, inner@),
{
    let ls = lines(inner);
    let ghost lv = ls@.map_values(|x: String| x@);
    let mut items: Vec<String> = Vec::new();
    let mut n: usize = 0;
    while n < ls.len()
        invariant
            n <= ls.len(),
            lv == ls@.map_values(|x: String| x@),
            items@.len() == n,
            forall|k: int| 0 <= k < n ==> #[trigger] items@[k]@ == spec_repeat('#', level as nat) + " "@ + lv[k],
        decreases ls.len() - n,
    {
        let mut item = repeat_char('#', level);
        item.append(" ");
        item.append(ls[n].as_str());
        items.push(item);
        n = n + 1;
    }
    assert(items@.map_values(|x: String| x@) == Seq::new(
        lv.len(),
        |k: int| spec_repeat('#', level as nat) + " "@ + lv[k],
    ));
    join(&items, "\n")
}

/// The level of a heading, clamped to 1..=6.
pub(crate) fn heading_level(json: &Json) -> (res: usize)
    ensures
        res as int == spec_heading_level(*json),
{
    let level = match json.get("attrs") {
        None => None,
        Some(a) => match a.get("level") {
            None => None,
            Some(l) => l.as_i64(),
        },
    };
    match level {
        Some(l) => if l < 1 {
            1
        } else if l > 6 {
            6
        } else {
            l as usize
        },
        None => 1,
    }
}

fn heading_to_string(json: &Json) -> (res: Option<StringWithNodeLevel>)
    ensures
        spec_opt_snl(res) == spec_heading_md(*json),
    decreases json, 1nat,
{
    let inner = match content_text(json, String::new()) {
        Some(t) => t,
        None => return None,
    };
    let level = heading_level(json);
    let content = if level == 1 {
        underline_with('=', inner.as_str())
    } else if level == 2 {
        underline_with('-', inner.as_str())
    } else {
        with_hashes(level, inner.as_str())
    };
    Some(to_top_level(content))
}

fn mention_to_string(json: &Json) -> (res: StringWithNodeLevel)
    ensures
        res@ == spec_mention_md(*json),
{
    let attrs = match json.get("attrs") {
        Some(a) => if a.is_object() { a } else { return to_inline(json_map_to_string(json)) },
        None => return to_inline(json_map_to_string(json)),
    };
    if let Some(s) = str_of(attrs, "text") {
        return to_inline(s.clone());
    }
    match str_of(attrs, "id") {
        None => to_inline(json_map_to_string(json)),
        Some(s) => to_inline(s.clone()),
    }
}

fn task_item_to_string(json: &Json) -> (res: Option<StringWithNodeLevel>)
    ensures
        spec_opt_snl(res) == spec_task_item_md(*json),
    decreases json, 1nat,
{
    let attrs = match json.get("attrs") {
        Some(a) => if a.is_object() { Some(a) } else { None },
        None => None,
    };
    let content = content_of(json);
    if content.is_none() || attrs.is_none() {
        return Some(json_to_toplevel_string(json));
    }
    let attrs = attrs.unwrap();
    let content = content.unwrap();
    proof { lemma_content_decreases(*json); }
    let status = string_or_empty(str_of(attrs, "state"));
    let beginning = if str_eq(status.as_str(), "TODO") {
        "\u{2610}"
    } else if str_eq(status.as_str(), "DONE") {
        "\u{2611}"
    } else {
        "?"
    };
    let content_string = match array_of_value_to_string(content) {
        Some(x) => x,
        None => return None,
    };
    let mut text = to_owned(beginning);
    text.append(" ");
    text.append(content_string.text.as_str());
    Some(StringWithNodeLevel { text, node_level: content_string.node_level })
}

/// The first number of an ordered list.
fn list_start(json: &Json) -> (res: u64)
    ensures
        res as int == spec_list_start(*json),
{
    let order = match json.get("attrs") {
        None => None,
        Some(a) => match a.get("order") {
            None => None,
            Some(o) => o.as_u64(),
        },
    };
    match order {
        Some(n) => n,
        None => 1,
    }
}

/// Each element rendered as a whole document.
fn roots_to_strings(content: &Vec<Json>) -> (res: Option<Vec<String>>)
    ensures
        match res {
            Some(v) => spec_roots_md(content@) == Some(v@.map_values(|x: String| x@)),
            None => spec_roots_md(content@) is None,
        },
    decreases content@, 0nat,
{
    let mut res: Vec<String> = Vec::new();
    let mut i: usize = 0;
    while i < content.len()
        invariant
            i <= content.len(),
            spec_roots_md(content@.take(i as int)) == Some(res@.map_values(|x: String| x@)),
        decreases content.len() - i,
    {
        assert(content@.take(i + 1).drop_last() == content@.take(i as int));
        assert(content@.take(i + 1).last() == content@[i as int]);
        match root_elt_doc_to_string(&content[i]) {
            Some(x) => {
                res.push(x);
                assert(res@.map_values(|x: String| x@) == res@.drop_last().map_values(|x: String| x@).push(
                    res@.last()@,
                ));
            },
            None => {
                proof { lemma_roots_none_extends(content@, i as int); }
                return None;
            },
        }
        i = i + 1;
    }
    assert(content@.take(content.len() as int) == content@);
    Some(res)
}

proof fn lemma_roots_none_extends(a: Seq<Json>, i: int)
    requires
        0 <= i < a.len(),
        spec_root_md(a[i]) is None,
    ensures
        spec_roots_md(a) is None,
    decreases a.len(),
{
    if i < a.len() - 1 {
        lemma_roots_none_extends(a.drop_last(), i);
    }
}

fn ordered_list_to_string(json: &Json) -> (res: Option<StringWithNodeLevel>)
    ensures
        spec_opt_snl(res) == spec_ordered_list_md(*json),
    decreases json, 1nat,
{
    let content = match content_of(json) {
        None => return Some(StringWithNodeLevel { text: json_map_to_string(json), node_level: NodeLevel::ChildNode }),
        Some(a) => a,
    };
    proof { lemma_content_decreases(*json); }
    let init_num = list_start(json);
    let items = match roots_to_strings(content) {
        Some(v) => v,
        None => return None,
    };
    let ghost iv = items@.map_values(|x: String| x@);
    if items.len() == 0 {
        return Some(StringWithNodeLevel { text: json_map_to_string(json), node_level: NodeLevel::ChildNode });
    }
    if init_num > u64::MAX - ((items.len() - 1) as u64) {
        return None;
    }
    let mut numbered: Vec<String> = Vec::new();
    let mut n: usize = 0;
    while n < items.len()
        invariant
            n <= items.len(),
            iv == items@.map_values(|x: String| x@),
            items.len() - 1 + init_num <= u64::MAX,
            numbered@.len() == n,
            forall|k: int| 0 <= k < n ==> #[trigger] numbered@[k]@ == spec_decimal((k + init_num) as nat) + ". "@ + iv[k],
        decreases items.len() - n,
    {
        let mut item = decimal(n as u64 + init_num);
        item.append(". ");
        item.append(items[n].as_str());
        numbered.push(item);
        n = n + 1;
    }
    assert(numbered@.map_values(|x: String| x@) == Seq::new(
        iv.len(),
        |k: int| spec_decimal((k + init_num) as nat) + ". "@ + iv[k],
    ));
    Some(StringWithNodeLevel { text: join(&numbered, "\n"), node_level: NodeLevel::ChildNode })
}

/// In the text rendering of an ordered list starting at `s` whose items render
/// (as documents) to `items`, the list is one line per item, in order, joined
/// by newlines, and the line of the item at position `n` (from 0) is the
/// decimal writing of `s + n`, then `". "`, then the item: the items are
/// numbered in turn, and no two items carry the same number.
pub proof fn lemma_ordered_list_numbers_items_in_turn(j: Json)
    requires
        spec_content(j) is Some,
        spec_roots_md(spec_content(j).unwrap()) is Some,
        spec_roots_md(spec_content(j).unwrap()).unwrap().len() > 0,
        spec_roots_md(spec_content(j).unwrap()).unwrap().len() - 1 + spec_list_start(j) <= u64::MAX,
    ensures
        ({
            let items = spec_roots_md(spec_content(j).unwrap()).unwrap();
            let s = spec_list_start(j);
            exists|lines: Seq<Seq<char>>|
                #![trigger spec_join(lines, "\n"@)]
                lines.len() == items.len()
                && spec_ordered_list_md(j) == Some(SnlView { text: spec_join(lines, "\n"@), level: NodeLevel::ChildNode })
                && forall|n: int| 0 <= n < lines.len() ==> #[trigger] lines[n] == spec_decimal((s + n) as nat) + ". "@ + items[n]
        }),
        forall|m: int, n: int|
            0 <= m < n ==> #[trigger] spec_decimal((spec_list_start(j) + m) as nat) != #[trigger] spec_decimal(
                (spec_list_start(j) + n) as nat,
            ),
{
    let items = spec_roots_md(spec_content(j).unwrap()).unwrap();
    let s = spec_list_start(j);
    let lines = Seq::new(items.len(), |n: int| spec_decimal((n + s) as nat) + ". "@ + items[n]);
    assert(lines.len() == items.len());
    assert(forall|n: int| 0 <= n < lines.len() ==> #[trigger] lines[n] == spec_decimal((s + n) as nat) + ". "@ + items[n]);
    assert(spec_ordered_list_md(j) == Some(SnlView { text: spec_join(lines, "\n"@), level: NodeLevel::ChildNode }));
    assert forall|m: int, n: int| 0 <= m < n implies #[trigger] spec_decimal((spec_list_start(j) + m) as nat)
        != #[trigger] spec_decimal((spec_list_start(j) + n) as nat) by {
        crate::text::lemma_decimal_injective((spec_list_start(j) + m) as nat, (spec_list_start(j) + n) as nat);
    }
}

/// Whether a panel type is drawn as a box.
pub(crate) fn is_panel_type(t: &str) -> (res: bool)
    ensures
        res == spec_is_panel_type(t@),
{
    str_eq(t, "info") || str_eq(t, "note") || str_eq(t, "warning") || str_eq(t, "success") || str_eq(t, "error")
}

fn panel_to_string(json: &Json) -> (res: Option<StringWithNodeLevel>)
    ensures
        spec_opt_snl(res) == spec_panel_md(*json),
    decreases json, 1nat,
{
    let panel_type = match str_at(json, "attrs", "panelType") {
        Some(t) => if is_panel_type(t.as_str()) { t } else { return Some(json_to_toplevel_string(json)) },
        None => return Some(json_to_toplevel_string(json)),
    };
    let content = match content_text(json, json_map_to_string(json)) {
        Some(t) => t,
        None => return None,
    };
    let ghost content_before = content@;
    let content = indent_with(content.as_str(), "| ");
    let padding_dash_len = panel_type.as_str().len();
    proof {
        reveal_strlit("info");
        reveal_strlit("note");
        reveal_strlit("warning");
        reveal_strlit("success");
        reveal_strlit("error");
        lemma_panel_type_ascii(panel_type@);
        assert(panel_type@.len() <= 7);
    }
    let padding_dash = repeat_char('-', padding_dash_len + 2);
    let mut text = to_owned("/---------- ");
    text.append(panel_type.as_str());
    text.append(" -----------\n");
    text.append(content.as_str());
    text.append("\n\\----------");
    text.append(padding_dash.as_str());
    text.append("-----------");
    assert(padding_dash@ == spec_repeat('-', (vstd::utf8::encode_utf8(panel_type@).len() + 2) as nat));
    assert(content@ == spec_indent(content_before, "| "@));
    assert(text@ =~= spec_panel_box(panel_type@, content_before));
    Some(to_top_level(text))
}

/// The panel types are ASCII: their UTF-8 encoding has one byte per character.
proof fn lemma_panel_type_ascii(t: Seq<char>)
    requires
        spec_is_panel_type(t),
    ensures
        vstd::utf8::encode_utf8(t).len() == t.len(),
{
    reveal_strlit("info");
    reveal_strlit("note");
    reveal_strlit("warning");
    reveal_strlit("success");
    reveal_strlit("error");
    vstd::utf8::is_ascii_chars_encode_utf8(t);
}

/// A table cell, header or row between HTML tags.
fn tagged_to_string(json: &Json, open: &str, close: &str, tag: Ghost<Seq<char>>) -> (res: Option<StringWithNodeLevel>)
    requires
        open@ == "<"@ + tag@ + ">"@,
        close@ == "</"@ + tag@ + ">"@,
    ensures
        spec_opt_snl(res) == spec_tagged_md(*json, tag@),
    decreases json, 0nat,
{
    let content = match content_of(json) {
        None => return Some(json_to_toplevel_string(json)),
        Some(a) => a,
    };
    proof { lemma_content_decreases(*json); }
    let inner = match array_of_value_to_string(content) {
        Some(x) => x,
        None => return None,
    };
    let mut text = to_owned(open);
    text.append(inner.text.as_str());
    text.append(close);
    assert(text@ =~= "<"@ + tag@ + ">"@ + inner.text@ + "</"@ + tag@ + ">"@);
    Some(to_top_level(text))
}


fn table_cell_to_string(json: &Json) -> (res: Option<StringWithNodeLevel>)
    ensures
        spec_opt_snl(res) == spec_tagged_md(*json, "td"@),
    decreases json, 1nat,
{
    proof {
        reveal_strlit("td");
        reveal_strlit("<td>");
        reveal_strlit("</td>");
        reveal_strlit("<");
        reveal_strlit(">");
        reveal_strlit("</");
        assert("<td>"@ =~= "<"@ + "td"@ + ">"@);
        assert("</td>"@ =~= "</"@ + "td"@ + ">"@);
    }
    tagged_to_string(json, "<td>", "</td>", Ghost("td"@))
}

fn table_row_to_string(json: &Json) -> (res: Option<StringWithNodeLevel>)
    ensures
        spec_opt_snl(res) == spec_tagged_md(*json, "tr"@),
    decreases json, 1nat,
{
    proof {
        reveal_strlit("tr");
        reveal_strlit("<tr>");
        reveal_strlit("</tr>");
        reveal_strlit("<");
        reveal_strlit(">");
        reveal_strlit("</");
        assert("<tr>"@ =~= "<"@ + "tr"@ + ">"@);
        assert("</tr>"@ =~= "</"@ + "tr"@ + ">"@);
    }
    tagged_to_string(json, "<tr>", "</tr>", Ghost("tr"@))
}

fn table_header_to_string(json: &Json) -> (res: Option<StringWithNodeLevel>)
    ensures
        spec_opt_snl(res) == spec_tagged_md(*json, "th"@),
    decreases json, 1nat,
{
    proof {
        reveal_strlit("th");
        reveal_strlit("<th>");
        reveal_strlit("</th>");
        reveal_strlit("<");
        reveal_strlit(">");
        reveal_strlit("</");
        assert("<th>"@ =~= "<"@ + "th"@ + ">"@);
        assert("</th>"@ =~= "</"@ + "th"@ + ">"@);
    }
    tagged_to_string(json, "<th>", "</th>", Ghost("th"@))
}

fn table_to_string(json: &Json) -> (res: Option<StringWithNodeLevel>)
    ensures
        spec_opt_snl(res) == spec_table_md(*json),
    decreases json, 1nat,
{
    let content = match content_of(json) {
        None => return Some(json_to_toplevel_string(json)),
        Some(a) => a,
    };
    proof { lemma_content_decreases(*json); }
    let inner = match array_of_value_to_string(content) {
        Some(x) => x,
        None => return None,
    };
    let mut html = to_owned("<table>");
    html.append(inner.text.as_str());
    html.append("</table>");
    match html_to_text(html.as_str(), 80) {
        Some(t) => Some(to_top_level(t)),
        None => None,
    }
}

fn decision_list_to_string(decision_list: &Json) -> (res: Option<StringWithNodeLevel>)
    ensures
        spec_opt_snl(res) == spec_decision_list_md(*decision_list),
    decreases decision_list, 1nat,
{
    let content = match content_of(decision_list) {
        None => return Some(json_to_toplevel_string(decision_list)),
        Some(a) => a,
    };
    proof { lemma_content_decreases(*decision_list); }
    let xs = match values_to_strings(content) {
        Some(v) => v,
        None => return None,
    };
    let ghost tv = spec_texts(spec_snls(xs@));
    let mut items: Vec<String> = Vec::new();
    let mut i: usize = 0;
    while i < xs.len()
        invariant
            i <= xs.len(),
            tv == spec_texts(spec_snls(xs@)),
            items@.len() == i,
            forall|k: int| 0 <= k < i ==> #[trigger] items@[k]@ == "  decision: "@ + tv[k],
        decreases xs.len() - i,
    {
        let mut item = to_owned("  decision: ");
        item.append(xs[i].text.as_str());
        items.push(item);
        i = i + 1;
    }
    assert(items@.map_values(|x: String| x@) == tv.map_values(|x: Seq<char>| "  decision: "@ + x));
    let mut text = to_owned("Decision list:\n");
    text.append(join(&items, "\n").as_str());
    Some(to_top_level(text))
}

fn decision_item_to_string(decision_item: &Json) -> (res: Option<StringWithNodeLevel>)
    ensures
        spec_opt_snl(res) == spec_decision_item_md(*decision_item),
    decreases decision_item, 1nat,
{
    match content_of(decision_item) {
        None => Some(json_to_toplevel_string(decision_item)),
        Some(a) => {
            proof { lemma_content_decreases(*decision_item); }
            array_of_value_to_string(a)
        },
    }
}

/// The media node dumped as JSON in a fenced block.
fn media_to_string(media: &Json) -> (res: StringWithNodeLevel)
    ensures
        res@ == spec_media_md(*media),
{
    let mut text = to_owned("```json\n");
    text.append(json_map_to_string(media).as_str());
    text.append("\n```");
    StringWithNodeLevel { text, node_level: NodeLevel::ChildNode }
}

fn media_single_to_string(media_single_item: &Json) -> (res: StringWithNodeLevel)
    ensures
        res@ == spec_media_single_md(*media_single_item),
{
    let content = match content_of(media_single_item) {
        None => return json_to_toplevel_string(media_single_item),
        Some(a) => a,
    };
    if content.len() != 1 {
        return json_to_toplevel_string(media_single_item);
    }
    let value = &content[0];
    if !value.is_object() {
        return json_to_toplevel_string(media_single_item);
    }
    match str_of(value, "type") {
        Some(t) => if !str_eq(t.as_str(), "media") {
            return json_to_toplevel_string(media_single_item);
        },
        None => return json_to_toplevel_string(media_single_item),
    }
    let res = media_to_string(value);
    to_top_level(res.text)
}

fn inline_card_to_string(inline_card: &Json) -> (res: StringWithNodeLevel)
    ensures
        res@ == spec_inline_card_md(*inline_card),
{
    let attrs = match inline_card.get("attrs") {
        None => return to_inline(json_map_to_string(inline_card)),
        Some(a) => a,
    };
    if !attrs.is_object() {
        return to_inline(json_map_to_string(inline_card));
    }
    let url = attrs.get("url");
    let data = attrs.get("data");
    let res = match (url, data) {
        (None, None) => json_map_to_string(inline_card),
        (Some(url), None) => match url.as_str() {
            Some(u) => u.clone(),
            None => if url.is_object() {
                json_map_to_string(url)
            } else {
                url.text.clone()
            },
        },
        (Some(_), Some(_)) => json_map_to_string(inline_card),
        (None, Some(data)) => if data.is_object() {
            json_map_to_string(data)
        } else {
            data.text.clone()
        },
    };
    to_inline(res)
}

/// Whether every element is a `media` object.
pub(crate) fn are_all_medias(content: &Vec<Json>) -> (res: bool)
    ensures
        res == spec_all_medias(content@),
{
    let mut i: usize = 0;
    while i < content.len()
        invariant
            i <= content.len(),
            forall|k: int| 0 <= k < i ==> spec_opt_str(spec_get(#[trigger] content@[k], "type"@)) == Some("media"@),
        decreases content.len() - i,
    {
        match str_of(&content[i], "type") {
            Some(t) => if !str_eq(t.as_str(), "media") {
                return false;
            },
            None => return false,
        }
        i = i + 1;
    }
    true
}

fn media_group_to_string(media_group_item: &Json) -> (res: Option<StringWithNodeLevel>)
    ensures
        spec_opt_snl(res) == spec_media_group_md(*media_group_item),
    decreases media_group_item, 1nat,
{
    let content = match content_of(media_group_item) {
        None => return Some(json_to_toplevel_string(media_group_item)),
        Some(a) => a,
    };
    if !are_all_medias(content) {
        return Some(json_to_toplevel_string(media_group_item));
    }
    proof { lemma_content_decreases(*media_group_item); }
    match array_of_value_to_string(content) {
        Some(x) => Some(to_top_level(x.text)),
        None => None,
    }
}

/// Text wrapped in `<verbatim>` tags.
pub fn to_html_verbatim(val: &str) -> (res: String)
    ensures
        res@ == "<verbatim>"@ + val@ + "</verbatim>"@,
{
    let mut res = to_owned("<verbatim>");
    res.append(val);
    res.append("</verbatim>");
    res
}

#[verifier::rlimit(50)]
fn object_to_string(json: &Json) -> (res: Option<StringWithNodeLevel>)
    ensures
        spec_opt_snl(res) == spec_object_md(*json),
    decreases json, 2nat,
{
    let type_elt = match str_of(json, "type") {
        None => return Some(json_to_toplevel_string(json)),
        Some(t) => t.as_str(),
    };
    if str_eq(type_elt, "blockquote") {
        blockquote_to_string(json)
    } else if str_eq(type_elt, "bulletList") {
        bullet_list_to_string(json)
    } else if str_eq(type_elt, "codeBlock") {
        codeblock_to_string(json)
    } else if str_eq(type_elt, "decisionList") {
        decision_list_to_string(json)
    } else if str_eq(type_elt, "decisionItem") {
        decision_item_to_string(json)
    } else if str_eq(type_elt, "doc") {
        doc_to_string(json)
    } else if str_eq(type_elt, "emoji") {
        Some(emoji_to_string(json))
    } else if str_eq(type_elt, "hardBreak") {
        Some(hardbreak_to_string(json))
    } else if str_eq(type_elt, "heading") {
        heading_to_string(json)
    } else if str_eq(type_elt, "inlineCard") {
        Some(inline_card_to_string(json))
    } else if str_eq(type_elt, "listItem") {
        list_item_to_string(json)
    } else if str_eq(type_elt, "media") {
        Some(media_to_string(json))
    } else if str_eq(type_elt, "mediaSingle") {
        Some(media_single_to_string(json))
    } else if str_eq(type_elt, "mediaGroup") {
        media_group_to_string(json)
    } else if str_eq(type_elt, "mention") {
        Some(mention_to_string(json))
    } else if str_eq(type_elt, "orderedList") {
        ordered_list_to_string(json)
    } else if str_eq(type_elt, "panel") {
        panel_to_string(json)
    } else if str_eq(type_elt, "paragraph") {
        paragraph_to_string(json)
    } else if str_eq(type_elt, "rule") {
        Some(rule_to_string(json))
    } else if str_eq(type_elt, "table") {
        table_to_string(json)
    } else if str_eq(type_elt, "tableHeader") {
        table_header_to_string(json)
    } else if str_eq(type_elt, "tableCell") {
        table_cell_to_string(json)
    } else if str_eq(type_elt, "tableRow") {
        table_row_to_string(json)
    } else if str_eq(type_elt, "taskItem") {
        task_item_to_string(json)
    } else if str_eq(type_elt, "text") {
        Some(text_to_string(json))
    } else {
        Some(json_to_toplevel_string(json))
    }
}

/// The plain-text rendering of a JSON value.
pub fn value_to_string(json: &Json) -> (res: Option<StringWithNodeLevel>)
    ensures
        spec_opt_snl(res) == spec_value_md(*json),
    decreases json, 3nat,
{
    match &json.value {
        JsonValue::Null => Some(to_inline(to_owned("null"))),
        JsonValue::Bool(b) => Some(to_inline(if *b { to_owned("true") } else { to_owned("false") })),
        JsonValue::Number(_) => Some(to_inline(json.text.clone())),
        JsonValue::String(s) => Some(to_inline(s.clone())),
        JsonValue::Array(a) => {
            proof {
                assert(decreases_to!(*json => json.value));
                assert(decreases_to!(json.value => *a));
                assert(decreases_to!(*a => a@));
            }
            array_of_value_to_string(a)
        },
        JsonValue::Object(_) => object_to_string(json),
    }
}

/// Renders a whole document (an object of type `doc`) as plain text; any
/// other value is given back as its JSON text. `None` when a table cannot
/// be converted to text or a list is numbered past `u64::MAX`.
pub fn root_elt_doc_to_string(description: &Json) -> (res: Option<String>)
    ensures
        match res {
            Some(t) => spec_root_md(*description) == Some(t@),
            None => spec_root_md(*description) is None,
        },
    decreases description, 3nat,
{
    if !description.is_object() {
        return Some(description.text.clone());
    }
    match str_of(description, "type") {
        Some(t) => if !str_eq(t.as_str(), "doc") {
            return Some(description.text.clone());
        },
        None => return Some(description.text.clone()),
    }
    let content = match content_of(description) {
        None => return Some(description.text.clone()),
        Some(a) => a,
    };
    proof { lemma_content_decreases(*description); }
    match array_of_value_to_string(content) {
        Some(x) => Some(x.text),
        None => None,
    }
}

} // verus!
