use vstd::prelude::*;

use crate::atlassian_document_format::{root_elt_doc_to_string, spec_root_md};
use crate::atlassian_document_format_html_output::{root_elt_doc_to_html_string, spec_root_html, FileData};
use crate::encoding::{base64_of_str, debug_str, escape_html, spec_base64, spec_debug_str, spec_escape};
use crate::server::{error_reply, result_reply, spec_param_count_error, split_params, Reply};
use crate::json::{get_str_for_key, spec_as_str, spec_get, spec_opt_array, spec_opt_object, spec_opt_str, Json, JsonValue};
use crate::text::{indent_with, join, spec_indent, spec_join, spec_split, str_eq, to_owned};
use crate::utils::{lemma_filter_map_step, lemma_take_all, spec_filter_map, spec_views};

verus! {

/// A link from the ticket to another issue, as shown.
pub struct Relations {
    pub link_name: String,
    pub other_issue_key: String,
    pub other_issue_summary: Option<String>,
}

impl View for Relations {
    type V = (Seq<char>, Seq<char>, Option<Seq<char>>);

    open spec fn view(&self) -> (Seq<char>, Seq<char>, Option<Seq<char>>) {
        (
            self.link_name@,
            self.other_issue_key@,
            match self.other_issue_summary {
                Some(s) => Some(s@),
                None => None,
            },
        )
    }
}

/// A field of the ticket, under its human name, with its JSON value.
pub struct Field<'a> {
    pub name: String,
    pub value: &'a Json,
}

impl<'a> View for Field<'a> {
    type V = (Seq<char>, Json);

    open spec fn view(&self) -> (Seq<char>, Json) {
        (self.name@, *self.value)
    }
}

/// A comment of the ticket: its body (a document), author and times.
pub struct Comment<'a> {
    pub data: &'a Json,
    pub author: String,
    pub creation_time: String,
    pub last_modification: String,
}

impl<'a> View for Comment<'a> {
    type V = (Json, Seq<char>, Seq<char>, Seq<char>);

    open spec fn view(&self) -> (Json, Seq<char>, Seq<char>, Seq<char>) {
        (*self.data, self.author@, self.creation_time@, self.last_modification@)
    }
}

/// The format a ticket is asked in.
#[allow(non_camel_case_types)]
#[derive(Copy, Clone, Debug, PartialEq, Eq, Structural)]
pub enum output_format {
    MARKDOWN,
    HTML,
}

impl output_format {
    /// The format named `format`, or the error listing the known ones.
    pub fn try_new(format: &str) -> (res: Result<output_format, String>)
        ensures
            format@ == "MARKDOWN"@ ==> res == Ok::<output_format, String>(output_format::MARKDOWN),
            format@ != "MARKDOWN"@ && format@ == "HTML"@ ==> res == Ok::<output_format, String>(output_format::HTML),
            format@ != "MARKDOWN"@ && format@ != "HTML"@ ==> (res matches Err(e) && e@
                == "Unknown format for ticket output. Supported: MARKDOWN and HTML. Requested: "@ + format@),
    {
        if str_eq(format, "MARKDOWN") {
            Ok(output_format::MARKDOWN)
        } else if str_eq(format, "HTML") {
            Ok(output_format::HTML)
        } else {
            let mut msg = to_owned("Unknown format for ticket output. Supported: MARKDOWN and HTML. Requested: ");
            msg.append(format);
            Err(msg)
        }
    }
}

// ---------------------------------------------------------------------------
// Links and comments
// ---------------------------------------------------------------------------

/// The summary shown for a link: the other issue's, or nothing.
pub open spec fn spec_summary_text(s: Option<Seq<char>>) -> Seq<char> {
    match s {
        Some(t) => t,
        None => Seq::empty(),
    }
}

/// One link, as HTML.
pub open spec fn spec_link_html(r: (Seq<char>, Seq<char>, Option<Seq<char>>)) -> Seq<char> {
    "<div class=\"link\">\n  <div class=\"relation\">"@ + spec_escape(r.0) + "</div>\n  <div class=\"other_key\">"@
        + spec_escape(r.1) + "</div>\n  <div class=\"key_summary\">"@ + spec_escape(spec_summary_text(r.2))
        + "</div>\n</div>"@
}

/// One link, as text.
pub open spec fn spec_link_md(r: (Seq<char>, Seq<char>, Option<Seq<char>>)) -> Seq<char> {
    r.0 + " "@ + r.1 + ": "@ + spec_summary_text(r.2)
}

/// The links, outward ones first, each shown by `f`, one per line; a
/// sentence when there is none.
pub open spec fn spec_links(
    inward: Seq<(Seq<char>, Seq<char>, Option<Seq<char>>)>,
    outward: Seq<(Seq<char>, Seq<char>, Option<Seq<char>>)>,
    f: spec_fn((Seq<char>, Seq<char>, Option<Seq<char>>)) -> Seq<char>,
) -> Seq<char> {
    let all = outward + inward;
    if all.len() == 0 {
        "No link to other issues found"@
    } else {
        spec_join(all.map_values(f), "\n"@)
    }
}

/// The summary shown for a link.
fn summary_text(s: &Option<String>) -> (res: String)
    ensures
        res@ == spec_summary_text(match s {
            Some(t) => Some(t@),
            None => None,
        }),
{
    match s {
        Some(t) => t.clone(),
        None => String::new(),
    }
}

/// One link, as HTML.
fn link_html(r: &Relations) -> (res: String)
    ensures
        res@ == spec_link_html(r@),
{
    let mut res = to_owned("<div class=\"link\">\n  <div class=\"relation\">");
    res.append(escape_html(r.link_name.as_str()).as_str());
    res.append("</div>\n  <div class=\"other_key\">");
    res.append(escape_html(r.other_issue_key.as_str()).as_str());
    res.append("</div>\n  <div class=\"key_summary\">");
    res.append(escape_html(summary_text(&r.other_issue_summary).as_str()).as_str());
    res.append("</div>\n</div>");
    res
}

/// One link, as text.
fn link_md(r: &Relations) -> (res: String)
    ensures
        res@ == spec_link_md(r@),
{
    let mut res = r.link_name.clone();
    res.append(" ");
    res.append(r.other_issue_key.as_str());
    res.append(": ");
    res.append(summary_text(&r.other_issue_summary).as_str());
    res
}

/// The links, outward ones first, as HTML.
pub fn format_links_for_html(inward_links: &[Relations], outward_links: &[Relations]) -> (res: String)
    ensures
        res@ == spec_links(spec_views(inward_links@), spec_views(outward_links@), |r: (Seq<char>, Seq<char>, Option<Seq<char>>)| spec_link_html(r)),
{
    let ghost all = spec_views(outward_links@) + spec_views(inward_links@);
    let mut parts: Vec<String> = Vec::new();
    let mut i: usize = 0;
    while i < outward_links.len()
        invariant
            i <= outward_links.len(),
            parts@.len() == i,
            forall|k: int| 0 <= k < i ==> (#[trigger] parts@[k])@ == spec_link_html(outward_links@[k]@),
        decreases outward_links.len() - i,
    {
        parts.push(link_html(&outward_links[i]));
        i = i + 1;
    }
    let mut j: usize = 0;
    while j < inward_links.len()
        invariant
            j <= inward_links.len(),
            parts@.len() == outward_links@.len() + j,
            forall|k: int| 0 <= k < outward_links@.len() ==> (#[trigger] parts@[k])@ == spec_link_html(outward_links@[k]@),
            forall|k: int| 0 <= k < j ==> (#[trigger] parts@[outward_links@.len() + k])@ == spec_link_html(inward_links@[k]@),
        decreases inward_links.len() - j,
    {
        parts.push(link_html(&inward_links[j]));
        j = j + 1;
    }
    if parts.len() == 0 {
        return to_owned("No link to other issues found");
    }
    assert forall|k: int| 0 <= k < parts@.len() implies (#[trigger] parts@[k])@ == spec_link_html(all[k]) by {
        if k < outward_links@.len() {
            assert(all[k] == outward_links@[k]@);
        } else {
            let m = k - outward_links@.len();
            assert(all[k] == inward_links@[m]@);
            assert(parts@[outward_links@.len() + m] == parts@[k]);
        }
    }
    assert(parts@.map_values(|x: String| x@) =~= all.map_values(|r: (Seq<char>, Seq<char>, Option<Seq<char>>)| spec_link_html(r)));
    join(&parts, "\n")
}

/// The links, outward ones first, as text.
pub fn format_links_for_markdown(inward_links: &[Relations], outward_links: &[Relations]) -> (res: String)
    ensures
        res@ == spec_links(spec_views(inward_links@), spec_views(outward_links@), |r: (Seq<char>, Seq<char>, Option<Seq<char>>)| spec_link_md(r)),
{
    let ghost all = spec_views(outward_links@) + spec_views(inward_links@);
    let mut parts: Vec<String> = Vec::new();
    let mut i: usize = 0;
    while i < outward_links.len()
        invariant
            i <= outward_links.len(),
            parts@.len() == i,
            forall|k: int| 0 <= k < i ==> (#[trigger] parts@[k])@ == spec_link_md(outward_links@[k]@),
        decreases outward_links.len() - i,
    {
        parts.push(link_md(&outward_links[i]));
        i = i + 1;
    }
    let mut j: usize = 0;
    while j < inward_links.len()
        invariant
            j <= inward_links.len(),
            parts@.len() == outward_links@.len() + j,
            forall|k: int| 0 <= k < outward_links@.len() ==> (#[trigger] parts@[k])@ == spec_link_md(outward_links@[k]@),
            forall|k: int| 0 <= k < j ==> (#[trigger] parts@[outward_links@.len() + k])@ == spec_link_md(inward_links@[k]@),
        decreases inward_links.len() - j,
    {
        parts.push(link_md(&inward_links[j]));
        j = j + 1;
    }
    if parts.len() == 0 {
        return to_owned("No link to other issues found");
    }
    assert forall|k: int| 0 <= k < parts@.len() implies (#[trigger] parts@[k])@ == spec_link_md(all[k]) by {
        if k < outward_links@.len() {
            assert(all[k] == outward_links@[k]@);
        } else {
            let m = k - outward_links@.len();
            assert(all[k] == inward_links@[m]@);
            assert(parts@[outward_links@.len() + m] == parts@[k]);
        }
    }
    assert(parts@.map_values(|x: String| x@) =~= all.map_values(|r: (Seq<char>, Seq<char>, Option<Seq<char>>)| spec_link_md(r)));
    join(&parts, "\n")
}

/// One comment, as HTML, its body rendered with the stored files at hand.
pub open spec fn spec_comment_html(c: (Json, Seq<char>, Seq<char>, Seq<char>), files: Seq<(String, FileData)>) -> Seq<char> {
    "<div class=\"comment\">\n  <div class=\"comment_author\">comment author: "@ + spec_escape(c.1)
        + "</div>\n  <div class=\"comment_last_edited\">last edited on: "@ + spec_escape(c.3)
        + "</div>\n  <div class=\"comment_message\">"@ + spec_root_html(c.0, files) + "</div>\n</div>"@
}

/// The comments, one after the other, as HTML; a sentence when there is none.
pub open spec fn spec_comments_html(comments: Seq<(Json, Seq<char>, Seq<char>, Seq<char>)>, files: Seq<(String, FileData)>) -> Seq<char> {
    if comments.len() == 0 {
        "no comment found"@
    } else {
        spec_join(comments.map_values(|c: (Json, Seq<char>, Seq<char>, Seq<char>)| spec_comment_html(c, files)), "\n"@)
    }
}

/// The comments, one after the other, as HTML.
pub fn format_comments_for_html(comments: &[Comment], files: &Vec<(String, FileData)>) -> (res: String)
    ensures
        res@ == spec_comments_html(spec_views(comments@), files@),
{
    let mut parts: Vec<String> = Vec::new();
    let mut i: usize = 0;
    while i < comments.len()
        invariant
            i <= comments.len(),
            parts@.len() == i,
            forall|k: int| 0 <= k < i ==> (#[trigger] parts@[k])@ == spec_comment_html(comments@[k]@, files@),
        decreases comments.len() - i,
    {
        let c = &comments[i];
        let mut part = to_owned("<div class=\"comment\">\n  <div class=\"comment_author\">comment author: ");
        part.append(escape_html(c.author.as_str()).as_str());
        part.append("</div>\n  <div class=\"comment_last_edited\">last edited on: ");
        part.append(escape_html(c.last_modification.as_str()).as_str());
        part.append("</div>\n  <div class=\"comment_message\">");
        part.append(root_elt_doc_to_html_string(c.data, files).as_str());
        part.append("</div>\n</div>");
        parts.push(part);
        i = i + 1;
    }
    if parts.len() == 0 {
        return to_owned("no comment found");
    }
    assert(parts@.map_values(|x: String| x@) =~= spec_views(comments@).map_values(
        |c: (Json, Seq<char>, Seq<char>, Seq<char>)| spec_comment_html(c, files@),
    ));
    join(&parts, "\n")
}

/// In the HTML comments section of a ticket, every comment has its block,
/// which names the comment's author (escaped) and shows, in the "last edited"
/// element, the comment's last modification time (escaped) and nothing else.
pub proof fn lemma_html_comments_show_author_and_last_edit(
    comments: Seq<(Json, Seq<char>, Seq<char>, Seq<char>)>,
    files: Seq<(String, FileData)>,
)
    requires
        comments.len() > 0,
    ensures
        forall|i: int|
            0 <= i < comments.len() ==> {
                &&& crate::text::spec_contains(
                    spec_comments_html(comments, files),
                    "<div class=\"comment\">\n  <div class=\"comment_author\">comment author: "@ + spec_escape(#[trigger] comments[i].1)
                        + "</div>\n  <div class=\"comment_last_edited\">last edited on: "@,
                )
                &&& crate::text::spec_contains(
                    spec_comments_html(comments, files),
                    "</div>\n  <div class=\"comment_last_edited\">last edited on: "@ + spec_escape(comments[i].3)
                        + "</div>\n  <div class=\"comment_message\">"@,
                )
            },
{
    let parts = comments.map_values(|c: (Json, Seq<char>, Seq<char>, Seq<char>)| spec_comment_html(c, files));
    assert forall|i: int| 0 <= i < comments.len() implies {
        &&& crate::text::spec_contains(
            spec_comments_html(comments, files),
            "<div class=\"comment\">\n  <div class=\"comment_author\">comment author: "@ + spec_escape(#[trigger] comments[i].1)
                + "</div>\n  <div class=\"comment_last_edited\">last edited on: "@,
        )
        &&& crate::text::spec_contains(
            spec_comments_html(comments, files),
            "</div>\n  <div class=\"comment_last_edited\">last edited on: "@ + spec_escape(comments[i].3)
                + "</div>\n  <div class=\"comment_message\">"@,
        )
    } by {
        let c = comments[i];
        let block = spec_comment_html(c, files);
        assert(parts[i] == block);
        crate::text::lemma_join_contains(parts, "\n"@, i);
        lemma_comment_html_block_parts(c, files);
        crate::text::lemma_contains_trans(
            spec_comments_html(comments, files),
            block,
            "<div class=\"comment\">\n  <div class=\"comment_author\">comment author: "@ + spec_escape(c.1)
                + "</div>\n  <div class=\"comment_last_edited\">last edited on: "@,
        );
        crate::text::lemma_contains_trans(
            spec_comments_html(comments, files),
            block,
            "</div>\n  <div class=\"comment_last_edited\">last edited on: "@ + spec_escape(c.3)
                + "</div>\n  <div class=\"comment_message\">"@,
        );
    }
}

/// The block of one comment holds its author line and its "last edited" line.
proof fn lemma_comment_html_block_parts(c: (Json, Seq<char>, Seq<char>, Seq<char>), files: Seq<(String, FileData)>)
    ensures
        crate::text::spec_contains(
            spec_comment_html(c, files),
            "<div class=\"comment\">\n  <div class=\"comment_author\">comment author: "@ + spec_escape(c.1)
                + "</div>\n  <div class=\"comment_last_edited\">last edited on: "@,
        ),
        crate::text::spec_contains(
            spec_comment_html(c, files),
            "</div>\n  <div class=\"comment_last_edited\">last edited on: "@ + spec_escape(c.3)
                + "</div>\n  <div class=\"comment_message\">"@,
        ),
{
    let p1 = "<div class=\"comment\">\n  <div class=\"comment_author\">comment author: "@;
    let e1 = spec_escape(c.1);
    let p2 = "</div>\n  <div class=\"comment_last_edited\">last edited on: "@;
    let e3 = spec_escape(c.3);
    let p3 = "</div>\n  <div class=\"comment_message\">"@;
    let tail = spec_root_html(c.0, files) + "</div>\n</div>"@;
    let block = spec_comment_html(c, files);
    assert(block == p1 + e1 + p2 + e3 + p3 + spec_root_html(c.0, files) + "</div>\n</div>"@);
    crate::text::lemma_contains_middle(Seq::empty(), p1 + e1 + p2, e3 + p3 + tail);
    assert(Seq::<char>::empty() + (p1 + e1 + p2) + (e3 + p3 + tail) =~= block);
    crate::text::lemma_contains_middle(p1 + e1, p2 + e3 + p3, tail);
    assert(p1 + e1 + (p2 + e3 + p3) + tail =~= block);
}

/// Every comment body of the list can be rendered as text.
pub open spec fn spec_comments_renderable(comments: Seq<(Json, Seq<char>, Seq<char>, Seq<char>)>) -> bool {
    forall|i: int| 0 <= i < comments.len() ==> (#[trigger] spec_root_md(comments[i].0)) is Some
}

/// One comment, as text.
pub open spec fn spec_comment_md(c: (Json, Seq<char>, Seq<char>, Seq<char>)) -> Seq<char> {
    "comment from: "@ + c.1 + "\nlast edited on: "@ + c.3 + "\n"@ + spec_root_md(c.0).unwrap()
}

/// The comments, separated by empty lines, as text; a sentence when there is none.
pub open spec fn spec_comments_md(comments: Seq<(Json, Seq<char>, Seq<char>, Seq<char>)>) -> Seq<char> {
    if comments.len() == 0 {
        "no comment found"@
    } else {
        spec_join(comments.map_values(|c: (Json, Seq<char>, Seq<char>, Seq<char>)| spec_comment_md(c)), "\n\n"@)
    }
}

/// The text comments section of a ticket with at least one comment is the
/// comments' blocks, in order, joined by a blank line; the block of a comment
/// gives its author, its last modification time and its rendered body. Every
/// comment's block appears in the ticket's text page.
pub proof fn lemma_markdown_comments_all_appear(
    issue_key: Seq<char>,
    system_fields: Seq<(Seq<char>, Json)>,
    inward: Seq<(Seq<char>, Seq<char>, Option<Seq<char>>)>,
    outward: Seq<(Seq<char>, Seq<char>, Option<Seq<char>>)>,
    comments: Seq<(Json, Seq<char>, Seq<char>, Seq<char>)>,
)
    requires
        comments.len() > 0,
    ensures
        exists|blocks: Seq<Seq<char>>|
            #![trigger spec_join(blocks, "\n\n"@)]
            blocks.len() == comments.len() && spec_comments_md(comments) == spec_join(blocks, "\n\n"@)
            && forall|i: int| 0 <= i < blocks.len() ==> #[trigger] blocks[i]
                == "comment from: "@ + comments[i].1 + "\nlast edited on: "@ + comments[i].3 + "\n"@ + spec_root_md(comments[i].0).unwrap(),
        forall|i: int|
            0 <= i < comments.len() ==> crate::text::spec_contains(
                spec_ticket_md(issue_key, system_fields, inward, outward, comments),
                "comment from: "@ + (#[trigger] comments[i]).1 + "\nlast edited on: "@ + comments[i].3 + "\n"@ + spec_root_md(comments[i].0).unwrap(),
            ),
{
    let blocks = comments.map_values(|c: (Json, Seq<char>, Seq<char>, Seq<char>)| spec_comment_md(c));
    assert(spec_comments_md(comments) == spec_join(blocks, "\n\n"@));
    let head = issue_key + ": "@ + spec_summary(system_fields) + "\n=========\n\nDescription:\n----\n"@
        + spec_markdown_description(system_fields) + "\n\nLinks:\n----\n"@
        + spec_links(inward, outward, |r: (Seq<char>, Seq<char>, Option<Seq<char>>)| spec_link_md(r))
        + "\n\nComments:\n-----\n"@;
    assert forall|i: int| 0 <= i < comments.len() implies crate::text::spec_contains(
        spec_ticket_md(issue_key, system_fields, inward, outward, comments),
        "comment from: "@ + (#[trigger] comments[i]).1 + "\nlast edited on: "@ + comments[i].3 + "\n"@ + spec_root_md(comments[i].0).unwrap(),
    ) by {
        assert(blocks[i] == spec_comment_md(comments[i]));
        crate::text::lemma_join_contains(blocks, "\n\n"@, i);
        crate::text::lemma_contains_extend(spec_comments_md(comments), blocks[i], head, "\n"@);
    }
}

/// The comments, separated by empty lines, as text.
pub fn format_comments_for_markdown(comments: &[Comment]) -> (res: String)
    requires
        spec_comments_renderable(spec_views(comments@)),
    ensures
        res@ == spec_comments_md(spec_views(comments@)),
{
    let mut parts: Vec<String> = Vec::new();
    let mut i: usize = 0;
    while i < comments.len()
        invariant
            i <= comments.len(),
            spec_comments_renderable(spec_views(comments@)),
            parts@.len() == i,
            forall|k: int| 0 <= k < i ==> (#[trigger] parts@[k])@ == spec_comment_md(comments@[k]@),
        decreases comments.len() - i,
    {
        let c = &comments[i];
        assert(spec_views(comments@)[i as int] == c@);
        let data = match root_elt_doc_to_string(c.data) {
            Some(d) => d,
            None => {
                assert(spec_root_md(spec_views(comments@)[i as int].0) is Some);
                String::new()
            },
        };
        let mut part = to_owned("comment from: ");
        part.append(c.author.as_str());
        part.append("\nlast edited on: ");
        part.append(c.last_modification.as_str());
        part.append("\n");
        part.append(data.as_str());
        parts.push(part);
        i = i + 1;
    }
    if parts.len() == 0 {
        return to_owned("no comment found");
    }
    assert(parts@.map_values(|x: String| x@) =~= spec_views(comments@).map_values(
        |c: (Json, Seq<char>, Seq<char>, Seq<char>)| spec_comment_md(c),
    ));
    join(&parts, "\n\n")
}


// ---------------------------------------------------------------------------
// The ticket
// ---------------------------------------------------------------------------

/// The value of the last field called `name` (the one a map from names to
/// fields keeps).
pub open spec fn spec_last_named(fields: Seq<(Seq<char>, Json)>, name: Seq<char>) -> Option<Json>
    decreases fields.len(),
{
    if fields.len() == 0 {
        None
    } else if fields.last().0 == name {
        Some(fields.last().1)
    } else {
        spec_last_named(fields.drop_last(), name)
    }
}

/// The value of the last field called `name`.
fn last_named<'a>(fields: &[Field<'a>], name: &str) -> (res: Option<&'a Json>)
    ensures
        match res {
            Some(v) => spec_last_named(spec_views(fields@), name@) == Some(*v),
            None => spec_last_named(spec_views(fields@), name@) is None,
        },
{
    let ghost fv = spec_views(fields@);
    let mut i: usize = fields.len();
    assert(fv.take(fields.len() as int) == fv);
    while i > 0
        invariant
            i <= fields.len(),
            fv == spec_views(fields@),
            spec_last_named(fv, name@) == spec_last_named(fv.take(i as int), name@),
        decreases i,
    {
        let ghost t = fv.take(i as int);
        assert(t.drop_last() == fv.take(i - 1));
        assert(t.last() == fields@[i - 1]@);
        if str_eq(fields[i - 1].name.as_str(), name) {
            return Some(fields[i - 1].value);
        }
        i = i - 1;
    }
    None
}

/// The ticket's summary: the `Summary` field when it is a string.
pub open spec fn spec_summary(fields: Seq<(Seq<char>, Json)>) -> Seq<char> {
    match spec_last_named(fields, "Summary"@) {
        Some(v) => match spec_as_str(v) {
            Some(s) => s,
            None => "no summary provided"@,
        },
        None => "no summary provided"@,
    }
}

/// The ticket's summary.
pub fn get_summary(system_fields: &[Field]) -> (res: String)
    ensures
        res@ == spec_summary(spec_views(system_fields@)),
{
    match last_named(system_fields, "Summary") {
        Some(v) => match v.as_str() {
            Some(s) => s.clone(),
            None => to_owned("no summary provided"),
        },
        None => to_owned("no summary provided"),
    }
}

/// The ticket's summary, escaped for HTML.
pub fn get_html_summary(system_fields: &[Field]) -> (res: String)
    ensures
        res@ == spec_escape(spec_summary(spec_views(system_fields@))),
{
    escape_html(get_summary(system_fields).as_str())
}

/// The ticket's description can be rendered as text.
pub open spec fn spec_description_renderable(fields: Seq<(Seq<char>, Json)>) -> bool {
    match spec_last_named(fields, "Description"@) {
        Some(v) => spec_root_md(v) is Some,
        None => true,
    }
}

/// The ticket's description as text.
pub open spec fn spec_markdown_description(fields: Seq<(Seq<char>, Json)>) -> Seq<char> {
    match spec_last_named(fields, "Description"@) {
        Some(v) => spec_root_md(v).unwrap(),
        None => "no description provided"@,
    }
}

/// The ticket's description as text.
pub fn get_markdown_description(system_fields: &[Field]) -> (res: String)
    requires
        spec_description_renderable(spec_views(system_fields@)),
    ensures
        res@ == spec_markdown_description(spec_views(system_fields@)),
{
    match last_named(system_fields, "Description") {
        Some(v) => match root_elt_doc_to_string(v) {
            Some(d) => d,
            None => String::new(),
        },
        None => to_owned("no description provided"),
    }
}

/// The ticket's description as HTML.
pub open spec fn spec_html_description(fields: Seq<(Seq<char>, Json)>, files: Seq<(String, FileData)>) -> Seq<char> {
    match spec_last_named(fields, "Description"@) {
        Some(v) => spec_root_html(v, files),
        None => "no description provided"@,
    }
}

/// The ticket's description as HTML.
pub fn get_html_description(system_fields: &[Field], files: &Vec<(String, FileData)>) -> (res: String)
    ensures
        res@ == spec_html_description(spec_views(system_fields@), files@),
{
    match last_named(system_fields, "Description") {
        Some(v) => root_elt_doc_to_html_string(v, files),
        None => to_owned("no description provided"),
    }
}

/// The ticket as an HTML page.
pub open spec fn spec_ticket_html(
    issue_key: Seq<char>,
    system_fields: Seq<(Seq<char>, Json)>,
    inward: Seq<(Seq<char>, Seq<char>, Option<Seq<char>>)>,
    outward: Seq<(Seq<char>, Seq<char>, Option<Seq<char>>)>,
    comments: Seq<(Json, Seq<char>, Seq<char>, Seq<char>)>,
    files: Seq<(String, FileData)>,
) -> Seq<char> {
    "<!DOCTYPE html>\n<html lang=\"en-GB\">\n  <head>\n    <meta charset=\"UTF-8\">\n    <title>add a build/test request</title>\n<!--    <meta http-equiv=\"Content-Security-Policy\" content=\"default-src 'unsafe-inline';\"> -->\n    <link rel=\"icon\" href=\"data:,\">\n  </head>\n  <body>\n    <h1>"@
        + issue_key + ": "@ + spec_escape(spec_summary(system_fields))
        + "</h1>\n\n    <h2>Description:</h2>\n    <div class=\"description\">\n"@
        + spec_indent(spec_html_description(system_fields, files), "      "@)
        + "\n    </div>\n\n    <h2>Links:</h2>\n    <div class=\"links\">\n"@
        + spec_indent(spec_links(inward, outward, |r: (Seq<char>, Seq<char>, Option<Seq<char>>)| spec_link_html(r)), "      "@)
        + "\n    </div>\n\n    <h2>Comments:</h2>\n    <div class=\"comments\">\n"@
        + spec_indent(spec_comments_html(comments, files), "      "@)
        + "\n    </div>\n  </body>\n</html>\n"@
}

/// The ticket as an HTML page: its key and summary, description, links and
/// comments; the stored files that the documents name at hand.
pub fn format_ticket_for_html(
    issue_key: &str,
    system_fields: &[Field],
    custom_fields: &[Field],
    inward_links: &[Relations],
    outward_links: &[Relations],
    comments: &[Comment],
    files: &Vec<(String, FileData)>,
) -> (res: Result<String, String>)
    ensures
        res matches Ok(t) && t@ == spec_ticket_html(
            issue_key@,
            spec_views(system_fields@),
            spec_views(inward_links@),
            spec_views(outward_links@),
            spec_views(comments@),
            files@,
        ),
{
    let summary = get_html_summary(system_fields);
    let description = get_html_description(system_fields, files);
    let links_str = format_links_for_html(inward_links, outward_links);
    let comments_str = format_comments_for_html(comments, files);
    let description = indent_with(description.as_str(), "      ");
    let links_str = indent_with(links_str.as_str(), "      ");
    let comments_str = indent_with(comments_str.as_str(), "      ");
    let mut res = to_owned(
        "<!DOCTYPE html>\n<html lang=\"en-GB\">\n  <head>\n    <meta charset=\"UTF-8\">\n    <title>add a build/test request</title>\n<!--    <meta http-equiv=\"Content-Security-Policy\" content=\"default-src 'unsafe-inline';\"> -->\n    <link rel=\"icon\" href=\"data:,\">\n  </head>\n  <body>\n    <h1>",
    );
    res.append(issue_key);
    res.append(": ");
    res.append(summary.as_str());
    res.append("</h1>\n\n    <h2>Description:</h2>\n    <div class=\"description\">\n");
    res.append(description.as_str());
    res.append("\n    </div>\n\n    <h2>Links:</h2>\n    <div class=\"links\">\n");
    res.append(links_str.as_str());
    res.append("\n    </div>\n\n    <h2>Comments:</h2>\n    <div class=\"comments\">\n");
    res.append(comments_str.as_str());
    res.append("\n    </div>\n  </body>\n</html>\n");
    Ok(res)
}

/// The ticket as text.
pub open spec fn spec_ticket_md(
    issue_key: Seq<char>,
    system_fields: Seq<(Seq<char>, Json)>,
    inward: Seq<(Seq<char>, Seq<char>, Option<Seq<char>>)>,
    outward: Seq<(Seq<char>, Seq<char>, Option<Seq<char>>)>,
    comments: Seq<(Json, Seq<char>, Seq<char>, Seq<char>)>,
) -> Seq<char> {
    issue_key + ": "@ + spec_summary(system_fields) + "\n=========\n\nDescription:\n----\n"@
        + spec_markdown_description(system_fields) + "\n\nLinks:\n----\n"@
        + spec_links(inward, outward, |r: (Seq<char>, Seq<char>, Option<Seq<char>>)| spec_link_md(r))
        + "\n\nComments:\n-----\n"@ + spec_comments_md(comments) + "\n"@
}

/// The ticket as text: its key and summary, description, links and comments.
pub fn format_ticket_for_markdown(
    issue_key: &str,
    system_fields: &[Field],
    custom_fields: &[Field],
    inward_links: &[Relations],
    outward_links: &[Relations],
    comments: &[Comment],
) -> (res: Result<String, String>)
    requires
        spec_description_renderable(spec_views(system_fields@)),
        spec_comments_renderable(spec_views(comments@)),
    ensures
        res matches Ok(t) && t@ == spec_ticket_md(
            issue_key@,
            spec_views(system_fields@),
            spec_views(inward_links@),
            spec_views(outward_links@),
            spec_views(comments@),
        ),
{
    let summary = get_summary(system_fields);
    let description = get_markdown_description(system_fields);
    let comments_str = format_comments_for_markdown(comments);
    let links_str = format_links_for_markdown(inward_links, outward_links);
    let mut res = to_owned(issue_key);
    res.append(": ");
    res.append(summary.as_str());
    res.append("\n=========\n\nDescription:\n----\n");
    res.append(description.as_str());
    res.append("\n\nLinks:\n----\n");
    res.append(links_str.as_str());
    res.append("\n\nComments:\n-----\n");
    res.append(comments_str.as_str());
    res.append("\n");
    Ok(res)
}

/// The ticket in the format asked for.
pub fn format_ticket(
    issue_key: &str,
    format: &output_format,
    files: &Vec<(String, FileData)>,
    outward_links: &[Relations],
    inward_links: &[Relations],
    custom_fields: &[Field],
    system_fields: &[Field],
    comments: &[Comment],
) -> (res: Result<String, String>)
    requires
        *format == output_format::MARKDOWN ==> spec_description_renderable(spec_views(system_fields@))
            && spec_comments_renderable(spec_views(comments@)),
    ensures
        res matches Ok(t) && t@ == match *format {
            output_format::MARKDOWN => spec_ticket_md(
                issue_key@,
                spec_views(system_fields@),
                spec_views(inward_links@),
                spec_views(outward_links@),
                spec_views(comments@),
            ),
            output_format::HTML => spec_ticket_html(
                issue_key@,
                spec_views(system_fields@),
                spec_views(inward_links@),
                spec_views(outward_links@),
                spec_views(comments@),
                files@,
            ),
        },
{
    match format {
        output_format::MARKDOWN => format_ticket_for_markdown(
            issue_key,
            system_fields,
            custom_fields,
            inward_links,
            outward_links,
            comments,
        ),
        output_format::HTML => format_ticket_for_html(
            issue_key,
            system_fields,
            custom_fields,
            inward_links,
            outward_links,
            comments,
            files,
        ),
    }
}

/// Whether the ticket's description can be rendered as text.
pub fn description_renders_as_text(system_fields: &[Field]) -> (res: bool)
    ensures
        res == spec_description_renderable(spec_views(system_fields@)),
{
    match last_named(system_fields, "Description") {
        Some(v) => root_elt_doc_to_string(v).is_some(),
        None => true,
    }
}

/// Whether every comment body can be rendered as text.
pub fn comments_render_as_text(comments: &[Comment]) -> (res: bool)
    ensures
        res == spec_comments_renderable(spec_views(comments@)),
{
    let mut i: usize = 0;
    while i < comments.len()
        invariant
            i <= comments.len(),
            forall|k: int| 0 <= k < i ==> (#[trigger] spec_root_md(spec_views(comments@)[k].0)) is Some,
        decreases comments.len() - i,
    {
        assert(spec_views(comments@)[i as int] == comments@[i as int]@);
        if root_elt_doc_to_string(comments[i].data).is_none() {
            assert(spec_root_md(spec_views(comments@)[i as int].0) is None);
            return false;
        }
        i = i + 1;
    }
    true
}

/// The ticket in the format asked for, or `None` when text was asked for and
/// a document of the ticket (its description or a comment) cannot be
/// rendered as text.
pub fn try_format_ticket(
    issue_key: &str,
    format: &output_format,
    files: &Vec<(String, FileData)>,
    outward_links: &[Relations],
    inward_links: &[Relations],
    custom_fields: &[Field],
    system_fields: &[Field],
    comments: &[Comment],
) -> (res: Option<Result<String, String>>)
    ensures
        match res {
            None => *format == output_format::MARKDOWN && !(spec_description_renderable(spec_views(system_fields@))
                && spec_comments_renderable(spec_views(comments@))),
            Some(r) => r matches Ok(t) && t@ == match *format {
                output_format::MARKDOWN => spec_ticket_md(
                    issue_key@,
                    spec_views(system_fields@),
                    spec_views(inward_links@),
                    spec_views(outward_links@),
                    spec_views(comments@),
                ),
                output_format::HTML => spec_ticket_html(
                    issue_key@,
                    spec_views(system_fields@),
                    spec_views(inward_links@),
                    spec_views(outward_links@),
                    spec_views(comments@),
                    files@,
                ),
            },
        },
{
    if *format == output_format::MARKDOWN && !(description_renders_as_text(system_fields) && comments_render_as_text(comments)) {
        return None;
    }
    Some(format_ticket(issue_key, format, files, outward_links, inward_links, custom_fields, system_fields, comments))
}


// ---------------------------------------------------------------------------
// The ticket as the server gives it
// ---------------------------------------------------------------------------

/// The array `fields.issuelinks` of an issue's JSON.
pub open spec fn spec_issuelinks(j: Json) -> Option<Seq<Json>> {
    match spec_opt_object(spec_get(j, "fields"@)) {
        Some(f) => spec_opt_array(spec_get(f, "issuelinks"@)),
        None => None,
    }
}

/// A link of the issue in one direction (`issue_field` is `inwardIssue` or
/// `outwardIssue`, `name_field` `inward` or `outward`): the link's name for
/// that direction, the other issue's key and summary.
pub open spec fn spec_relation_from_json(x: Json, issue_field: Seq<char>, name_field: Seq<char>) -> Option<(Seq<char>, Seq<char>, Option<Seq<char>>)> {
    if !(x.value is Object) || spec_get(x, issue_field) is None {
        None
    } else {
        let other = spec_opt_object(spec_get(x, issue_field));
        match (
            spec_opt_str(spec_opt_get_obj(spec_opt_object(spec_get(x, "type"@)), name_field)),
            spec_opt_str(spec_opt_get_obj(other, "key"@)),
        ) {
            (Some(name), Some(key)) => Some(
                (name, key, spec_opt_str(spec_opt_get_obj(spec_opt_object(spec_opt_get_obj(other, "fields"@)), "summary"@))),
            ),
            _ => None,
        }
    }
}

/// `o[key]` when `o` holds an object.
pub open spec fn spec_opt_get_obj(o: Option<Json>, key: Seq<char>) -> Option<Json> {
    match o {
        Some(j) => spec_get(j, key),
        None => None,
    }
}

/// The links of the issue in one direction, or the error without a links array.
pub open spec fn spec_relations_from_json(j: Json, issue_field: Seq<char>, name_field: Seq<char>, error: Seq<char>) -> Result<Seq<(Seq<char>, Seq<char>, Option<Seq<char>>)>, Seq<char>> {
    match spec_issuelinks(j) {
        None => Err(error),
        Some(a) => Ok(spec_filter_map(a, |x: Json| spec_relation_from_json(x, issue_field, name_field))),
    }
}

/// `o[key]` when `o` holds an object and the value is an object.
fn opt_object<'a>(o: Option<&'a Json>, key: &str) -> (res: Option<&'a Json>)
    ensures
        match res {
            Some(v) => spec_opt_object(spec_opt_get_obj(match o {
                Some(j) => Some(*j),
                None => None::<Json>,
            }, key@)) == Some(*v),
            None => spec_opt_object(spec_opt_get_obj(match o {
                Some(j) => Some(*j),
                None => None::<Json>,
            }, key@)) is None,
        },
{
    match o {
        Some(j) => crate::json::get_object(j, key),
        None => None,
    }
}

/// `o[key]` as a string, when `o` holds an object with one.
fn opt_str<'a>(o: Option<&'a Json>, key: &str) -> (res: Option<&'a String>)
    ensures
        match res {
            Some(v) => spec_opt_str(spec_opt_get_obj(match o {
                Some(j) => Some(*j),
                None => None::<Json>,
            }, key@)) == Some(v@),
            None => spec_opt_str(spec_opt_get_obj(match o {
                Some(j) => Some(*j),
                None => None::<Json>,
            }, key@)) is None,
        },
{
    match o {
        Some(j) => get_str_for_key(j, key),
        None => None,
    }
}

/// One link of the issue in one direction.
fn relation_from_json(x: &Json, issue_field: &str, name_field: &str) -> (res: Option<Relations>)
    ensures
        match res {
            Some(r) => spec_relation_from_json(*x, issue_field@, name_field@) == Some(r@),
            None => spec_relation_from_json(*x, issue_field@, name_field@) is None,
        },
{
    if !x.is_object() || x.get(issue_field).is_none() {
        return None;
    }
    let other = crate::json::get_object(x, issue_field);
    let link_name = opt_str(crate::json::get_object(x, "type"), name_field);
    let key = opt_str(other, "key");
    match (link_name, key) {
        (Some(name), Some(key)) => {
            let summary = match opt_str(opt_object(other, "fields"), "summary") {
                Some(s) => Some(s.clone()),
                None => None,
            };
            Some(Relations { link_name: name.clone(), other_issue_key: key.clone(), other_issue_summary: summary })
        },
        _ => None,
    }
}

/// The links of the issue in one direction.
fn relations_from_json(json_of_issue: &Json, issue_field: &str, name_field: &str, error: &str) -> (res: Result<Vec<Relations>, String>)
    ensures
        match res {
            Ok(v) => spec_relations_from_json(*json_of_issue, issue_field@, name_field@, error@) == Ok::<_, Seq<char>>(spec_views(v@)),
            Err(e) => spec_relations_from_json(*json_of_issue, issue_field@, name_field@, error@) == Err::<Seq<(Seq<char>, Seq<char>, Option<Seq<char>>)>, _>(e@),
        },
{
    let a = match crate::json::get_object(json_of_issue, "fields") {
        Some(f) => crate::json::get_array(f, "issuelinks"),
        None => None,
    };
    let a = match a {
        None => return Err(to_owned(error)),
        Some(a) => a,
    };
    let ghost f = |x: Json| spec_relation_from_json(x, issue_field@, name_field@);
    let mut res: Vec<Relations> = Vec::new();
    let mut i: usize = 0;
    while i < a.len()
        invariant
            i <= a.len(),
            f == (|x: Json| spec_relation_from_json(x, issue_field@, name_field@)),
            spec_views(res@) == spec_filter_map(a@.take(i as int), f),
        decreases a.len() - i,
    {
        proof { lemma_filter_map_step(a@, f, i as int); }
        if let Some(r) = relation_from_json(&a[i], issue_field, name_field) {
            let ghost before = res@;
            res.push(r);
            assert(spec_views(res@) =~= spec_views(before).push(res@.last()@));
        }
        i = i + 1;
    }
    proof { lemma_take_all(a@); }
    Ok(res)
}

/// The issues the ticket's links point to from the other side.
pub fn get_inward_links_from_json(json_of_issue: &Json) -> (res: Result<Vec<Relations>, String>)
    ensures
        match res {
            Ok(v) => spec_relations_from_json(*json_of_issue, "inwardIssue"@, "inward"@, "No issuelinks array found in json when looking for inward issues"@) == Ok::<_, Seq<char>>(spec_views(v@)),
            Err(e) => spec_relations_from_json(*json_of_issue, "inwardIssue"@, "inward"@, "No issuelinks array found in json when looking for inward issues"@) == Err::<Seq<(Seq<char>, Seq<char>, Option<Seq<char>>)>, _>(e@),
        },
{
    relations_from_json(json_of_issue, "inwardIssue", "inward", "No issuelinks array found in json when looking for inward issues")
}

/// The issues the ticket's links point to.
pub fn get_outward_links_from_json(json_of_issue: &Json) -> (res: Result<Vec<Relations>, String>)
    ensures
        match res {
            Ok(v) => spec_relations_from_json(*json_of_issue, "outwardIssue"@, "outward"@, "No issuelinks array found in json when looking for outward issues"@) == Ok::<_, Seq<char>>(spec_views(v@)),
            Err(e) => spec_relations_from_json(*json_of_issue, "outwardIssue"@, "outward"@, "No issuelinks array found in json when looking for outward issues"@) == Err::<Seq<(Seq<char>, Seq<char>, Option<Seq<char>>)>, _>(e@),
        },
{
    relations_from_json(json_of_issue, "outwardIssue", "outward", "No issuelinks array found in json when looking for outward issues")
}


/// What the local database knows of the field with id `jira_id`: its human
/// name and whether it is custom (the last entry with that id).
pub open spec fn spec_field_metadata(fields_in_db: Seq<(Seq<char>, Seq<char>, Seq<char>, Seq<char>, bool)>, jira_id: Seq<char>) -> Option<(Seq<char>, bool)>
    decreases fields_in_db.len(),
{
    if fields_in_db.len() == 0 {
        None
    } else if fields_in_db.last().0 == jira_id {
        Some((fields_in_db.last().2, fields_in_db.last().4))
    } else {
        spec_field_metadata(fields_in_db.drop_last(), jira_id)
    }
}

/// What the local database knows of a field.
fn field_metadata<'b>(fields_in_db: &'b [crate::manage_field_table::Field], jira_id: &str) -> (res: Option<(&'b String, bool)>)
    ensures
        match res {
            Some((name, custom)) => spec_field_metadata(spec_views(fields_in_db@), jira_id@) == Some((name@, custom)),
            None => spec_field_metadata(spec_views(fields_in_db@), jira_id@) is None,
        },
{
    let ghost fv = spec_views(fields_in_db@);
    let mut i: usize = fields_in_db.len();
    assert(fv.take(fields_in_db.len() as int) == fv);
    while i > 0
        invariant
            i <= fields_in_db.len(),
            fv == spec_views(fields_in_db@),
            spec_field_metadata(fv, jira_id@) == spec_field_metadata(fv.take(i as int), jira_id@),
        decreases i,
    {
        let ghost t = fv.take(i as int);
        assert(t.drop_last() == fv.take(i - 1));
        assert(t.last() == fields_in_db@[i - 1]@);
        if str_eq(fields_in_db[i - 1].jira_id.as_str(), jira_id) {
            return Some((&fields_in_db[i - 1].human_name, fields_in_db[i - 1].is_custom));
        }
        i = i - 1;
    }
    None
}

/// The ticket's fields, split between custom and system ones.
pub struct CustomAndSystemFields<'a> {
    pub custom_fields: Vec<Field<'a>>,
    pub system_fields: Vec<Field<'a>>,
}

/// A non-null field of the ticket, under its human name, with whether it is
/// custom; nothing for a field the database does not know.
pub open spec fn spec_known_field(e: (String, Json), fields_in_db: Seq<(Seq<char>, Seq<char>, Seq<char>, Seq<char>, bool)>) -> Option<((Seq<char>, Json), bool)> {
    if e.1.value is Null {
        None
    } else {
        match spec_field_metadata(fields_in_db, e.0@) {
            Some((name, custom)) => Some(((name, e.1), custom)),
            None => None,
        }
    }
}

/// The ticket's known non-null fields of one kind (custom or not).
pub open spec fn spec_fields_of_kind(entries: Seq<(String, Json)>, fields_in_db: Seq<(Seq<char>, Seq<char>, Seq<char>, Seq<char>, bool)>, custom: bool) -> Seq<(Seq<char>, Json)> {
    spec_filter_map(entries, |e: (String, Json)| match spec_known_field(e, fields_in_db) {
        Some((f, c)) => if c == custom { Some(f) } else { None },
        None => None,
    })
}

/// The entries of `fields` of an issue's JSON.
pub open spec fn spec_field_entries(j: Json) -> Option<Seq<(String, Json)>> {
    match spec_opt_object(spec_get(j, "fields"@)) {
        Some(f) => match f.value {
            JsonValue::Object(m) => Some(m.entries@),
            _ => None,
        },
        None => None,
    }
}

/// The ticket's known non-null fields, custom ones and system ones, under
/// their human names.
pub fn get_fields_from_json<'a>(json_of_issue: &'a Json, fields_in_db: &[crate::manage_field_table::Field]) -> (res: Result<CustomAndSystemFields<'a>, String>)
    ensures
        match res {
            Ok(f) => spec_field_entries(*json_of_issue) matches Some(entries) && spec_views(f.custom_fields@)
                == spec_fields_of_kind(entries, spec_views(fields_in_db@), true) && spec_views(f.system_fields@)
                == spec_fields_of_kind(entries, spec_views(fields_in_db@), false),
            Err(e) => spec_field_entries(*json_of_issue) is None && e@
                == "No fields array found in json when looking for fields in json of an issue"@,
        },
{
    let fields = match crate::json::get_object(json_of_issue, "fields") {
        None => return Err(to_owned("No fields array found in json when looking for fields in json of an issue")),
        Some(f) => f,
    };
    let m = match &fields.value {
        JsonValue::Object(m) => m,
        _ => return Err(to_owned("No fields array found in json when looking for fields in json of an issue")),
    };
    let ghost dv = spec_views(fields_in_db@);
    let ghost fc = |e: (String, Json)| match spec_known_field(e, dv) {
        Some((f, c)) => if c == true { Some(f) } else { None },
        None => None,
    };
    let ghost fs = |e: (String, Json)| match spec_known_field(e, dv) {
        Some((f, c)) => if c == false { Some(f) } else { None },
        None => None,
    };
    let mut custom_fields: Vec<Field<'a>> = Vec::new();
    let mut system_fields: Vec<Field<'a>> = Vec::new();
    let mut i: usize = 0;
    while i < m.entries.len()
        invariant
            i <= m.entries.len(),
            dv == spec_views(fields_in_db@),
            fc == (|e: (String, Json)| match spec_known_field(e, dv) {
                Some((f, c)) => if c == true { Some(f) } else { None },
                None => None,
            }),
            fs == (|e: (String, Json)| match spec_known_field(e, dv) {
                Some((f, c)) => if c == false { Some(f) } else { None },
                None => None,
            }),
            spec_views(custom_fields@) == spec_filter_map(m.entries@.take(i as int), fc),
            spec_views(system_fields@) == spec_filter_map(m.entries@.take(i as int), fs),
        decreases m.entries.len() - i,
    {
        proof {
            lemma_filter_map_step(m.entries@, fc, i as int);
            lemma_filter_map_step(m.entries@, fs, i as int);
        }
        let entry = &m.entries[i];
        if !entry.1.is_null() {
            if let Some((human_name, is_custom)) = field_metadata(fields_in_db, entry.0.as_str()) {
                let field = Field { name: human_name.clone(), value: &entry.1 };
                if is_custom {
                    let ghost before = custom_fields@;
                    custom_fields.push(field);
                    assert(spec_views(custom_fields@) =~= spec_views(before).push(custom_fields@.last()@));
                } else {
                    let ghost before = system_fields@;
                    system_fields.push(field);
                    assert(spec_views(system_fields@) =~= spec_views(before).push(system_fields@.last()@));
                }
            }
        }
        i = i + 1;
    }
    proof { lemma_take_all(m.entries@); }
    Ok(CustomAndSystemFields { custom_fields, system_fields })
}

/// The array `fields.comment.comments` of an issue's JSON.
pub open spec fn spec_comment_list(j: Json) -> Option<Seq<Json>> {
    match spec_opt_object(spec_get(j, "fields"@)) {
        Some(f) => match spec_opt_object(spec_get(f, "comment"@)) {
            Some(c) => spec_opt_array(spec_get(c, "comments"@)),
            None => None,
        },
        None => None,
    }
}

/// A comment of the list: its body (an object), author's display name,
/// creation and update times.
pub open spec fn spec_ticket_comment(x: Json) -> Option<(Json, Seq<char>, Seq<char>, Seq<char>)> {
    match (
        spec_opt_object(spec_get(x, "body"@)),
        spec_opt_str(spec_opt_get_obj(spec_opt_object(spec_get(x, "author"@)), "displayName"@)),
        spec_opt_str(spec_get(x, "created"@)),
        spec_opt_str(spec_get(x, "updated"@)),
    ) {
        (Some(body), Some(author), Some(created), Some(updated)) => Some((body, author, created, updated)),
        _ => None,
    }
}

/// The ticket's comments; an error when there is no comment list, when an
/// element is not an object, or when a comment lacks a part.
pub open spec fn spec_ticket_comments(j: Json) -> Result<Seq<(Json, Seq<char>, Seq<char>, Seq<char>)>, Seq<char>> {
    match spec_comment_list(j) {
        None => Err("couldn't get the comments from the returned json"@),
        Some(a) => if !(forall|i: int| 0 <= i < a.len() ==> (#[trigger] a[i]).value is Object) {
            Err("Some data in comments section are not objects"@)
        } else if !(forall|i: int| 0 <= i < a.len() ==> (#[trigger] spec_ticket_comment(a[i])) is Some) {
            Err("failed to extract some of the comments in the data section"@)
        } else {
            Ok(Seq::new(a.len(), |i: int| spec_ticket_comment(a[i]).unwrap()))
        },
    }
}

/// The ticket's comments are those of its comment list, in order, each with
/// the author's display name, its `created` time as creation time and its
/// `updated` time as last modification time.
pub proof fn lemma_ticket_comments_keep_times(j: Json)
    requires
        spec_ticket_comments(j) is Ok,
    ensures
        ({
            let list = spec_comment_list(j).unwrap();
            let cs = spec_ticket_comments(j)->Ok_0;
            &&& cs.len() == list.len()
            &&& forall|i: int| 0 <= i < cs.len() ==> {
                &&& (#[trigger] cs[i]).0 == spec_opt_object(spec_get(list[i], "body"@)).unwrap()
                &&& cs[i].1 == spec_opt_str(spec_opt_get_obj(spec_opt_object(spec_get(list[i], "author"@)), "displayName"@)).unwrap()
                &&& cs[i].2 == spec_opt_str(spec_get(list[i], "created"@)).unwrap()
                &&& cs[i].3 == spec_opt_str(spec_get(list[i], "updated"@)).unwrap()
            }
        }),
{
    let list = spec_comment_list(j).unwrap();
    assert forall|i: int| 0 <= i < list.len() implies #[trigger] spec_ticket_comment(list[i]) is Some by {}
}

/// The ticket's comments, as the server gives them.
#[verifier::loop_isolation(false)]
pub fn get_comments_from_json<'a>(json_of_issue: &'a Json) -> (res: Result<Vec<Comment<'a>>, String>)
    ensures
        match res {
            Ok(v) => spec_ticket_comments(*json_of_issue) == Ok::<_, Seq<char>>(spec_views(v@)),
            Err(e) => spec_ticket_comments(*json_of_issue) == Err::<Seq<(Json, Seq<char>, Seq<char>, Seq<char>)>, _>(e@),
        },
{
    let a = match crate::json::get_object(json_of_issue, "fields") {
        Some(f) => match crate::json::get_object(f, "comment") {
            Some(c) => crate::json::get_array(c, "comments"),
            None => None,
        },
        None => None,
    };
    let a = match a {
        None => return Err(to_owned("couldn't get the comments from the returned json")),
        Some(a) => a,
    };
    assert(spec_comment_list(*json_of_issue) == Some(a@));
    let mut k: usize = 0;
    while k < a.len()
        invariant
            k <= a.len(),
            forall|m: int| 0 <= m < k ==> (#[trigger] a@[m]).value is Object,
        decreases a.len() - k,
    {
        if !a[k].is_object() {
            assert(!(a@[k as int].value is Object));
            return Err(to_owned("Some data in comments section are not objects"));
        }
        k = k + 1;
    }
    let mut res: Vec<Comment<'a>> = Vec::new();
    let mut i: usize = 0;
    while i < a.len()
        invariant
            i <= a.len(),
            res@.len() == i,
            forall|m: int| 0 <= m < i ==> spec_ticket_comment(#[trigger] a@[m]) == Some(res@[m]@),
        decreases a.len() - i,
    {
        let x = &a[i];
        let body = crate::json::get_object(x, "body");
        let author = opt_str(crate::json::get_object(x, "author"), "displayName");
        let created = get_str_for_key(x, "created");
        let updated = get_str_for_key(x, "updated");
        match (body, author, created, updated) {
            (Some(body), Some(author), Some(created), Some(updated)) => {
                res.push(
                    Comment {
                        data: body,
                        author: author.clone(),
                        creation_time: created.clone(),
                        last_modification: updated.clone(),
                    },
                );
            },
            _ => {
                assert(spec_ticket_comment(a@[i as int]) is None);
                return Err(to_owned("failed to extract some of the comments in the data section"));
            },
        }
        i = i + 1;
    }
    assert(spec_views(res@) =~= Seq::new(a@.len(), |m: int| spec_ticket_comment(a@[m]).unwrap()));
    Ok(res)
}


// ---------------------------------------------------------------------------
// Serving a FETCH_TICKET request
// ---------------------------------------------------------------------------

/// A ticket built from the server's JSON can be rendered as text: its
/// description and its comments.
pub open spec fn spec_remote_ticket_renderable(j: Json, fields_in_db: Seq<(Seq<char>, Seq<char>, Seq<char>, Seq<char>, bool)>) -> bool {
    &&& match spec_field_entries(j) {
        Some(entries) => spec_description_renderable(spec_fields_of_kind(entries, fields_in_db, false)),
        None => true,
    }
    &&& match spec_ticket_comments(j) {
        Ok(c) => spec_comments_renderable(c),
        Err(_) => true,
    }
}

/// The ticket built from the server's JSON, in the format asked for.
pub open spec fn spec_ticket_from_remote(
    format: output_format,
    issue_key: Seq<char>,
    j: Json,
    fields_in_db: Seq<(Seq<char>, Seq<char>, Seq<char>, Seq<char>, bool)>,
    files: Seq<(String, FileData)>,
) -> Result<Seq<char>, Seq<char>> {
    match spec_relations_from_json(j, "outwardIssue"@, "outward"@, "No issuelinks array found in json when looking for outward issues"@) {
        Err(e) => Err(e),
        Ok(outward) => match spec_relations_from_json(j, "inwardIssue"@, "inward"@, "No issuelinks array found in json when looking for inward issues"@) {
            Err(e) => Err(e),
            Ok(inward) => match spec_field_entries(j) {
                None => Err(
                    "Error retrieving custom fields of ticket "@ + issue_key + ": "@ + spec_debug_str(
                        "No fields array found in json when looking for fields in json of an issue"@,
                    ),
                ),
                Some(entries) => match spec_ticket_comments(j) {
                    Err(e) => Err("Error retrieving custom fields of ticket "@ + issue_key + ": "@ + spec_debug_str(e)),
                    Ok(comments) => {
                        let system = spec_fields_of_kind(entries, fields_in_db, false);
                        Ok(
                            match format {
                                output_format::MARKDOWN => spec_ticket_md(issue_key, system, inward, outward, comments),
                                output_format::HTML => spec_ticket_html(issue_key, system, inward, outward, comments, files),
                            },
                        )
                    },
                },
            },
        },
    }
}

/// The ticket built from the server's JSON of the issue, in the format
/// asked for; the local database's list of fields gives the fields' human
/// names and kinds, and the stored files are at hand for the documents.
pub fn ticket_from_remote_json(
    format: &output_format,
    issue_key: &str,
    json_of_issue: &Json,
    fields_in_db: &[crate::manage_field_table::Field],
    files: &Vec<(String, FileData)>,
) -> (res: Result<String, String>)
    requires
        *format == output_format::MARKDOWN ==> spec_remote_ticket_renderable(*json_of_issue, spec_views(fields_in_db@)),
    ensures
        match res {
            Ok(t) => spec_ticket_from_remote(*format, issue_key@, *json_of_issue, spec_views(fields_in_db@), files@) == Ok::<_, Seq<char>>(t@),
            Err(e) => spec_ticket_from_remote(*format, issue_key@, *json_of_issue, spec_views(fields_in_db@), files@) == Err::<Seq<char>, _>(e@),
        },
{
    let outward_links = match get_outward_links_from_json(json_of_issue) {
        Ok(v) => v,
        Err(e) => return Err(e),
    };
    let inward_links = match get_inward_links_from_json(json_of_issue) {
        Ok(v) => v,
        Err(e) => return Err(e),
    };
    let fields = match get_fields_from_json(json_of_issue, fields_in_db) {
        Ok(v) => v,
        Err(e) => {
            let mut msg = to_owned("Error retrieving custom fields of ticket ");
            msg.append(issue_key);
            msg.append(": ");
            msg.append(debug_str(e.as_str()).as_str());
            return Err(msg);
        },
    };
    let comments = match get_comments_from_json(json_of_issue) {
        Ok(v) => v,
        Err(e) => {
            let mut msg = to_owned("Error retrieving custom fields of ticket ");
            msg.append(issue_key);
            msg.append(": ");
            msg.append(debug_str(e.as_str()).as_str());
            return Err(msg);
        },
    };
    format_ticket(
        issue_key,
        format,
        files,
        outward_links.as_slice(),
        inward_links.as_slice(),
        fields.custom_fields.as_slice(),
        fields.system_fields.as_slice(),
        comments.as_slice(),
    )
}

/// Whether a ticket built from the server's JSON can be rendered as text.
pub fn remote_ticket_renders_as_text(json_of_issue: &Json, fields_in_db: &[crate::manage_field_table::Field]) -> (res: bool)
    ensures
        res == spec_remote_ticket_renderable(*json_of_issue, spec_views(fields_in_db@)),
{
    let description_ok = match get_fields_from_json(json_of_issue, fields_in_db) {
        Ok(f) => description_renders_as_text(f.system_fields.as_slice()),
        Err(_) => true,
    };
    let comments_ok = match get_comments_from_json(json_of_issue) {
        Ok(c) => comments_render_as_text(c.as_slice()),
        Err(_) => true,
    };
    description_ok && comments_ok
}

/// The ticket built from the server's JSON, or `None` when text was asked for
/// and its description or a comment cannot be rendered as text.
pub fn try_ticket_from_remote_json(
    format: &output_format,
    issue_key: &str,
    json_of_issue: &Json,
    fields_in_db: &[crate::manage_field_table::Field],
    files: &Vec<(String, FileData)>,
) -> (res: Option<Result<String, String>>)
    ensures
        match res {
            None => *format == output_format::MARKDOWN && !spec_remote_ticket_renderable(*json_of_issue, spec_views(fields_in_db@)),
            Some(Ok(t)) => spec_ticket_from_remote(*format, issue_key@, *json_of_issue, spec_views(fields_in_db@), files@) == Ok::<_, Seq<char>>(t@),
            Some(Err(e)) => spec_ticket_from_remote(*format, issue_key@, *json_of_issue, spec_views(fields_in_db@), files@) == Err::<Seq<char>, _>(e@),
        },
{
    if *format == output_format::MARKDOWN && !remote_ticket_renders_as_text(json_of_issue, fields_in_db) {
        return None;
    }
    Some(ticket_from_remote_json(format, issue_key, json_of_issue, fields_in_db, files))
}

/// The ticket's key and the format asked for, or the reply refusing the
/// parameters.
pub fn fetch_ticket_params(request_id: &str, params: &str) -> (res: Result<(String, output_format), Reply>)
    ensures
        match res {
            Ok((key, format)) => spec_split(params@, ',').len() == 2 && key@ == spec_split(params@, ',')[0]
                && output_format::try_new_spec(spec_split(params@, ',')[1]) == Some(format),
            Err(r) => (spec_split(params@, ',').len() != 2 && r.0@ == spec_param_count_error(
                request_id@,
                "FETCH_TICKET needs two parameters separated by commas"@,
                spec_split(params@, ',').len(),
                params@,
            )) || (spec_split(params@, ',').len() == 2 && output_format::try_new_spec(spec_split(params@, ',')[1])
                is None && r.0@ == request_id@ + " ERROR "@ + "failed to find a suitable format. Err: "@
                + "Unknown format for ticket output. Supported: MARKDOWN and HTML. Requested: "@ + spec_split(
                params@,
                ',',
            )[1] + "\n"@),
        },
{
    let parts = match split_params(request_id, params, 2, "FETCH_TICKET needs two parameters separated by commas") {
        Ok(p) => p,
        Err(r) => return Err(r),
    };
    assert(parts@[0]@ == spec_split(params@, ',')[0] && parts@[1]@ == spec_split(params@, ',')[1]);
    match output_format::try_new(parts[1].as_str()) {
        Ok(format) => Ok((parts[0].clone(), format)),
        Err(e) => {
            let mut msg = to_owned("failed to find a suitable format. Err: ");
            msg.append(e.as_str());
            Err(error_reply(request_id, msg.as_str()))
        },
    }
}

impl output_format {
    /// The format a name stands for.
    pub open spec fn try_new_spec(format: Seq<char>) -> Option<output_format> {
        if format == "MARKDOWN"@ {
            Some(output_format::MARKDOWN)
        } else if format == "HTML"@ {
            Some(output_format::HTML)
        } else {
            None
        }
    }
}

/// The reply carrying a rendered ticket: its base64 encoding, or nothing
/// for an empty ticket.
pub open spec fn spec_ticket_result(request_id: Seq<char>, data: Seq<char>) -> Seq<char> {
    if data.len() == 0 {
        request_id + " RESULT\n"@
    } else {
        request_id + " RESULT "@ + spec_base64(vstd::utf8::encode_utf8(data)) + "\n"@
    }
}

/// The reply to send for the ticket as the local database holds it.
pub fn stored_ticket_reply(request_id: &str, stored: &Result<String, String>) -> (res: Reply)
    ensures
        res.0@ == match stored {
            Ok(d) => spec_ticket_result(request_id@, d@),
            Err(e) => request_id@ + " ERROR "@ + e@ + "\n"@,
        },
{
    match stored {
        Ok(d) => if d.as_str().is_empty() {
            let mut s = to_owned(request_id);
            s.append(" RESULT\n");
            Reply(s)
        } else {
            result_reply(request_id, base64_of_str(d.as_str()).as_str())
        },
        Err(e) => error_reply(request_id, e.as_str()),
    }
}

/// The reply to send once the ticket has been rendered from the server's
/// data: nothing when it did not change, the new ticket otherwise, or the
/// error that prevented getting it.
pub fn newer_ticket_reply(request_id: &str, newest: &Result<String, String>, stored: &Result<String, String>) -> (res: Option<Reply>)
    ensures
        match newest {
            Ok(n) => match stored {
                Ok(o) => if n@ == o@ {
                    res is None
                } else {
                    res matches Some(r) && r.0@ == spec_ticket_result(request_id@, n@)
                },
                Err(_) => res matches Some(r) && r.0@ == spec_ticket_result(request_id@, n@),
            },
            Err(e) => res matches Some(r) && r.0@ == request_id@ + " ERROR "@
                + "failed to get data from remote to see if local data is up to date or note: Err "@
                + spec_debug_str(e@) + "\n"@,
        },
{
    match newest {
        Ok(n) => {
            if let Ok(o) = stored {
                if str_eq(n.as_str(), o.as_str()) {
                    return None;
                }
            }
            Some(stored_ticket_reply(request_id, &Ok(n.clone())))
        },
        Err(e) => {
            let mut msg = to_owned("failed to get data from remote to see if local data is up to date or note: Err ");
            msg.append(debug_str(e.as_str()).as_str());
            Some(error_reply(request_id, msg.as_str()))
        },
    }
}

} // verus!
