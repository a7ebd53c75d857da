use vstd::prelude::*;
use vstd::string::StringSliceAdditionalSpecFns;

use crate::json::{
    spec_as_str, spec_get, spec_opt_str, Json, JsonValue,
};
use crate::text::to_owned;

verus! {

/// Where a rendered piece stands in a document; it decides the separator
/// put between two consecutive pieces.
#[derive(Copy, Clone, Debug, PartialEq, Eq, Structural)]
pub enum NodeLevel {
    TopLevel,
    ChildNode,
    Inline,
}

/// A rendered piece of a document and its level.
pub struct StringWithNodeLevel {
    pub text: String,
    pub node_level: NodeLevel,
}

/// The mathematical counterpart of [`StringWithNodeLevel`].
pub struct SnlView {
    pub text: Seq<char>,
    pub level: NodeLevel,
}

impl View for StringWithNodeLevel {
    type V = SnlView;

    open spec fn view(&self) -> SnlView {
        SnlView { text: self.text@, level: self.node_level }
    }
}

/// Text at inline level.
pub open spec fn spec_inline(s: Seq<char>) -> SnlView {
    SnlView { text: s, level: NodeLevel::Inline }
}

/// Text at top level.
pub open spec fn spec_top(s: Seq<char>) -> SnlView {
    SnlView { text: s, level: NodeLevel::TopLevel }
}

/// Wraps text as an inline piece.
pub fn to_inline(content: String) -> (res: StringWithNodeLevel)
    ensures
        res@ == spec_inline(content@),
{
    StringWithNodeLevel { text: content, node_level: NodeLevel::Inline }
}

/// Wraps text as a top-level piece.
pub fn to_top_level(content: String) -> (res: StringWithNodeLevel)
    ensures
        res@ == spec_top(content@),
{
    StringWithNodeLevel { text: content, node_level: NodeLevel::TopLevel }
}

// ---------------------------------------------------------------------------
// Marks of text nodes
// ---------------------------------------------------------------------------

/// The attributes of a link mark.
#[allow(non_snake_case)]
pub struct LinkAttrs {
    pub collection: Option<String>,
    pub href: String,
    pub id: Option<String>,
    pub occurrenceKey: Option<String>,
    pub title: Option<String>,
}

/// A decoration applied to a text node.
pub enum MarkKind {
    BackgroundColour(String),
    Code,
    Emphasis,
    Link(LinkAttrs),
    Strike,
    Strong,
    Superscript,
    SubScript,
    TextColour(String),
    Underline,
}

/// The mathematical counterpart of [`LinkAttrs`].
pub struct LinkView {
    pub collection: Option<Seq<char>>,
    pub href: Seq<char>,
    pub id: Option<Seq<char>>,
    pub occurrence_key: Option<Seq<char>>,
    pub title: Option<Seq<char>>,
}

/// The mathematical counterpart of [`MarkKind`].
pub enum MarkView {
    BackgroundColour(Seq<char>),
    Code,
    Emphasis,
    Link(LinkView),
    Strike,
    Strong,
    Superscript,
    SubScript,
    TextColour(Seq<char>),
    Underline,
}

pub open spec fn spec_opt_string(o: Option<String>) -> Option<Seq<char>> {
    match o {
        Some(s) => Some(s@),
        None => None,
    }
}

impl View for MarkKind {
    type V = MarkView;

    open spec fn view(&self) -> MarkView {
        match self {
            MarkKind::BackgroundColour(c) => MarkView::BackgroundColour(c@),
            MarkKind::Code => MarkView::Code,
            MarkKind::Emphasis => MarkView::Emphasis,
            MarkKind::Link(l) => MarkView::Link(
                LinkView {
                    collection: spec_opt_string(l.collection),
                    href: l.href@,
                    id: spec_opt_string(l.id),
                    occurrence_key: spec_opt_string(l.occurrenceKey),
                    title: spec_opt_string(l.title),
                },
            ),
            MarkKind::Strike => MarkView::Strike,
            MarkKind::Strong => MarkView::Strong,
            MarkKind::Superscript => MarkView::Superscript,
            MarkKind::SubScript => MarkView::SubScript,
            MarkKind::TextColour(c) => MarkView::TextColour(c@),
            MarkKind::Underline => MarkView::Underline,
        }
    }
}

/// An ASCII hexadecimal digit.
pub open spec fn spec_is_hex_byte(b: u8) -> bool {
    (48 <= b <= 57) || (65 <= b <= 70) || (97 <= b <= 102)
}

/// The HTML colour `#rrggbb` of a colour mark, or why the mark is invalid.
pub open spec fn spec_html_colour_from_mark(mark: Json) -> Result<Seq<char>, Seq<char>> {
    match spec_get(mark, "attrs"@) {
        None => Err("Error: colour mark does not have an attrs array"@),
        Some(attrs) => if !(attrs.value is Object) {
            Err("Error: colour mark attrs attribute is not a json object."@)
        } else {
            match spec_get(attrs, "color"@) {
                None => Err("Error: colour mark attrs attribute does not contain a href element"@),
                Some(colour) => match spec_as_str(colour) {
                    None => Err("Error: colour mark element is not a string"@),
                    Some(c) => {
                        let b = vstd::utf8::encode_utf8(c);
                        if b.len() != 7 {
                            Err("Error: colour attribute is not an html hexadecimal colour (wrong length)"@)
                        } else if b[0] != 35 {
                            Err("Error: colour attribute is not an html hexadecimal colour (doesn't starts by #)"@)
                        } else if exists|i: int| 1 <= i <= 6 && !spec_is_hex_byte(#[trigger] b[i]) {
                            Err("Error: colour attribute is not an html hexadecimal colour (not hexa value)"@)
                        } else {
                            Ok(c)
                        }
                    },
                },
            }
        },
    }
}

/// A link mark's attributes, or why the mark is invalid.
pub open spec fn spec_link_mark(mark: Json) -> Result<MarkView, Seq<char>> {
    match spec_get(mark, "attrs"@) {
        None => Err("Error: link mark does not have an attrs array"@),
        Some(attrs) => if !(attrs.value is Object) {
            Err("Error: link mark attrs attribute is not a json object."@)
        } else {
            match spec_get(attrs, "href"@) {
                None => Err("Error: link mark attrs attribute does not contain a href element"@),
                Some(href) => match spec_as_str(href) {
                    None => Err("Error: link mark href element is not a string"@),
                    Some(h) => Ok(
                        MarkView::Link(
                            LinkView {
                                collection: spec_opt_str(spec_get(attrs, "collection"@)),
                                href: h,
                                id: spec_opt_str(spec_get(attrs, "id"@)),
                                occurrence_key: spec_opt_str(spec_get(attrs, "occurrenceKey"@)),
                                title: spec_opt_str(spec_get(attrs, "title"@)),
                            },
                        ),
                    ),
                },
            }
        },
    }
}

/// A subscript or superscript mark, or why the mark is invalid.
pub open spec fn spec_sub_sup_mark(mark: Json) -> Result<MarkView, Seq<char>> {
    match spec_get(mark, "attrs"@) {
        None => Err("Error: subsup mark does not have an attrs array"@),
        Some(attrs) => if !(attrs.value is Object) {
            Err("Error: subsup mark attrs attribute is not a json object."@)
        } else {
            match spec_get(attrs, "subsup"@) {
                None => Err("Error: subsup mark attrs attribute does not contain a subsup element"@),
                Some(v) => match spec_as_str(v) {
                    None => Err("Error: subsup mark element is not a string"@),
                    Some(s) => if s == "sub"@ {
                        Ok(MarkView::SubScript)
                    } else if s == "sup"@ {
                        Ok(MarkView::Superscript)
                    } else {
                        Err("Error subsup value is neither sub nor sup"@)
                    },
                },
            }
        },
    }
}

/// The decoration a mark stands for, or why it is invalid.
pub open spec fn spec_mark_kind(mark: Json) -> Result<MarkView, Seq<char>> {
    if !(mark.value is Object) {
        Err("Invalid mark. Expecting json object"@)
    } else {
        match spec_get(mark, "type"@) {
            None => Err("Invalid mark kind. Object doesn't have a type"@),
            Some(t) => match spec_as_str(t) {
                None => Err("Invalid mark kind. Type isn't a string"@),
                Some(kind) => if kind == "backgroundColor"@ {
                    match spec_html_colour_from_mark(mark) {
                        Ok(c) => Ok(MarkView::BackgroundColour(c)),
                        Err(e) => Err(e),
                    }
                } else if kind == "code"@ {
                    Ok(MarkView::Code)
                } else if kind == "em"@ {
                    Ok(MarkView::Emphasis)
                } else if kind == "link"@ {
                    spec_link_mark(mark)
                } else if kind == "strike"@ {
                    Ok(MarkView::Strike)
                } else if kind == "strong"@ {
                    Ok(MarkView::Strong)
                } else if kind == "subsup"@ {
                    spec_sub_sup_mark(mark)
                } else if kind == "textColor"@ {
                    match spec_html_colour_from_mark(mark) {
                        Ok(c) => Ok(MarkView::TextColour(c)),
                        Err(e) => Err(e),
                    }
                } else if kind == "underline"@ {
                    Ok(MarkView::Underline)
                } else {
                    Err("Unknown kind of mark. Got "@ + kind)
                },
            },
        }
    }
}

fn error(msg: &str) -> (res: Result<String, String>)
    ensures
        res matches Err(e) && e@ == msg@,
{
    Err(to_owned(msg))
}

fn mark_error(msg: &str) -> (res: Result<MarkKind, String>)
    ensures
        res matches Err(e) && e@ == msg@,
{
    Err(to_owned(msg))
}

/// Whether `b` is an ASCII hexadecimal digit (`u8::is_ascii_hexdigit`).
fn is_ascii_hexdigit(b: u8) -> (res: bool)
    ensures
        res == spec_is_hex_byte(b),
{
    (48 <= b && b <= 57) || (65 <= b && b <= 70) || (97 <= b && b <= 102)
}

/// The HTML colour of a colour mark (`#` and six hexadecimal digits).
#[verifier::loop_isolation(false)]
pub fn get_html_colour_from_mark(colour_kind: &Json) -> (res: Result<String, String>)
    ensures
        match res {
            Ok(c) => spec_html_colour_from_mark(*colour_kind) == Ok::<Seq<char>, Seq<char>>(c@),
            Err(e) => spec_html_colour_from_mark(*colour_kind) == Err::<Seq<char>, Seq<char>>(e@),
        },
{
    let attrs = match colour_kind.get("attrs") {
        None => return error("Error: colour mark does not have an attrs array"),
        Some(a) => a,
    };
    if !attrs.is_object() {
        return error("Error: colour mark attrs attribute is not a json object.");
    }
    let colour = match attrs.get("color") {
        None => return error("Error: colour mark attrs attribute does not contain a href element"),
        Some(c) => c,
    };
    let colour = match colour.as_str() {
        None => return error("Error: colour mark element is not a string"),
        Some(c) => c,
    };
    let chars = colour.as_str().as_bytes();
    if chars.len() != 7 {
        return error("Error: colour attribute is not an html hexadecimal colour (wrong length)");
    }
    if chars[0] != 35u8 {
        return error("Error: colour attribute is not an html hexadecimal colour (doesn't starts by #)");
    }
    let mut i: usize = 1;
    while i <= 6
        invariant
            1 <= i <= 7,
            chars@ == vstd::utf8::encode_utf8(colour@),
            chars@.len() == 7,
            forall|k: int| 1 <= k < i ==> spec_is_hex_byte(#[trigger] chars@[k]),
        decreases 7 - i,
    {
        if !is_ascii_hexdigit(chars[i]) {
            assert(!spec_is_hex_byte(vstd::utf8::encode_utf8(colour@)[i as int]));
            return error("Error: colour attribute is not an html hexadecimal colour (not hexa value)");
        }
        i = i + 1;
    }
    Ok(colour.clone())
}

/// A background colour mark.
pub fn get_background_colour_mark_kind(colour_kind: &Json) -> (res: Result<MarkKind, String>)
    ensures
        match res {
            Ok(k) => (match spec_html_colour_from_mark(*colour_kind) {
                Ok(c) => k@ == MarkView::BackgroundColour(c),
                Err(_) => false,
            }),
            Err(e) => spec_html_colour_from_mark(*colour_kind) == Err::<Seq<char>, Seq<char>>(e@),
        },
{
    match get_html_colour_from_mark(colour_kind) {
        Ok(s) => Ok(MarkKind::BackgroundColour(s)),
        Err(e) => Err(e),
    }
}

/// A text colour mark.
pub fn get_text_colour_mark_kind(colour_kind: &Json) -> (res: Result<MarkKind, String>)
    ensures
        match res {
            Ok(k) => (match spec_html_colour_from_mark(*colour_kind) {
                Ok(c) => k@ == MarkView::TextColour(c),
                Err(_) => false,
            }),
            Err(e) => spec_html_colour_from_mark(*colour_kind) == Err::<Seq<char>, Seq<char>>(e@),
        },
{
    match get_html_colour_from_mark(colour_kind) {
        Ok(s) => Ok(MarkKind::TextColour(s)),
        Err(e) => Err(e),
    }
}

/// The string at `key` of `attrs`, copied, if there is one.
pub fn optional_string(attrs: &Json, key: &str) -> (res: Option<String>)
    ensures
        spec_opt_string(res) == spec_opt_str(spec_get(*attrs, key@)),
{
    match attrs.get(key) {
        None => None,
        Some(v) => match v.as_str() {
            None => None,
            Some(s) => Some(s.clone()),
        },
    }
}

/// A link mark.
pub fn get_link_mark_kind(link_kind: &Json) -> (res: Result<MarkKind, String>)
    ensures
        match res {
            Ok(k) => spec_link_mark(*link_kind) == Ok::<MarkView, Seq<char>>(k@),
            Err(e) => spec_link_mark(*link_kind) == Err::<MarkView, Seq<char>>(e@),
        },
{
    let attrs = match link_kind.get("attrs") {
        None => return mark_error("Error: link mark does not have an attrs array"),
        Some(a) => a,
    };
    if !attrs.is_object() {
        return mark_error("Error: link mark attrs attribute is not a json object.");
    }
    let href = match attrs.get("href") {
        None => return mark_error("Error: link mark attrs attribute does not contain a href element"),
        Some(h) => h,
    };
    let href = match href.as_str() {
        None => return mark_error("Error: link mark href element is not a string"),
        Some(h) => h,
    };
    let collection = optional_string(attrs, "collection");
    let id = optional_string(attrs, "id");
    let occurrence_key = optional_string(attrs, "occurrenceKey");
    let title = optional_string(attrs, "title");
    Ok(MarkKind::Link(LinkAttrs { collection, href: href.clone(), id, occurrenceKey: occurrence_key, title }))
}

/// A subscript or superscript mark.
pub fn get_sub_sup_mark_kind(subsup_mark: &Json) -> (res: Result<MarkKind, String>)
    ensures
        match res {
            Ok(k) => spec_sub_sup_mark(*subsup_mark) == Ok::<MarkView, Seq<char>>(k@),
            Err(e) => spec_sub_sup_mark(*subsup_mark) == Err::<MarkView, Seq<char>>(e@),
        },
{
    let attrs = match subsup_mark.get("attrs") {
        None => return mark_error("Error: subsup mark does not have an attrs array"),
        Some(a) => a,
    };
    if !attrs.is_object() {
        return mark_error("Error: subsup mark attrs attribute is not a json object.");
    }
    let subsup = match attrs.get("subsup") {
        None => return mark_error("Error: subsup mark attrs attribute does not contain a subsup element"),
        Some(v) => v,
    };
    let subsup = match subsup.as_str() {
        None => return mark_error("Error: subsup mark element is not a string"),
        Some(v) => v,
    };
    if crate::text::str_eq(subsup.as_str(), "sub") {
        Ok(MarkKind::SubScript)
    } else if crate::text::str_eq(subsup.as_str(), "sup") {
        Ok(MarkKind::Superscript)
    } else {
        mark_error("Error subsup value is neither sub nor sup")
    }
}

/// The decoration a mark stands for.
pub fn get_mark_kind(mark: &Json) -> (res: Result<MarkKind, String>)
    ensures
        match res {
            Ok(k) => spec_mark_kind(*mark) == Ok::<MarkView, Seq<char>>(k@),
            Err(e) => spec_mark_kind(*mark) == Err::<MarkView, Seq<char>>(e@),
        },
{
    if !mark.is_object() {
        return mark_error("Invalid mark. Expecting json object");
    }
    let kind = match mark.get("type") {
        None => return mark_error("Invalid mark kind. Object doesn't have a type"),
        Some(t) => t,
    };
    let kind = match kind.as_str() {
        None => return mark_error("Invalid mark kind. Type isn't a string"),
        Some(k) => k.as_str(),
    };
    if crate::text::str_eq(kind, "backgroundColor") {
        get_background_colour_mark_kind(mark)
    } else if crate::text::str_eq(kind, "code") {
        Ok(MarkKind::Code)
    } else if crate::text::str_eq(kind, "em") {
        Ok(MarkKind::Emphasis)
    } else if crate::text::str_eq(kind, "link") {
        get_link_mark_kind(mark)
    } else if crate::text::str_eq(kind, "strike") {
        Ok(MarkKind::Strike)
    } else if crate::text::str_eq(kind, "strong") {
        Ok(MarkKind::Strong)
    } else if crate::text::str_eq(kind, "subsup") {
        get_sub_sup_mark_kind(mark)
    } else if crate::text::str_eq(kind, "textColor") {
        get_text_colour_mark_kind(mark)
    } else if crate::text::str_eq(kind, "underline") {
        Ok(MarkKind::Underline)
    } else {
        let mut msg = to_owned("Unknown kind of mark. Got ");
        msg.append(kind);
        Err(msg)
    }
}

} // verus!
