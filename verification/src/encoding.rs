use vstd::prelude::*;
use base64::Engine;
use vstd::string::StringSliceAdditionalSpecFns;

verus! {

/// The HTML entity that stands for `c`, or `c` itself.
pub open spec fn spec_escape_char(c: char) -> Seq<char> {
    if c == '&' {
        "&amp;"@
    } else if c == '<' {
        "&lt;"@
    } else if c == '>' {
        "&gt;"@
    } else if c == '"' {
        "&quot;"@
    } else if c == '\'' {
        "&#x27;"@
    } else if c == '/' {
        "&#x2F;"@
    } else {
        seq![c]
    }
}

/// `s` with `&`, `<`, `>`, `"`, `'` and `/` replaced by HTML entities.
pub open spec fn spec_escape(s: Seq<char>) -> Seq<char>
    decreases s.len(),
{
    if s.len() == 0 {
        Seq::empty()
    } else {
        spec_escape(s.drop_last()) + spec_escape_char(s.last())
    }
}

/// Escapes text for HTML with `html_escape::encode_safe`: the crate replaces
/// `&`, `<`, `>`, `"`, `'` and `/` by `&amp;`, `&lt;`, `&gt;`, `&quot;`,
/// `&#x27;` and `&#x2F;` and leaves every other character as it is.
#[verifier::external_body]
pub(crate) fn escape_html(s: &str) -> (res: String)
    ensures
        res@ == spec_escape(s@),
{
    html_escape::encode_safe(s).to_string()
}

/// Escaped text holds no `<`, `>`, `"` or `'`: whatever it is built from, it
/// cannot open or close a tag or an attribute value.
pub proof fn lemma_escape_has_no_markup(s: Seq<char>)
    ensures
        forall|i: int| 0 <= i < spec_escape(s).len() ==> {
            let c = #[trigger] spec_escape(s)[i];
            c != '<' && c != '>' && c != '"' && c != '\''
        },
    decreases s.len(),
{
    if s.len() > 0 {
        lemma_escape_has_no_markup(s.drop_last());
        reveal_strlit("&amp;");
        reveal_strlit("&lt;");
        reveal_strlit("&gt;");
        reveal_strlit("&quot;");
        reveal_strlit("&#x27;");
        reveal_strlit("&#x2F;");
        let p = spec_escape(s.drop_last());
        let e = spec_escape_char(s.last());
        assert forall|i: int| 0 <= i < spec_escape(s).len() implies {
            let c = #[trigger] spec_escape(s)[i];
            c != '<' && c != '>' && c != '"' && c != '\''
        } by {
            if i >= p.len() {
                assert(spec_escape(s)[i] == e[i - p.len()]);
            } else {
                assert(spec_escape(s)[i] == p[i]);
            }
        }
    }
}

/// The character of the standard base64 alphabet for `v` (`v < 64`).
pub open spec fn spec_base64_char(v: int) -> char {
    if v < 26 {
        (65 + v) as char
    } else if v < 52 {
        (97 + v - 26) as char
    } else if v < 62 {
        (48 + v - 52) as char
    } else if v == 62 {
        '+'
    } else {
        '/'
    }
}

/// Standard base64 with `=` padding: each group of three bytes gives four
/// characters; a final group of one or two bytes is padded.
pub open spec fn spec_base64(b: Seq<u8>) -> Seq<char>
    decreases b.len(),
{
    if b.len() == 0 {
        Seq::empty()
    } else if b.len() == 1 {
        seq![spec_base64_char(b[0] as int / 4), spec_base64_char((b[0] as int % 4) * 16), '=', '=']
    } else if b.len() == 2 {
        seq![
            spec_base64_char(b[0] as int / 4),
            spec_base64_char((b[0] as int % 4) * 16 + b[1] as int / 16),
            spec_base64_char((b[1] as int % 16) * 4),
            '=',
        ]
    } else {
        seq![
            spec_base64_char(b[0] as int / 4),
            spec_base64_char((b[0] as int % 4) * 16 + b[1] as int / 16),
            spec_base64_char((b[1] as int % 16) * 4 + b[2] as int / 64),
            spec_base64_char(b[2] as int % 64),
        ] + spec_base64(b.skip(3))
    }
}

/// Encodes bytes in standard base64 with padding, with the `STANDARD`
/// engine of the `base64` crate.
#[verifier::external_body]
pub(crate) fn base64_encode(bytes: &[u8]) -> (res: String)
    ensures
        res@ == spec_base64(bytes@),
{
    base64::engine::general_purpose::STANDARD.encode(bytes)
}

/// The UTF-8 bytes of `s` in standard base64.
pub fn base64_of_str(s: &str) -> (res: String)
    ensures
        res@ == spec_base64(s.spec_bytes()),
{
    base64_encode(s.as_bytes())
}


/// What `String::from_utf8_lossy` makes of the bytes.
pub uninterp spec fn spec_utf8_lossy(bytes: Seq<u8>) -> Seq<char>;

/// Decodes bytes as UTF-8 with `String::from_utf8_lossy`, which replaces each
/// invalid sequence by U+FFFD; bytes that are valid UTF-8 come back as the
/// text they encode. What the replacement gives on invalid bytes is not
/// stated beyond its being a function of the bytes.
#[verifier::external_body]
pub(crate) fn utf8_lossy(bytes: &[u8]) -> (res: String)
    ensures
        res@ == spec_utf8_lossy(bytes@),
        vstd::utf8::valid_utf8(bytes@) ==> res@ == vstd::utf8::decode_utf8(bytes@),
{
    String::from_utf8_lossy(bytes).to_string()
}


/// What Rust's `Debug` formatting writes for a string.
pub uninterp spec fn spec_debug_str(s: Seq<char>) -> Seq<char>;

/// The string as Rust's `Debug` formatting writes it (`format!("{:?}", s)`):
/// between double quotes, with quotes, backslashes and control characters
/// escaped. Nothing is claimed of the result beyond its being a function of
/// the string.
#[verifier::external_body]
pub(crate) fn debug_str(s: &str) -> (res: String)
    ensures
        res@ == spec_debug_str(s@),
{
    format!("{s:?}")
}

} // verus!
