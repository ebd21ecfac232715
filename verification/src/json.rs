//! The calls into `serde_json` that the body formatter and the cURL export
//! make, each behind a trusted wrapper.
use vstd::prelude::*;

verus! {

/// `serde_json::Value`, carried from parsing to printing.
#[verifier::external_type_specification]
#[verifier::external_body]
pub struct ExJsonValue(serde_json::Value);

/// `serde_json::Error`, the error of every `serde_json` call made here.
#[verifier::external_type_specification]
#[verifier::external_body]
pub struct ExJsonError(serde_json::Error);

/// Whether `serde_json::from_str::<serde_json::Value>` accepts `text`
/// as a JSON document.
pub uninterp spec fn json_accepts(text: Seq<char>) -> bool;

/// A lower-case hexadecimal digit.
pub open spec fn hex_digit(d: int) -> char {
    if d < 10 {
        ('0' as int + d) as char
    } else {
        ('a' as int + d - 10) as char
    }
}

/// How `serde_json` writes one character inside a string literal: `"` and
/// `\` behind a backslash; backspace, tab, line feed, form feed and
/// carriage return as `\b`, `\t`, `\n`, `\f`, `\r`; the other control
/// characters below U+0020 as `\u00` and two lower-case hex digits; every
/// other character as itself.
pub open spec fn json_char_escape(c: char) -> Seq<char> {
    if c == '"' {
        seq!['\\', '"']
    } else if c == '\\' {
        seq!['\\', '\\']
    } else if c == '\u{8}' {
        seq!['\\', 'b']
    } else if c == '\t' {
        seq!['\\', 't']
    } else if c == '\n' {
        seq!['\\', 'n']
    } else if c == '\u{c}' {
        seq!['\\', 'f']
    } else if c == '\r' {
        seq!['\\', 'r']
    } else if (c as int) < 0x20 {
        seq!['\\', 'u', '0', '0', hex_digit(c as int / 16), hex_digit(c as int % 16)]
    } else {
        seq![c]
    }
}

/// The characters of `text`, each written as in a JSON string literal.
pub open spec fn json_escaped(text: Seq<char>) -> Seq<char>
    decreases text.len(),
{
    if text.len() == 0 {
        seq![]
    } else {
        json_escaped(text.drop_last()) + json_char_escape(text.last())
    }
}

/// The JSON string literal that `serde_json::to_string` writes for the
/// string `text`: a quote, the escaped characters, a quote.
pub open spec fn json_string_literal(text: Seq<char>) -> Seq<char> {
    seq!['"'] + json_escaped(text) + seq!['"']
}

/// A JSON document parsed by `serde_json`, with the text it was parsed
/// from. Only `parse_json_value` makes one, so the two always agree.
pub struct ParsedJson {
    source: String,
    value: serde_json::Value,
}

impl View for ParsedJson {
    type V = Seq<char>;

    /// The text the document was parsed from.
    closed spec fn view(&self) -> Seq<char> {
        self.source@
    }
}

/// The text `serde_json::to_string_pretty` writes for the document that
/// `serde_json::from_str::<serde_json::Value>` parses from `text` (keys in
/// the order they were read, two-space indentation).
pub uninterp spec fn json_pretty(text: Seq<char>) -> Seq<char>;

/// The `Display` text of the error that `serde_json::from_str::<serde_json::Value>`
/// reports for `text` when it refuses it (the message, with the line and
/// column where parsing stopped).
pub uninterp spec fn json_parse_error(text: Seq<char>) -> Seq<char>;

/// `serde_json::from_str::<serde_json::Value>`, kept with its text, and
/// its error as the error's `Display` text. Trusted: it succeeds exactly
/// on the texts that `json_accepts` names, and otherwise reports
/// `json_parse_error` of the text.
#[verifier::external_body]
pub(crate) fn parse_json_value(text: &str) -> (r: Result<ParsedJson, String>)
    ensures
        r is Ok <==> json_accepts(text@),
        r matches Ok(p) ==> p@ == text@,
        r matches Err(m) ==> m@ == json_parse_error(text@),
{
    match serde_json::from_str::<serde_json::Value>(text) {
        Ok(value) => Ok(ParsedJson { source: text.to_owned(), value }),
        Err(e) => Err(e.to_string()),
    }
}

/// `serde_json::to_string_pretty` on a parsed document. Trusted: it writes
/// `json_pretty` of the document's text, and does not fail: the crate
/// documents failure only for a `Serialize` impl that fails or for map keys
/// that are not strings, and a `Value` serializes into memory with string
/// keys.
#[verifier::external_body]
pub(crate) fn pretty_json(parsed: &ParsedJson) -> (r: Result<String, serde_json::Error>)
    ensures
        r is Ok,
        r matches Ok(s) ==> s@ == json_pretty(parsed@),
{
    serde_json::to_string_pretty(&parsed.value)
}

/// The `Display` text of a `serde_json::Error` from printing a document.
/// Nothing is stated of it: `pretty_json` does not fail.
#[verifier::external_body]
pub(crate) fn json_error_text(error: &serde_json::Error) -> (r: String) {
    error.to_string()
}

/// `serde_json::to_string` on a string. Trusted: what it writes is the
/// JSON string literal of `text` (see `json_string_literal`, which follows
/// `format_escaped_str` and its escape table), and it does not fail: the crate documents
/// failure only for a `Serialize` impl that fails or for map keys that are
/// not strings, and a string serializes into memory.
#[verifier::external_body]
pub(crate) fn quote_json_string(text: &str) -> (r: Result<String, serde_json::Error>)
    ensures
        r is Ok,
        r matches Ok(s) ==> s@ == json_string_literal(text@),
{
    serde_json::to_string(text)
}

} // verus!
