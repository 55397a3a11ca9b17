//! How a response is shown: status line, headers, body, and a short analysis
//! of its headers.

use crate::text::{
    chars_of, contains, decimal, occurs_in, owned, push_decimal, push_str, str_equal,
    string_of, trim_start_index, trimmed_start,
};
use colored::{Color, Colorize};
use vstd::prelude::*;

verus! {

/// The colours in which parts of a response are shown.
#[derive(Debug, Clone, Copy, PartialEq, Eq, Structural)]
pub enum Ink {
    Green,
    Yellow,
    Red,
    Blue,
    Cyan,
    White,
}

/// `Colorize::color` of the colored crate, written out: the text in that
/// colour. Whether it comes back with escape sequences around it or as it
/// went in depends on the terminal and the environment, so nothing is said
/// of the result.
#[verifier::external_body]
fn paint(text: &str, ink: Ink) -> (r: String) {
    let color = match ink {
        Ink::Green => Color::Green,
        Ink::Yellow => Color::Yellow,
        Ink::Red => Color::Red,
        Ink::Blue => Color::Blue,
        Ink::Cyan => Color::Cyan,
        Ink::White => Color::White,
    };
    text.color(color).to_string()
}

/// A parsed JSON document.
#[verifier::external_type_specification]
#[verifier::external_body]
pub struct ExJsonValue(serde_json::Value);

/// Whether a text is one JSON document, as `serde_json::from_str` decides it.
pub uninterp spec fn is_json_text(content: Seq<char>) -> bool;

/// `serde_json::from_str` for a whole document: the document, or `None`
/// where the text is no JSON. Whether a text is taken depends on the text
/// alone.
#[verifier::external_body]
fn parse_json(content: &str) -> (r: Option<serde_json::Value>)
    ensures
        r is Some <==> is_json_text(content@),
{
    match serde_json::from_str::<serde_json::Value>(content) {
        Ok(value) => Some(value),
        Err(_) => None,
    }
}

/// `serde_json::to_string_pretty`: the document written out over several
/// lines, or `None` where it cannot be written.
#[verifier::external_body]
fn pretty_json(value: &serde_json::Value) -> (r: Option<String>) {
    match serde_json::to_string_pretty(value) {
        Ok(text) => Some(text),
        Err(_) => None,
    }
}

/// The colour of a status: green for success, yellow for a client error,
/// red for a server error, none for any other.
pub open spec fn status_ink_spec(status: u16) -> Option<Ink> {
    if 200 <= status < 300 {
        Some(Ink::Green)
    } else if 400 <= status < 500 {
        Some(Ink::Yellow)
    } else if 500 <= status < 600 {
        Some(Ink::Red)
    } else {
        None
    }
}

/// The colour of a status.
pub fn status_ink(status: u16) -> (r: Option<Ink>)
    ensures
        r == status_ink_spec(status),
{
    if 200 <= status && status < 300 {
        Some(Ink::Green)
    } else if 400 <= status && status < 500 {
        Some(Ink::Yellow)
    } else if 500 <= status && status < 600 {
        Some(Ink::Red)
    } else {
        None
    }
}

/// The view of an optional string slice.
pub open spec fn slice_view(s: Option<&str>) -> Option<Seq<char>> {
    match s {
        Some(t) => Some(t@),
        None => None,
    }
}

/// A text, or another where there is none.
pub open spec fn text_or(text: Option<Seq<char>>, other: Seq<char>) -> Seq<char> {
    match text {
        Some(t) => t,
        None => other,
    }
}

/// A status as number and reason, `Unknown` standing for a missing reason.
pub open spec fn status_text_spec(status: u16, reason: Option<Seq<char>>) -> Seq<char> {
    decimal(status as nat) + " "@ + text_or(reason, "Unknown"@)
}

/// A status as number and reason.
pub fn status_text(status: u16, reason: Option<&str>) -> (r: String)
    ensures
        r@ == status_text_spec(status, slice_view(reason)),
{
    let mut out: Vec<char> = Vec::new();
    push_decimal(&mut out, status as u64);
    push_str(&mut out, " ");
    match reason {
        Some(text) => push_str(&mut out, text),
        None => push_str(&mut out, "Unknown"),
    }
    assert(out@ =~= status_text_spec(status, slice_view(reason)));
    string_of(&out)
}

/// A header of a response: its name and its value, `None` where the value
/// is no visible text.
pub type ResponseHeader = (String, Option<String>);

/// The view of a header of a response.
pub open spec fn header_view(header: ResponseHeader) -> (Seq<char>, Option<Seq<char>>) {
    (
        header.0@,
        match header.1 {
            Some(v) => Some(v@),
            None => None,
        },
    )
}

/// A header as it is shown: name, colon, value; `<invalid>` stands for a
/// value that is no visible text.
pub open spec fn shown_header(header: (Seq<char>, Option<Seq<char>>)) -> Seq<char> {
    header.0 + ": "@ + text_or(header.1, "<invalid>"@)
}

/// The headers as they are shown without colours: one line each.
pub open spec fn shown_headers(headers: Seq<ResponseHeader>) -> Seq<char>
    decreases headers.len(),
{
    if headers.len() == 0 {
        Seq::empty()
    } else {
        shown_headers(headers.drop_last()) + shown_header(header_view(headers.last())) + "\n"@
    }
}

/// The index of the first header of that name, or the number of headers.
pub open spec fn header_position(headers: Seq<ResponseHeader>, name: Seq<char>) -> int
    decreases headers.len(),
{
    if headers.len() == 0 {
        0
    } else if headers[0].0@ == name {
        0
    } else {
        1 + header_position(headers.drop_first(), name)
    }
}

/// Whether a header of that name is there.
pub open spec fn has_header(headers: Seq<ResponseHeader>, name: Seq<char>) -> bool {
    header_position(headers, name) < headers.len()
}

/// The value of the first header of that name, where it is there and its
/// value is visible text.
pub open spec fn header_text(headers: Seq<ResponseHeader>, name: Seq<char>) -> Option<Seq<char>> {
    if has_header(headers, name) {
        header_view(headers[header_position(headers, name)]).1
    } else {
        None
    }
}

proof fn lemma_header_position_is_first(headers: Seq<ResponseHeader>, name: Seq<char>, at: int)
    requires
        0 <= at <= headers.len(),
        at < headers.len() ==> headers[at].0@ == name,
        forall|k: int| 0 <= k < at ==> (#[trigger] headers[k]).0@ != name,
    ensures
        header_position(headers, name) == at,
    decreases headers.len(),
{
    if headers.len() > 0 && at > 0 {
        let rest = headers.drop_first();
        assert(headers[0].0@ != name);
        assert forall|k: int| 0 <= k < at - 1 implies (#[trigger] rest[k]).0@ != name by {
            assert(rest[k] == headers[k + 1]);
        }
        lemma_header_position_is_first(rest, name, at - 1);
    }
}

/// The first header of that name.
pub fn find_header<'a>(headers: &'a Vec<ResponseHeader>, name: &str) -> (r: Option<
    &'a ResponseHeader,
>)
    ensures
        r is Some <==> has_header(headers@, name@),
        r matches Some(header) ==> *header == headers@[header_position(headers@, name@)],
{
    let mut i: usize = 0;
    while i < headers.len()
        invariant
            i <= headers.len(),
            forall|k: int| 0 <= k < i ==> (#[trigger] headers@[k]).0@ != name@,
        decreases headers.len() - i,
    {
        if str_equal(headers[i].0.as_str(), name) {
            proof {
                lemma_header_position_is_first(headers@, name@, i as int);
            }
            return Some(&headers[i]);
        }
        i = i + 1;
    }
    proof {
        lemma_header_position_is_first(headers@, name@, headers.len() as int);
    }
    None
}

/// How the body of a response is treated.
#[derive(Debug, Clone, Copy, PartialEq, Eq, Structural)]
pub enum BodyKind {
    /// The content type says JSON: the body is formatted as JSON.
    Json,
    /// The content type says XML or HTML: the body is shown as it is.
    Xml,
    /// The body begins like JSON: it is formatted as JSON, and shown so if
    /// that changed it.
    JsonLike,
    /// The body is shown as it is.
    Plain,
}

/// Whether the text begins, after leading white space, with a brace or a
/// bracket.
pub open spec fn begins_like_json(content: Seq<char>) -> bool {
    let t = trimmed_start(content);
    t.len() > 0 && (t[0] == '{' || t[0] == '[')
}

/// How a formatter treats a body of that content type.
pub open spec fn body_kind_spec(
    format_json: bool,
    format_xml: bool,
    content: Seq<char>,
    content_type: Option<Seq<char>>,
) -> BodyKind {
    if content_type matches Some(ct) && format_json && occurs_in("json"@, ct) {
        BodyKind::Json
    } else if content_type matches Some(ct) && format_xml && (occurs_in("xml"@, ct) || occurs_in(
        "html"@,
        ct,
    )) {
        BodyKind::Xml
    } else if format_json && begins_like_json(content) {
        BodyKind::JsonLike
    } else {
        BodyKind::Plain
    }
}

/// What is shown of a body that begins like JSON: the formatted text where
/// it is not empty and differs from the body, else the body.
pub open spec fn preferred_spec(content: Seq<char>, formatted: Seq<char>) -> Seq<char> {
    if formatted.len() > 0 && formatted != content {
        formatted
    } else {
        content
    }
}

/// What is shown of a body that begins like JSON.
pub fn preferred(content: &str, formatted: String) -> (r: String)
    ensures
        r@ == preferred_spec(content@, formatted@),
{
    let f = chars_of(formatted.as_str());
    if f.len() > 0 && !str_equal(formatted.as_str(), content) {
        formatted
    } else {
        owned(content)
    }
}

/// The state of the scan of a JSON text: whether it stands inside a string,
/// and whether the next character is escaped.
pub struct ScanState {
    pub in_string: bool,
    pub escape_next: bool,
}

/// The state of the scan after one more character.
pub open spec fn scan_step(state: ScanState, c: char) -> ScanState {
    if state.escape_next {
        ScanState { in_string: state.in_string, escape_next: false }
    } else if c == '"' {
        ScanState { in_string: !state.in_string, escape_next: false }
    } else if c == '\\' && state.in_string {
        ScanState { in_string: true, escape_next: true }
    } else {
        state
    }
}

/// The colour of a character of a JSON text, given the state before it:
/// strings and their quotes green, colons blue, commas white, braces and
/// brackets yellow; an escaped character, a backslash inside a string and
/// everything else without colour.
pub open spec fn ink_of(state: ScanState, c: char) -> Option<Ink> {
    if state.escape_next {
        None
    } else if c == '"' {
        Some(Ink::Green)
    } else if c == '\\' && state.in_string {
        None
    } else if state.in_string {
        Some(Ink::Green)
    } else if c == ':' {
        Some(Ink::Blue)
    } else if c == ',' {
        Some(Ink::White)
    } else if c == '{' || c == '}' || c == '[' || c == ']' {
        Some(Ink::Yellow)
    } else {
        None
    }
}

/// The state of the scan after a whole text.
pub open spec fn scan_state(text: Seq<char>) -> ScanState
    decreases text.len(),
{
    if text.len() == 0 {
        ScanState { in_string: false, escape_next: false }
    } else {
        scan_step(scan_state(text.drop_last()), text.last())
    }
}

/// The colour of each character of a JSON text.
pub open spec fn json_inks(text: Seq<char>) -> Seq<Option<Ink>> {
    Seq::new(text.len(), |i: int| ink_of(scan_state(text.take(i)), text[i]))
}

/// The colour of each character of a JSON text.
pub fn classify_json(json: &str) -> (r: Vec<Option<Ink>>)
    ensures
        r@ == json_inks(json@),
{
    let chars = chars_of(json);
    let mut inks: Vec<Option<Ink>> = Vec::new();
    let mut in_string = false;
    let mut escape_next = false;
    let mut i: usize = 0;
    assert(chars@.take(0) =~= Seq::<char>::empty());
    while i < chars.len()
        invariant
            i <= chars.len(),
            chars@ == json@,
            inks.len() == i,
            scan_state(chars@.take(i as int)) == (ScanState { in_string, escape_next }),
            forall|k: int| 0 <= k < i ==> inks@[k] == ink_of(scan_state(chars@.take(k)), chars@[k]),
        decreases chars.len() - i,
    {
        let c = chars[i];
        let ghost before = chars@.take(i as int);
        let ghost after = chars@.take(i + 1);
        assert(after.drop_last() =~= before);
        assert(after.last() == c);
        if escape_next {
            inks.push(None);
            escape_next = false;
        } else if c == '"' {
            inks.push(Some(Ink::Green));
            in_string = !in_string;
        } else if c == '\\' && in_string {
            inks.push(None);
            escape_next = true;
        } else if in_string {
            inks.push(Some(Ink::Green));
        } else if c == ':' {
            inks.push(Some(Ink::Blue));
        } else if c == ',' {
            inks.push(Some(Ink::White));
        } else if c == '{' || c == '}' || c == '[' || c == ']' {
            inks.push(Some(Ink::Yellow));
        } else {
            inks.push(None);
        }
        i = i + 1;
    }
    assert(inks@ =~= json_inks(json@));
    inks
}

/// What decides how a response is shown.
#[derive(Debug, Clone, Copy, PartialEq, Eq, Structural)]
pub struct ResponseFormatter {
    pub colorize: bool,
    pub format_json: bool,
    pub format_xml: bool,
}

impl ResponseFormatter {
    /// A formatter.
    pub fn new(colorize: bool, format_json: bool, format_xml: bool) -> (f: Self)
        ensures
            f == (ResponseFormatter { colorize, format_json, format_xml }),
    {
        ResponseFormatter { colorize, format_json, format_xml }
    }

    /// The text in a colour, or as it is where colours are off or no colour
    /// is given.
    fn inked(&self, text: &str, ink: Option<Ink>) -> (r: String)
        ensures
            !self.colorize || ink is None ==> r@ == text@,
    {
        match ink {
            Some(colour) => {
                if self.colorize {
                    paint(text, colour)
                } else {
                    owned(text)
                }
            },
            None => owned(text),
        }
    }

    /// The status line: protocol version, then status and reason. With
    /// colours the version is blue and the status has the colour of its
    /// class.
    pub fn format_status_line(&self, version: &str, status: u16, reason: Option<&str>) -> (r:
        String)
        ensures
            !self.colorize ==> r@ == version@ + " "@ + status_text_spec(status, slice_view(reason)),
    {
        let status_str = status_text(status, reason);
        let shown_version = self.inked(version, Some(Ink::Blue));
        let shown_status = self.inked(status_str.as_str(), status_ink(status));
        let mut out: Vec<char> = Vec::new();
        push_str(&mut out, shown_version.as_str());
        push_str(&mut out, " ");
        push_str(&mut out, shown_status.as_str());
        assert(!self.colorize ==> out@ =~= version@ + " "@ + status_text_spec(
            status,
            slice_view(reason),
        ));
        string_of(&out)
    }

    /// The headers, one line each; cyan with colours.
    pub fn format_headers(&self, headers: &Vec<ResponseHeader>) -> (r: String)
        ensures
            !self.colorize ==> r@ == shown_headers(headers@),
    {
        let mut out: Vec<char> = Vec::new();
        let mut i: usize = 0;
        assert(headers@.take(0) =~= Seq::<ResponseHeader>::empty());
        while i < headers.len()
            invariant
                i <= headers.len(),
                !self.colorize ==> out@ == shown_headers(headers@.take(i as int)),
            decreases headers.len() - i,
        {
            let ghost before = headers@.take(i as int);
            let ghost after = headers@.take(i + 1);
            assert(after.drop_last() =~= before);
            assert(after.last() == headers@[i as int]);
            let mut line: Vec<char> = Vec::new();
            push_str(&mut line, headers[i].0.as_str());
            push_str(&mut line, ": ");
            match &headers[i].1 {
                Some(value) => push_str(&mut line, value.as_str()),
                None => push_str(&mut line, "<invalid>"),
            }
            assert(line@ =~= shown_header(header_view(headers@[i as int])));
            let text = string_of(&line);
            let shown = self.inked(text.as_str(), Some(Ink::Cyan));
            let ghost sofar = out@;
            push_str(&mut out, shown.as_str());
            push_str(&mut out, "\n");
            assert(!self.colorize ==> out@ =~= sofar + shown_header(
                header_view(headers@[i as int]),
            ) + "\n"@);
            i = i + 1;
        }
        assert(headers@.take(headers.len() as int) =~= headers@);
        string_of(&out)
    }

    /// How a body of that content type is treated.
    pub fn body_kind(&self, content: &str, content_type: Option<&str>) -> (kind: BodyKind)
        ensures
            kind == body_kind_spec(
                self.format_json,
                self.format_xml,
                content@,
                slice_view(content_type),
            ),
    {
        match content_type {
            Some(ct) => {
                if self.format_json && contains(ct, "json") {
                    return BodyKind::Json;
                }
                if self.format_xml && (contains(ct, "xml") || contains(ct, "html")) {
                    return BodyKind::Xml;
                }
            },
            None => {},
        }
        if self.format_json {
            let chars = chars_of(content);
            assert(chars@.subrange(0, chars.len() as int) =~= chars@);
            let start = trim_start_index(&chars, 0, chars.len());
            if start < chars.len() && (chars[start] == '{' || chars[start] == '[') {
                return BodyKind::JsonLike;
            }
        }
        BodyKind::Plain
    }

    /// The body as it is shown. A body that is treated as XML or as plain
    /// text is shown as it is.
    pub fn format_body(&self, content: &str, content_type: Option<&str>) -> (r: String)
        ensures
            ({
                let kind = body_kind_spec(
                    self.format_json,
                    self.format_xml,
                    content@,
                    slice_view(content_type),
                );
                kind is Xml || kind is Plain ==> r@ == content@
            }),
    {
        match self.body_kind(content, content_type) {
            BodyKind::Json => self.format_json_content(content),
            BodyKind::Xml => self.format_xml_content(content),
            BodyKind::JsonLike => preferred(content, self.format_json_content(content)),
            BodyKind::Plain => owned(content),
        }
    }

    /// What is shown of a text that was, or was not, written out as JSON:
    /// the formatted text, with colours where they are on, or the text as
    /// it is where there is no formatted one.
    pub fn json_or_content(&self, content: &str, formatted: Option<String>) -> (r: String)
        ensures
            formatted is None ==> r@ == content@,
            formatted matches Some(text) ==> self.colorize || r@ == text@,
    {
        match formatted {
            Some(text) => {
                if self.colorize {
                    self.colorize_json(text.as_str())
                } else {
                    text
                }
            },
            None => owned(content),
        }
    }

    /// The text written out as JSON over several lines, with colours where
    /// they are on; the text as it is where it is no JSON.
    pub fn format_json_content(&self, content: &str) -> (r: String)
        ensures
            !is_json_text(content@) ==> r@ == content@,
    {
        let formatted = match parse_json(content) {
            Some(value) => pretty_json(&value),
            None => None,
        };
        self.json_or_content(content, formatted)
    }

    /// XML and HTML are shown as they are.
    pub fn format_xml_content(&self, content: &str) -> (r: String)
        ensures
            r@ == content@,
    {
        owned(content)
    }

    /// A JSON text with each character in its colour. Without colours the
    /// text comes back as it is.
    pub fn colorize_json(&self, json: &str) -> (r: String)
        ensures
            !self.colorize ==> r@ == json@,
    {
        let chars = chars_of(json);
        let inks = classify_json(json);
        let mut out: Vec<char> = Vec::new();
        let mut i: usize = 0;
        while i < chars.len()
            invariant
                i <= chars.len(),
                inks.len() == chars.len(),
                chars@ == json@,
                !self.colorize ==> out@ == chars@.subrange(0, i as int),
            decreases chars.len() - i,
        {
            let mut one: Vec<char> = Vec::new();
            one.push(chars[i]);
            let text = string_of(&one);
            let shown = self.inked(text.as_str(), inks[i]);
            let ghost sofar = out@;
            push_str(&mut out, shown.as_str());
            assert(!self.colorize ==> out@ =~= chars@.subrange(0, i + 1)) by {
                if !self.colorize {
                    assert(shown@ =~= seq![chars@[i as int]]);
                }
            }
            i = i + 1;
        }
        assert(chars@.subrange(0, chars.len() as int) =~= chars@);
        string_of(&out)
    }
}

impl Default for ResponseFormatter {
    fn default() -> (f: Self)
        ensures
            f == (ResponseFormatter { colorize: true, format_json: true, format_xml: false }),
    {
        ResponseFormatter { colorize: true, format_json: true, format_xml: false }
    }
}

/// A whole response as it is shown: status line, headers, an empty line,
/// body.
pub fn assemble_response(status_line: &str, headers: &str, body: &str) -> (r: String)
    ensures
        r@ == status_line@ + "\n"@ + headers@ + "\n"@ + body@,
{
    let mut out: Vec<char> = Vec::new();
    push_str(&mut out, status_line);
    push_str(&mut out, "\n");
    push_str(&mut out, headers);
    push_str(&mut out, "\n");
    push_str(&mut out, body);
    assert(out@ =~= status_line@ + "\n"@ + headers@ + "\n"@ + body@);
    string_of(&out)
}

/// What the headers of a response tell.
pub struct ResponseAnalyzer;

/// One finding of the analysis: a key and what was found under it.
pub type Finding = (Seq<char>, Seq<char>);

/// The finding on a security header: whether it is there.
pub open spec fn security_finding(headers: Seq<ResponseHeader>, name: Seq<char>) -> Finding {
    (
        "security."@ + name,
        if has_header(headers, name) {
            "present"@
        } else {
            "missing"@
        },
    )
}

/// The finding on a header whose value is reported: none where the header
/// is missing; `unknown` for a value that is no visible text.
pub open spec fn value_finding(headers: Seq<ResponseHeader>, name: Seq<char>, key: Seq<char>) -> Seq<
    Finding,
> {
    if has_header(headers, name) {
        seq![(key, text_or(header_text(headers, name), "unknown"@))]
    } else {
        Seq::empty()
    }
}

/// The findings on the headers of a response: the five security headers,
/// then the server and the cache control where they are there.
pub open spec fn findings(headers: Seq<ResponseHeader>) -> Seq<Finding> {
    seq![
        security_finding(headers, "strict-transport-security"@),
        security_finding(headers, "content-security-policy"@),
        security_finding(headers, "x-frame-options"@),
        security_finding(headers, "x-content-type-options"@),
        security_finding(headers, "x-xss-protection"@),
    ] + value_finding(headers, "server"@, "server.type"@) + value_finding(
        headers,
        "cache-control"@,
        "cache.control"@,
    )
}

/// The views of a list of findings.
pub open spec fn finding_views(list: Seq<(String, String)>) -> Seq<Finding> {
    list.map_values(|p: (String, String)| (p.0@, p.1@))
}

/// The summary of a response in one line.
pub open spec fn summary_spec(
    status: u16,
    reason: Option<Seq<char>>,
    headers: Seq<ResponseHeader>,
    body_size: usize,
    response_time: u64,
) -> Seq<char> {
    "Status: "@ + decimal(status as nat) + " "@ + text_or(reason, "<unknown status code>"@)
        + " | Size: "@ + decimal(body_size as nat) + " bytes | Time: "@ + decimal(
        response_time as nat,
    ) + "ms | Server: "@ + text_or(header_text(headers, "server"@), "unknown"@)
}

fn add_security_finding(out: &mut Vec<(String, String)>, headers: &Vec<ResponseHeader>, name: &str)
    ensures
        finding_views(final(out)@) == finding_views(old(out)@).push(
            security_finding(headers@, name@),
        ),
{
    let mut key: Vec<char> = Vec::new();
    push_str(&mut key, "security.");
    push_str(&mut key, name);
    assert(key@ =~= "security."@ + name@);
    let found = match find_header(headers, name) {
        Some(_) => owned("present"),
        None => owned("missing"),
    };
    out.push((string_of(&key), found));
    assert(finding_views(out@) =~= finding_views(old(out)@).push(
        security_finding(headers@, name@),
    ));
}

fn add_value_finding(
    out: &mut Vec<(String, String)>,
    headers: &Vec<ResponseHeader>,
    name: &str,
    key: &str,
)
    ensures
        finding_views(final(out)@) == finding_views(old(out)@) + value_finding(
            headers@,
            name@,
            key@,
        ),
{
    match find_header(headers, name) {
        Some(header) => {
            let value = match &header.1 {
                Some(text) => owned(text.as_str()),
                None => owned("unknown"),
            };
            out.push((owned(key), value));
            assert(finding_views(out@) =~= finding_views(old(out)@) + value_finding(
                headers@,
                name@,
                key@,
            ));
        },
        None => {
            assert(finding_views(out@) =~= finding_views(old(out)@) + value_finding(
                headers@,
                name@,
                key@,
            ));
        },
    }
}

impl ResponseAnalyzer {
    /// The findings on the headers of a response. Header names are taken as
    /// they are written in small letters.
    pub fn analyze_headers(headers: &Vec<ResponseHeader>) -> (r: Vec<(String, String)>)
        ensures
            finding_views(r@) == findings(headers@),
    {
        let mut out: Vec<(String, String)> = Vec::new();
        assert(finding_views(out@) =~= Seq::<Finding>::empty());
        add_security_finding(&mut out, headers, "strict-transport-security");
        add_security_finding(&mut out, headers, "content-security-policy");
        add_security_finding(&mut out, headers, "x-frame-options");
        add_security_finding(&mut out, headers, "x-content-type-options");
        add_security_finding(&mut out, headers, "x-xss-protection");
        add_value_finding(&mut out, headers, "server", "server.type");
        add_value_finding(&mut out, headers, "cache-control", "cache.control");
        assert(finding_views(out@) =~= findings(headers@));
        out
    }

    /// The summary of a response in one line: status, size of the body, time
    /// and server.
    pub fn get_response_summary(
        status: u16,
        reason: Option<&str>,
        headers: &Vec<ResponseHeader>,
        body_size: usize,
        response_time: u64,
    ) -> (r: String)
        ensures
            r@ == summary_spec(status, slice_view(reason), headers@, body_size, response_time),
    {
        let mut out: Vec<char> = Vec::new();
        push_str(&mut out, "Status: ");
        push_decimal(&mut out, status as u64);
        push_str(&mut out, " ");
        match reason {
            Some(text) => push_str(&mut out, text),
            None => push_str(&mut out, "<unknown status code>"),
        }
        push_str(&mut out, " | Size: ");
        push_decimal(&mut out, body_size as u64);
        push_str(&mut out, " bytes | Time: ");
        push_decimal(&mut out, response_time);
        push_str(&mut out, "ms | Server: ");
        let ghost sofar = out@;
        match find_header(headers, "server") {
            Some(header) => match &header.1 {
                Some(text) => push_str(&mut out, text.as_str()),
                None => push_str(&mut out, "unknown"),
            },
            None => push_str(&mut out, "unknown"),
        }
        assert(out@ =~= summary_spec(
            status,
            slice_view(reason),
            headers@,
            body_size,
            response_time,
        ));
        string_of(&out)
    }
}

} // verus!
