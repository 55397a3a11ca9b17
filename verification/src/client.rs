//! The settings of a request-issuing client: redirect policy, timeouts and
//! default headers.

use crate::error::TransferError;
use crate::text::{
    chars_of, find_char, first_index_of, string_of, trim_range, trimmed, views,
};
use reqwest::header::{HeaderName, HeaderValue};
use std::str::FromStr;
use vstd::prelude::*;

verus! {

/// The most redirects that a client follows.
pub const MAX_REDIRECTS: usize = 10;

/// The connect timeout, in seconds, of downloads and benchmarks that name
/// none.
pub const DEFAULT_CONNECT_TIMEOUT: u64 = 10;

/// What a client is built for. It decides the bound on the duration of a
/// whole request.
#[derive(Debug, Clone, Copy, PartialEq, Eq, Structural)]
pub enum ClientType {
    /// A plain request: bounded.
    Get,
    /// A download: unbounded, since only the idle timeout tells a stalled
    /// transfer from a long one.
    Download,
    /// A benchmark request: bounded, and shorter.
    Benchmark,
}

impl ClientType {
    /// The bound, in seconds, on the duration of a whole request.
    pub open spec fn total_timeout_spec(self) -> Option<u64> {
        match self {
            ClientType::Get => Some(300u64),
            ClientType::Download => None,
            ClientType::Benchmark => Some(60u64),
        }
    }

    /// The bound, in seconds, on the duration of a whole request, if any.
    pub fn total_timeout(&self) -> (r: Option<u64>)
        ensures
            r == self.total_timeout_spec(),
    {
        match self {
            ClientType::Get => Some(300),
            ClientType::Download => None,
            ClientType::Benchmark => Some(60),
        }
    }
}

/// Whether and how far redirects are followed.
#[derive(Debug, Clone, Copy, PartialEq, Eq, Structural)]
pub enum RedirectPolicy {
    /// No redirect is followed.
    Never,
    /// At most this many redirects are followed.
    Limited(usize),
}

/// The characters of which a header name is made.
pub open spec fn is_token_char(c: char) -> bool {
    ||| 'a' <= c <= 'z'
    ||| 'A' <= c <= 'Z'
    ||| '0' <= c <= '9'
    ||| c == '!'
    ||| c == '#'
    ||| c == '$'
    ||| c == '%'
    ||| c == '&'
    ||| c == '\''
    ||| c == '*'
    ||| c == '+'
    ||| c == '-'
    ||| c == '.'
    ||| c == '^'
    ||| c == '_'
    ||| c == '`'
    ||| c == '|'
    ||| c == '~'
}

/// An ASCII capital as its small letter, any other character as itself.
pub open spec fn lowered(c: char) -> char {
    if 'A' <= c <= 'Z' {
        ((c as u8 + 32) as u8) as char
    } else {
        c
    }
}

/// A header name: between 1 and 65535 token characters.
pub open spec fn is_header_name(s: Seq<char>) -> bool {
    &&& 1 <= s.len() <= 65535
    &&& forall|i: int| 0 <= i < s.len() ==> is_token_char(#[trigger] s[i])
}

/// A header name in small letters.
pub open spec fn canonical_name(s: Seq<char>) -> Seq<char> {
    s.map_values(|c: char| lowered(c))
}

/// The characters of which a header value is made: the tab and every
/// character from the space on but the delete character.
pub open spec fn is_value_char(c: char) -> bool {
    c as u32 == 9 || (c as u32 >= 32 && c as u32 != 127)
}

/// A header value.
pub open spec fn is_header_value(s: Seq<char>) -> bool {
    forall|i: int| 0 <= i < s.len() ==> is_value_char(#[trigger] s[i])
}

/// `HeaderName::from_str` as reqwest offers it in its `header` module: a
/// name is taken if and only if it holds between 1 and 65535 characters, all
/// of them token characters, and what comes back is that name in small
/// letters.
#[verifier::external_body]
fn canonical_header_name(name: &str) -> (r: Option<String>)
    ensures
        r is Some <==> is_header_name(name@),
        r matches Some(canonical) ==> canonical@ == canonical_name(name@),
{
    match HeaderName::from_str(name) {
        Ok(parsed) => Some(parsed.as_str().to_string()),
        Err(_) => None,
    }
}

/// `HeaderValue::from_str` as reqwest offers it in its `header` module: a
/// value is taken if and only if each of its characters is a tab or lies at
/// or after the space and is not the delete character.
#[verifier::external_body]
fn header_value_accepted(value: &str) -> (r: bool)
    ensures
        r == is_header_value(value@),
{
    HeaderValue::from_str(value).is_ok()
}

/// Why a header line was not taken.
#[derive(Debug, Clone, Copy, PartialEq, Eq, Structural)]
pub enum HeaderError {
    /// The line holds no colon.
    MissingColon,
    /// What stands before the first colon is no header name.
    InvalidName,
    /// What stands after the first colon is no header value.
    InvalidValue,
}

/// A header as name and value.
pub type HeaderPair = (Seq<char>, Seq<char>);

/// What a header line says: the name before its first colon, in small
/// letters, and the value after it, both without the white space around
/// them.
pub open spec fn parsed_header(line: Seq<char>) -> Result<HeaderPair, HeaderError> {
    let colon = first_index_of(line, ':', 0);
    if colon >= line.len() {
        Err(HeaderError::MissingColon)
    } else {
        let name = trimmed(line.subrange(0, colon));
        let value = trimmed(line.subrange(colon + 1, line.len() as int));
        if !is_header_name(name) {
            Err(HeaderError::InvalidName)
        } else if !is_header_value(value) {
            Err(HeaderError::InvalidValue)
        } else {
            Ok((canonical_name(name), value))
        }
    }
}

/// The view of a header.
pub open spec fn pair_view(pair: (String, String)) -> HeaderPair {
    (pair.0@, pair.1@)
}

/// The views of a list of headers.
pub open spec fn pair_views(list: Seq<(String, String)>) -> Seq<HeaderPair> {
    list.map_values(|p: (String, String)| pair_view(p))
}

/// The view of a parsed header line.
pub open spec fn parse_view(r: Result<(String, String), HeaderError>) -> Result<
    HeaderPair,
    HeaderError,
> {
    match r {
        Ok(pair) => Ok(pair_view(pair)),
        Err(e) => Err(e),
    }
}

/// Reads a header line of the form `Name: value`.
pub fn parse_header(header_str: &str) -> (r: Result<(String, String), HeaderError>)
    ensures
        parse_view(r) == parsed_header(header_str@),
{
    let chars = chars_of(header_str);
    let colon = find_char(&chars, ':');
    if colon >= chars.len() {
        return Err(HeaderError::MissingColon);
    }
    let name_chars = trim_range(&chars, 0, colon);
    let value_chars = trim_range(&chars, colon + 1, chars.len());
    let name = string_of(&name_chars);
    let value = string_of(&value_chars);
    match canonical_header_name(name.as_str()) {
        None => Err(HeaderError::InvalidName),
        Some(canonical) => {
            if header_value_accepted(value.as_str()) {
                Ok((canonical, value))
            } else {
                Err(HeaderError::InvalidValue)
            }
        },
    }
}

/// The index of the first header of that name, or the length of the list.
pub open spec fn position_of(list: Seq<HeaderPair>, name: Seq<char>) -> int
    decreases list.len(),
{
    if list.len() == 0 {
        0
    } else if list[0].0 == name {
        0
    } else {
        1 + position_of(list.drop_first(), name)
    }
}

/// The list with the header set: the value of the first header of that name
/// is replaced where there is one, else the header is added at the end.
pub open spec fn with_header(list: Seq<HeaderPair>, name: Seq<char>, value: Seq<char>) -> Seq<
    HeaderPair,
> {
    let at = position_of(list, name);
    if at < list.len() {
        list.update(at, (name, value))
    } else {
        list.push((name, value))
    }
}

/// The headers that a list of header lines gives, in the order in which
/// their names first occur. A line that is no header is skipped; a later
/// line of the same name replaces the value of an earlier one.
pub open spec fn collected(lines: Seq<Seq<char>>) -> Seq<HeaderPair>
    decreases lines.len(),
{
    if lines.len() == 0 {
        Seq::empty()
    } else {
        match parsed_header(lines.last()) {
            Ok((name, value)) => with_header(collected(lines.drop_last()), name, value),
            Err(_) => collected(lines.drop_last()),
        }
    }
}

proof fn lemma_position_of(list: Seq<HeaderPair>, name: Seq<char>)
    ensures
        0 <= position_of(list, name) <= list.len(),
        position_of(list, name) < list.len() ==> list[position_of(list, name)].0 == name,
        forall|k: int| 0 <= k < position_of(list, name) ==> (#[trigger] list[k]).0 != name,
    decreases list.len(),
{
    if list.len() > 0 && list[0].0 != name {
        let rest = list.drop_first();
        lemma_position_of(rest, name);
        assert forall|k: int| 0 <= k < position_of(list, name) implies (#[trigger] list[k]).0
            != name by {
            if k > 0 {
                assert(list[k] == rest[k - 1]);
            }
        }
    }
}

proof fn lemma_position_is_first(list: Seq<HeaderPair>, name: Seq<char>, at: int)
    requires
        0 <= at <= list.len(),
        at < list.len() ==> list[at].0 == name,
        forall|k: int| 0 <= k < at ==> (#[trigger] list[k]).0 != name,
    ensures
        position_of(list, name) == at,
{
    lemma_position_of(list, name);
    let p = position_of(list, name);
    if p < at {
        assert(list[p].0 != name);
    } else if at < p {
        assert(list[at].0 != name);
    }
}

/// No two headers have the same name.
pub open spec fn header_names_unique(list: Seq<HeaderPair>) -> bool {
    forall|i: int, j: int| 0 <= i < j < list.len() ==> (#[trigger] list[i]).0 != (#[trigger] list[j]).0
}

/// Setting a header keeps the names unique.
pub proof fn lemma_with_header_unique(list: Seq<HeaderPair>, name: Seq<char>, value: Seq<char>)
    requires
        header_names_unique(list),
    ensures
        header_names_unique(with_header(list, name, value)),
{
    lemma_position_of(list, name);
    let at = position_of(list, name);
    let after = with_header(list, name, value);
    assert forall|i: int, j: int| 0 <= i < j < after.len() implies (#[trigger] after[i]).0 != (
    #[trigger] after[j]).0 by {
        if at < list.len() {
            if i == at {
                assert(list[at].0 != list[j].0);
            } else if j == at {
                assert(list[i].0 != list[at].0);
            } else {
                assert(list[i].0 != list[j].0);
            }
        } else {
            if j == at {
                assert(list[i].0 != name);
            } else {
                assert(list[i].0 != list[j].0);
            }
        }
    }
}

/// The headers that header lines give have unique names.
pub proof fn lemma_collected_unique(lines: Seq<Seq<char>>)
    ensures
        header_names_unique(collected(lines)),
    decreases lines.len(),
{
    if lines.len() > 0 {
        lemma_collected_unique(lines.drop_last());
        match parsed_header(lines.last()) {
            Ok((name, value)) => {
                lemma_with_header_unique(collected(lines.drop_last()), name, value);
            },
            Err(_) => {},
        }
    }
}

/// Sets a header in a list: replaces the value of the first header of that
/// name, or adds the header at the end.
pub fn set_header(list: &mut Vec<(String, String)>, name: String, value: String)
    ensures
        pair_views(final(list)@) == with_header(pair_views(old(list)@), name@, value@),
{
    let ghost before = pair_views(list@);
    let mut i: usize = 0;
    while i < list.len()
        invariant
            i <= list.len(),
            *list == *old(list),
            before == pair_views(list@),
            forall|k: int| 0 <= k < i ==> (#[trigger] before[k]).0 != name@,
        decreases list.len() - i,
    {
        if crate::text::str_equal(list[i].0.as_str(), name.as_str()) {
            proof {
                assert(before[i as int].0 == name@);
                lemma_position_is_first(before, name@, i as int);
            }
            list.set(i, (name, value));
            assert(pair_views(list@) =~= before.update(i as int, (name@, value@)));
            return ;
        }
        i = i + 1;
    }
    proof {
        lemma_position_is_first(before, name@, list.len() as int);
    }
    list.push((name, value));
    assert(pair_views(list@) =~= before.push((name@, value@)));
}

/// The default headers of a client, from header lines.
pub fn collect_headers(lines: &Vec<String>) -> (headers: Vec<(String, String)>)
    ensures
        pair_views(headers@) == collected(views(lines@)),
{
    let mut headers: Vec<(String, String)> = Vec::new();
    let mut i: usize = 0;
    assert(views(lines@).take(0) =~= Seq::<Seq<char>>::empty());
    assert(pair_views(headers@) =~= Seq::<HeaderPair>::empty());
    while i < lines.len()
        invariant
            i <= lines.len(),
            pair_views(headers@) == collected(views(lines@).take(i as int)),
        decreases lines.len() - i,
    {
        let ghost before = views(lines@).take(i as int);
        let ghost after = views(lines@).take(i + 1);
        assert(after.drop_last() =~= before);
        assert(after.last() == lines@[i as int]@);
        match parse_header(lines[i].as_str()) {
            Ok((name, value)) => {
                set_header(&mut headers, name, value);
            },
            Err(_) => {},
        }
        i = i + 1;
    }
    assert(views(lines@).take(lines.len() as int) =~= views(lines@));
    headers
}

/// What a client is built from.
#[derive(Debug)]
pub struct ClientSettings {
    pub redirect: RedirectPolicy,
    /// The bound on the connection attempt, in seconds.
    pub connect_timeout: u64,
    /// The bound on the duration of a whole request, in seconds, if any.
    pub total_timeout: Option<u64>,
    /// The default headers: names in small letters, none twice.
    pub headers: Vec<(String, String)>,
}

/// The redirect policy of a client: none, or at most ten hops.
pub open spec fn redirect_policy(follow_redirects: bool) -> RedirectPolicy {
    if follow_redirects {
        RedirectPolicy::Limited(MAX_REDIRECTS)
    } else {
        RedirectPolicy::Never
    }
}

/// The settings of a client. The alternate protocol is not part of this
/// build: asking for it fails. A header line that is no header is skipped.
pub fn client_settings(
    follow_redirects: bool,
    connect_timeout: u64,
    http3: bool,
    headers: &Vec<String>,
    client_type: ClientType,
) -> (r: Result<ClientSettings, TransferError>)
    ensures
        http3 <==> r is Err,
        r matches Err(e) ==> e == TransferError::UnsupportedFeature,
        r matches Ok(settings) ==> {
            &&& settings.redirect == redirect_policy(follow_redirects)
            &&& settings.connect_timeout == connect_timeout
            &&& settings.total_timeout == client_type.total_timeout_spec()
            &&& pair_views(settings.headers@) == collected(views(headers@))
            &&& header_names_unique(pair_views(settings.headers@))
        },
{
    proof {
        lemma_collected_unique(views(headers@));
    }
    if http3 {
        return Err(TransferError::UnsupportedFeature);
    }
    let redirect = if follow_redirects {
        RedirectPolicy::Limited(MAX_REDIRECTS)
    } else {
        RedirectPolicy::Never
    };
    Ok(
        ClientSettings {
            redirect,
            connect_timeout,
            total_timeout: client_type.total_timeout(),
            headers: collect_headers(headers),
        },
    )
}

} // verus!
