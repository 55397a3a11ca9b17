use surf::client::{
    client_settings, collect_headers, parse_header, set_header, ClientType, HeaderError,
    RedirectPolicy, DEFAULT_CONNECT_TIMEOUT, MAX_REDIRECTS,
};
use surf::error::TransferError;

fn pair(a: &str, b: &str) -> (String, String) {
    (a.to_string(), b.to_string())
}

#[test]
fn header_line_is_split_trimmed_and_lowered() {
    assert_eq!(
        parse_header("Authorization:  Bearer abc:def  "),
        Ok(pair("authorization", "Bearer abc:def"))
    );
    assert_eq!(parse_header(" X-Api-Key :k"), Ok(pair("x-api-key", "k")));
    assert_eq!(parse_header("a:"), Ok(pair("a", "")));
}

#[test]
fn header_line_errors() {
    assert_eq!(parse_header("no colon here"), Err(HeaderError::MissingColon));
    assert_eq!(parse_header(""), Err(HeaderError::MissingColon));
    assert_eq!(parse_header(": value"), Err(HeaderError::InvalidName));
    assert_eq!(parse_header("bad name: value"), Err(HeaderError::InvalidName));
    assert_eq!(parse_header("na(me: value"), Err(HeaderError::InvalidName));
    assert_eq!(parse_header("name: line\nbreak"), Err(HeaderError::InvalidValue));
    assert_eq!(parse_header("name: del\u{7f}"), Err(HeaderError::InvalidValue));
}

#[test]
fn header_values_may_hold_tabs_and_text_beyond_ascii() {
    assert_eq!(parse_header("name: a\tb"), Ok(pair("name", "a\tb")));
    assert_eq!(parse_header("name: grüß"), Ok(pair("name", "grüß")));
    assert_eq!(parse_header("näme: x"), Err(HeaderError::InvalidName));
}

#[test]
fn header_names_have_a_longest_length() {
    let longest = "a".repeat(65535);
    let line = format!("{}: v", longest);
    assert_eq!(parse_header(&line), Ok((longest.clone(), "v".to_string())));
    let too_long = format!("{}a: v", longest);
    assert_eq!(parse_header(&too_long), Err(HeaderError::InvalidName));
}

#[test]
fn every_token_character_is_taken() {
    let line = "!#$%&'*+-.^_`|~09AZaz: ok";
    assert_eq!(parse_header(line), Ok(pair("!#$%&'*+-.^_`|~09azaz", "ok")));
    for c in ['"', '(', ')', ',', '/', ';', '<', '=', '>', '?', '@', '[', '\\', ']', '{', '}'] {
        let line = format!("a{}b: v", c);
        assert_eq!(parse_header(&line), Err(HeaderError::InvalidName), "{c}");
    }
}

#[test]
fn set_header_replaces_or_appends() {
    let mut list = vec![pair("a", "1"), pair("b", "2")];
    set_header(&mut list, "b".to_string(), "3".to_string());
    assert_eq!(list, vec![pair("a", "1"), pair("b", "3")]);
    set_header(&mut list, "c".to_string(), "4".to_string());
    assert_eq!(list, vec![pair("a", "1"), pair("b", "3"), pair("c", "4")]);
}

#[test]
fn malformed_headers_are_skipped_and_later_ones_win() {
    let lines = vec![
        "Accept: text/html".to_string(),
        "broken".to_string(),
        "X-One: 1".to_string(),
        "accept: */*".to_string(),
        "bad name: x".to_string(),
    ];
    assert_eq!(collect_headers(&lines), vec![pair("accept", "*/*"), pair("x-one", "1")]);
    assert_eq!(collect_headers(&vec![]), vec![]);
}

#[test]
fn total_timeout_depends_on_the_client_type() {
    assert_eq!(ClientType::Get.total_timeout(), Some(300));
    assert_eq!(ClientType::Download.total_timeout(), None);
    assert_eq!(ClientType::Benchmark.total_timeout(), Some(60));
}

#[test]
fn settings_of_a_download_client() {
    let s = client_settings(true, DEFAULT_CONNECT_TIMEOUT, false, &vec![], ClientType::Download)
        .unwrap();
    assert_eq!(s.redirect, RedirectPolicy::Limited(10));
    assert_eq!(MAX_REDIRECTS, 10);
    assert_eq!(s.connect_timeout, 10);
    assert_eq!(s.total_timeout, None);
    assert!(s.headers.is_empty());
}

#[test]
fn settings_of_a_get_client() {
    let lines = vec!["User-Agent: surf/0.2.1".to_string(), "oops".to_string()];
    let s = client_settings(false, 7, false, &lines, ClientType::Get).unwrap();
    assert_eq!(s.redirect, RedirectPolicy::Never);
    assert_eq!(s.connect_timeout, 7);
    assert_eq!(s.total_timeout, Some(300));
    assert_eq!(s.headers, vec![pair("user-agent", "surf/0.2.1")]);
}

#[test]
fn the_alternate_protocol_is_unsupported() {
    for client_type in [ClientType::Get, ClientType::Download, ClientType::Benchmark] {
        let r = client_settings(true, 5, true, &vec![], client_type);
        assert_eq!(r.err(), Some(TransferError::UnsupportedFeature));
    }
}
