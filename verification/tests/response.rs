use surf::response::{
    assemble_response, classify_json, find_header, preferred, status_ink, status_text, BodyKind,
    Ink, ResponseAnalyzer, ResponseFormatter,
};

fn header(name: &str, value: Option<&str>) -> (String, Option<String>) {
    (name.to_string(), value.map(|v| v.to_string()))
}

fn pair(a: &str, b: &str) -> (String, String) {
    (a.to_string(), b.to_string())
}

#[test]
fn formatter_defaults() {
    assert_eq!(
        ResponseFormatter::default(),
        ResponseFormatter { colorize: true, format_json: true, format_xml: false }
    );
    assert_eq!(
        ResponseFormatter::new(false, true, true),
        ResponseFormatter { colorize: false, format_json: true, format_xml: true }
    );
}

#[test]
fn status_colours() {
    assert_eq!(status_ink(200), Some(Ink::Green));
    assert_eq!(status_ink(299), Some(Ink::Green));
    assert_eq!(status_ink(301), None);
    assert_eq!(status_ink(404), Some(Ink::Yellow));
    assert_eq!(status_ink(503), Some(Ink::Red));
    assert_eq!(status_ink(600), None);
    assert_eq!(status_ink(100), None);
}

#[test]
fn status_texts() {
    assert_eq!(status_text(200, Some("OK")), "200 OK");
    assert_eq!(status_text(799, None), "799 Unknown");
}

#[test]
fn status_line_without_colours() {
    let f = ResponseFormatter::new(false, true, false);
    assert_eq!(f.format_status_line("HTTP/1.1", 404, Some("Not Found")), "HTTP/1.1 404 Not Found");
    assert_eq!(f.format_status_line("HTTP/2.0", 799, None), "HTTP/2.0 799 Unknown");
}

#[test]
fn status_line_with_colours() {
    colored::control::set_override(true);
    let f = ResponseFormatter::new(true, true, false);
    assert_eq!(
        f.format_status_line("HTTP/1.1", 200, Some("OK")),
        "\u{1b}[34mHTTP/1.1\u{1b}[0m \u{1b}[32m200 OK\u{1b}[0m"
    );
    assert_eq!(
        f.format_status_line("HTTP/1.1", 404, Some("Not Found")),
        "\u{1b}[34mHTTP/1.1\u{1b}[0m \u{1b}[33m404 Not Found\u{1b}[0m"
    );
    assert_eq!(
        f.format_status_line("HTTP/1.1", 500, None),
        "\u{1b}[34mHTTP/1.1\u{1b}[0m \u{1b}[31m500 Unknown\u{1b}[0m"
    );
    assert_eq!(
        f.format_status_line("HTTP/1.1", 302, Some("Found")),
        "\u{1b}[34mHTTP/1.1\u{1b}[0m 302 Found"
    );
}

#[test]
fn headers_without_colours() {
    let f = ResponseFormatter::new(false, true, false);
    let headers = vec![header("content-type", Some("text/html")), header("x-bin", None)];
    assert_eq!(f.format_headers(&headers), "content-type: text/html\nx-bin: <invalid>\n");
    assert_eq!(f.format_headers(&vec![]), "");
}

#[test]
fn headers_with_colours() {
    colored::control::set_override(true);
    let f = ResponseFormatter::new(true, true, false);
    let headers = vec![header("a", Some("b"))];
    assert_eq!(f.format_headers(&headers), "\u{1b}[36ma: b\u{1b}[0m\n");
}

#[test]
fn body_kinds() {
    let f = ResponseFormatter::new(false, true, true);
    assert_eq!(f.body_kind("x", Some("application/json; charset=utf-8")), BodyKind::Json);
    assert_eq!(f.body_kind("x", Some("text/xml")), BodyKind::Xml);
    assert_eq!(f.body_kind("x", Some("text/html")), BodyKind::Xml);
    assert_eq!(f.body_kind("  \n{\"a\":1}", Some("text/plain")), BodyKind::JsonLike);
    assert_eq!(f.body_kind("[1]", None), BodyKind::JsonLike);
    assert_eq!(f.body_kind("x{", None), BodyKind::Plain);
    assert_eq!(f.body_kind("", None), BodyKind::Plain);
    assert_eq!(f.body_kind("   ", None), BodyKind::Plain);
    let plain = ResponseFormatter::new(false, false, false);
    assert_eq!(plain.body_kind("{}", Some("application/json")), BodyKind::Plain);
    assert_eq!(plain.body_kind("<a/>", Some("text/xml")), BodyKind::Plain);
    let json_only = ResponseFormatter::new(false, true, false);
    assert_eq!(json_only.body_kind("<a/>", Some("text/xml")), BodyKind::Plain);
    assert_eq!(json_only.body_kind("{", Some("text/xml")), BodyKind::JsonLike);
}

#[test]
fn json_bodies_are_written_out() {
    let f = ResponseFormatter::new(false, true, false);
    assert_eq!(
        f.format_body("{\"b\":1,\"a\":[true,null]}", Some("application/json")),
        "{\n  \"a\": [\n    true,\n    null\n  ],\n  \"b\": 1\n}"
    );
    assert_eq!(f.format_body("[1, 2]", None), "[\n  1,\n  2\n]");
    assert_eq!(f.format_json_content("7"), "7");
}

#[test]
fn bodies_that_are_no_json_stay_as_they_are() {
    let f = ResponseFormatter::new(false, true, true);
    assert_eq!(f.format_body("not json", Some("application/json")), "not json");
    assert_eq!(f.format_body("{broken", None), "{broken");
    assert_eq!(f.format_body("<a>  </a>", Some("text/xml")), "<a>  </a>");
    assert_eq!(f.format_body("plain", Some("text/plain")), "plain");
    assert_eq!(f.format_body("plain", None), "plain");
    assert_eq!(f.format_xml_content(" <a/> "), " <a/> ");
    assert_eq!(f.format_json_content("{oops"), "{oops");
}

#[test]
fn preferred_text() {
    assert_eq!(preferred("{}", "{\n}".to_string()), "{\n}");
    assert_eq!(preferred("{}", "{}".to_string()), "{}");
    assert_eq!(preferred("{}", String::new()), "{}");
}

#[test]
fn json_or_content_choice() {
    let f = ResponseFormatter::new(false, true, false);
    assert_eq!(f.json_or_content("raw", None), "raw");
    assert_eq!(f.json_or_content("raw", Some("pretty".to_string())), "pretty");
}

#[test]
fn json_characters_are_classified() {
    let g = Some(Ink::Green);
    let y = Some(Ink::Yellow);
    assert_eq!(
        classify_json("{\"a\\\"b\": [1,2]}"),
        vec![
            y,
            g,
            g,
            None,
            None,
            g,
            g,
            Some(Ink::Blue),
            None,
            y,
            None,
            Some(Ink::White),
            None,
            y,
            y
        ]
    );
    assert_eq!(classify_json(""), vec![]);
    assert_eq!(classify_json("\\\""), vec![None, g]);
    assert_eq!(classify_json("\":,\""), vec![g, g, g, g]);
}

#[test]
fn json_without_colours_is_unchanged() {
    let f = ResponseFormatter::new(false, true, false);
    let text = "{\n  \"ä\": \"x\\\"y\"\n}";
    assert_eq!(f.colorize_json(text), text);
}

#[test]
fn json_with_colours() {
    colored::control::set_override(true);
    let f = ResponseFormatter::new(true, true, false);
    assert_eq!(
        f.colorize_json("{\"a\":1}"),
        "\u{1b}[33m{\u{1b}[0m\u{1b}[32m\"\u{1b}[0m\u{1b}[32ma\u{1b}[0m\u{1b}[32m\"\u{1b}[0m\
         \u{1b}[34m:\u{1b}[0m1\u{1b}[33m}\u{1b}[0m"
    );
    assert_eq!(f.colorize_json("1,2"), "1\u{1b}[37m,\u{1b}[0m2");
}

#[test]
fn colours_can_be_switched_off_outside() {
    colored::control::set_override(false);
    let f = ResponseFormatter::new(true, true, false);
    assert_eq!(f.colorize_json("{\"a\":1}"), "{\"a\":1}");
    assert_eq!(f.format_status_line("HTTP/1.1", 200, Some("OK")), "HTTP/1.1 200 OK");
}

#[test]
fn a_response_is_assembled() {
    assert_eq!(assemble_response("HTTP/1.1 200 OK", "a: b\n", "body"), "HTTP/1.1 200 OK\na: b\n\nbody");
}

#[test]
fn headers_are_found_by_name() {
    let headers = vec![header("a", Some("1")), header("b", None), header("a", Some("2"))];
    assert_eq!(find_header(&headers, "a"), Some(&header("a", Some("1"))));
    assert_eq!(find_header(&headers, "b"), Some(&header("b", None)));
    assert_eq!(find_header(&headers, "c"), None);
}

#[test]
fn analysis_of_headers() {
    let headers = vec![
        header("server", Some("nginx")),
        header("x-frame-options", Some("DENY")),
        header("cache-control", None),
    ];
    assert_eq!(
        ResponseAnalyzer::analyze_headers(&headers),
        vec![
            pair("security.strict-transport-security", "missing"),
            pair("security.content-security-policy", "missing"),
            pair("security.x-frame-options", "present"),
            pair("security.x-content-type-options", "missing"),
            pair("security.x-xss-protection", "missing"),
            pair("server.type", "nginx"),
            pair("cache.control", "unknown"),
        ]
    );
    assert_eq!(ResponseAnalyzer::analyze_headers(&vec![]).len(), 5);
}

#[test]
fn summary_of_a_response() {
    let headers = vec![header("server", Some("nginx"))];
    assert_eq!(
        ResponseAnalyzer::get_response_summary(200, Some("OK"), &headers, 1234, 56),
        "Status: 200 OK | Size: 1234 bytes | Time: 56ms | Server: nginx"
    );
    assert_eq!(
        ResponseAnalyzer::get_response_summary(799, None, &vec![], 0, 0),
        "Status: 799 <unknown status code> | Size: 0 bytes | Time: 0ms | Server: unknown"
    );
    assert_eq!(
        ResponseAnalyzer::get_response_summary(200, Some("OK"), &vec![header("server", None)], 1, 2),
        "Status: 200 OK | Size: 1 bytes | Time: 2ms | Server: unknown"
    );
}
