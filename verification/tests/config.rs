use surf::config::{
    header_lines, overlay_headers, split_header_line, Config, ConfigError, Profile,
};

fn pair(a: &str, b: &str) -> (String, String) {
    (a.to_string(), b.to_string())
}

fn profile(name: &str, timeout: Option<u64>) -> Profile {
    Profile {
        name: name.to_string(),
        base_url: None,
        headers: vec![],
        timeout,
        follow_redirects: false,
    }
}

#[test]
fn default_configuration() {
    let c = Config::default();
    assert_eq!(c.default_timeout, 30);
    assert_eq!(c.default_user_agent, "surf/0.2.1");
    assert_eq!(c.max_redirects, 10);
    assert_eq!(c.default_headers, vec![pair("User-Agent", "surf/0.2.1")]);
    assert!(c.profiles.is_empty());
}

#[test]
fn profiles_are_added_found_and_removed() {
    let mut c = Config::default();
    assert!(c.get_profile("a").is_none());
    c.add_profile(profile("a", Some(1)));
    c.add_profile(profile("b", None));
    assert_eq!(c.get_profile("a").unwrap().timeout, Some(1));
    assert_eq!(c.get_profile("b").unwrap().timeout, None);
    assert!(c.get_profile("A").is_none());
    c.add_profile(profile("a", Some(9)));
    assert_eq!(c.profiles.len(), 2);
    assert_eq!(c.profiles[0].name, "a");
    assert_eq!(c.get_profile("a").unwrap().timeout, Some(9));
    assert!(c.remove_profile("a"));
    assert!(!c.remove_profile("a"));
    assert!(c.get_profile("a").is_none());
    assert_eq!(c.profiles.len(), 1);
    assert_eq!(c.profiles[0].name, "b");
}

#[test]
fn profile_timeout_falls_back_to_the_default() {
    let c = Config::default();
    assert_eq!(c.profile_timeout(&profile("a", Some(5))), 5);
    assert_eq!(c.profile_timeout(&profile("a", None)), 30);
}

#[test]
fn setting_values() {
    let mut c = Config::default();
    assert_eq!(c.set_value("timeout", "45"), Ok(true));
    assert_eq!(c.default_timeout, 45);
    assert_eq!(c.set_value("max_redirects", "3"), Ok(true));
    assert_eq!(c.max_redirects, 3);
    assert_eq!(c.set_value("user_agent", "me/1.0"), Ok(true));
    assert_eq!(c.default_user_agent, "me/1.0");
    assert_eq!(c.default_headers, vec![pair("User-Agent", "me/1.0")]);
    assert_eq!(c.set_value("colour", "blue"), Ok(false));
    assert_eq!(c.default_timeout, 45);
}

#[test]
fn setting_a_number_that_cannot_be_read() {
    let mut c = Config::default();
    assert_eq!(c.set_value("timeout", "soon"), Err(ConfigError::InvalidNumber));
    assert_eq!(c.set_value("timeout", ""), Err(ConfigError::InvalidNumber));
    assert_eq!(c.set_value("max_redirects", "-1"), Err(ConfigError::InvalidNumber));
    assert_eq!(
        c.set_value("max_redirects", "99999999999999999999999"),
        Err(ConfigError::InvalidNumber)
    );
    assert_eq!(c.default_timeout, 30);
    assert_eq!(c.max_redirects, 10);
}

#[test]
fn lines_are_split_at_the_first_colon() {
    assert_eq!(split_header_line("A: b:c"), Some(pair("A", "b:c")));
    assert_eq!(split_header_line("  A b  :  c  "), Some(pair("A b", "c")));
    assert_eq!(split_header_line(":"), Some(pair("", "")));
    assert_eq!(split_header_line("nothing"), None);
}

#[test]
fn lines_are_laid_over_the_defaults() {
    let defaults = vec![pair("User-Agent", "surf/0.2.1"), pair("Accept", "*/*")];
    let lines = vec![
        "Accept: text/html".to_string(),
        "skip me".to_string(),
        "X-One: 1".to_string(),
    ];
    let all = overlay_headers(&defaults, &lines);
    assert_eq!(
        all,
        vec![pair("User-Agent", "surf/0.2.1"), pair("Accept", "text/html"), pair("X-One", "1")]
    );
    assert_eq!(
        header_lines(&all),
        vec!["User-Agent: surf/0.2.1", "Accept: text/html", "X-One: 1"]
    );
    assert_eq!(overlay_headers(&vec![], &lines), vec![pair("Accept", "text/html"), pair("X-One", "1")]);
}
