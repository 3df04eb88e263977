use gatherers::cookies::Cookie;

#[test]
fn cookie_parse_reads_keys_and_values() {
    let c = Cookie::parse("sess=abc; lang = en ;theme=dark").unwrap();
    assert_eq!(c.get("sess"), "abc");
    assert_eq!(c.get("lang"), "en");
    assert_eq!(c.get("theme"), "dark");
}

#[test]
fn cookie_get_missing_key_is_empty() {
    let c = Cookie::parse("a=1").unwrap();
    assert_eq!(c.get("b"), "");
    assert_eq!(Cookie::new().get("a"), "");
}

#[test]
fn cookie_crumb_without_value_is_true() {
    let c = Cookie::parse("secure; a=1").unwrap();
    assert_eq!(c.get("secure"), "true");
    assert_eq!(c.get("a"), "1");
}

#[test]
fn cookie_later_value_wins() {
    let c = Cookie::parse("a=1; b=2; a=3").unwrap();
    assert_eq!(c.get("a"), "3");
    assert_eq!(c.get("b"), "2");
    assert_eq!(c.to_header(), "a=3; b=2");
}

#[test]
fn cookie_value_stops_at_second_equals() {
    let c = Cookie::parse("tok=ab=cd").unwrap();
    assert_eq!(c.get("tok"), "ab");
}

#[test]
fn cookie_empty_input_has_empty_key() {
    let c = Cookie::parse("").unwrap();
    assert_eq!(c.get(""), "true");
    assert_eq!(c.to_header(), "=true");
}

#[test]
fn cookie_header_of_new_cookie_is_empty() {
    assert_eq!(Cookie::new().to_header(), "");
}

#[test]
fn cookie_header_parses_back_to_same_cookie() {
    let c = Cookie::parse(" x = 1 ;y=two; flag").unwrap();
    let header = c.to_header();
    assert_eq!(header, "x=1; y=two; flag=true");
    let again = Cookie::parse(&header).unwrap();
    for key in ["x", "y", "flag", "missing"] {
        assert_eq!(again.get(key), c.get(key));
    }
    assert_eq!(again.to_header(), header);
}

#[test]
fn cookie_default_and_string() {
    let c = Cookie::default();
    assert_eq!(c.get("a"), "");
    assert_eq!(String::from(c), "");
    let c = Cookie::parse("a=1; b=2").unwrap();
    let s: String = c.into();
    assert_eq!(s, "a=1; b=2");
}
