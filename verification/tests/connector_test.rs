use cruler::collections::StringMap;
use cruler::connector::connector_utils::ConnectorUtils;
use cruler::connector::{Connector, HeaderContentType};
use cruler::http::{is_sliceable, Method, Raw, Request, Response, Uri};
use std::collections::VecDeque;

#[test]
fn request_count_test() {
    let google_request = Request::new(Method::Get, "http://google.com".parse().unwrap());
    let naver_request = Request::new(Method::Get, "http://naver.com".parse().unwrap());
    let daum_request = Request::new(Method::Get, "http://daum.net".parse().unwrap());

    let mut conn = Connector::new();
    conn.add_request(google_request);
    conn.add_request(naver_request);
    let request_count = conn.get_requests_count();
    assert_eq!(2, request_count);

    conn.add_request(daum_request);
    let request_count = conn.get_requests_count();
    assert_eq!(3, request_count);

    conn.clear_requests();
    let request_count = conn.get_requests_count();
    assert_eq!(0, request_count);
}

fn get(url: &str) -> Request {
    Request::new(Method::Get, Uri::parse(url).unwrap())
}

#[test]
fn requests_leave_in_the_order_in_which_they_came() {
    let mut conn = Connector::new();
    conn.add_request(get("http://a/1"));
    let mut more = VecDeque::new();
    more.push_back(get("http://a/2"));
    more.push_back(get("http://a/3"));
    conn.add_requests(&mut more);
    assert!(more.is_empty());
    conn.add_request(get("http://a/4"));
    assert_eq!(conn.request_urls(), vec!["http://a/1", "http://a/2", "http://a/3", "http://a/4"]);
    assert_eq!(conn.requests().len(), 4);
    let batch = conn.take_requests();
    assert_eq!(conn.get_requests_count(), 0);
    assert!(conn.request_urls().is_empty());
    let urls: Vec<&str> = batch.iter().map(|r| r.uri().as_str()).collect();
    assert_eq!(urls, vec!["http://a/1", "http://a/2", "http://a/3", "http://a/4"]);
    assert!(conn.take_requests().is_empty());
}

fn response(content_type: Option<Vec<&str>>) -> Response {
    Response {
        content_type: content_type
            .map(|lines| Raw::new(lines.iter().map(|l| l.as_bytes().to_vec()).collect())),
        set_cookie: None,
        body: Vec::new(),
    }
}

#[test]
fn content_type_is_read_off_the_header() {
    match Connector::get_content_type(&response(Some(vec!["image/png"]))) {
        HeaderContentType::Image(format) => assert_eq!(format, "png"),
        other => panic!("an image was expected, not {:?}", other),
    }
    match Connector::get_content_type(&response(Some(vec!["text/html"]))) {
        HeaderContentType::Text(format) => assert_eq!(format, "html"),
        other => panic!("a text was expected, not {:?}", other),
    }
    match Connector::get_content_type(&response(None)) {
        HeaderContentType::Others(value) => assert_eq!(value, "no content-type"),
        other => panic!("no type was expected, not {:?}", other),
    }
    match Connector::get_content_type(&response(Some(vec!["text/html", "text/xml"]))) {
        HeaderContentType::Others(value) => assert_eq!(value, "content-type is more than 2"),
        other => panic!("no type was expected, not {:?}", other),
    }
    match Connector::get_content_type(&response(Some(vec![]))) {
        HeaderContentType::Others(value) => assert_eq!(value, "unknown"),
        other => panic!("no type was expected, not {:?}", other),
    }
    match Connector::get_content_type(&response(Some(vec!["application/json"]))) {
        HeaderContentType::Others(value) => assert_eq!(value, "application/json"),
        other => panic!("another type was expected, not {:?}", other),
    }
}

#[test]
fn content_type_format_ends_at_the_next_slash() {
    match HeaderContentType::from_str("text/html; charset=utf-8") {
        HeaderContentType::Text(format) => assert_eq!(format, "html; charset=utf-8"),
        other => panic!("a text was expected, not {:?}", other),
    }
    match HeaderContentType::from_str("image/svg+xml/extra") {
        HeaderContentType::Image(format) => assert_eq!(format, "svg+xml"),
        other => panic!("an image was expected, not {:?}", other),
    }
    assert_eq!(HeaderContentType::get_image_format("image/jpeg"), "jpeg");
    assert_eq!(HeaderContentType::get_text_format("text/"), "");
}

#[test]
fn unreadable_content_types_are_told_apart() {
    assert!(HeaderContentType::has_format("image/png"));
    assert!(HeaderContentType::has_format("application"));
    assert!(!HeaderContentType::has_format("image"));
    assert!(!HeaderContentType::has_format("textual"));
    assert!(Connector::has_readable_content_type(&response(Some(vec!["text/html"]))));
    assert!(Connector::has_readable_content_type(&response(None)));
    assert!(Connector::has_readable_content_type(&response(Some(vec!["image", "text"]))));
    assert!(!Connector::has_readable_content_type(&response(Some(vec!["image"]))));
    let broken = Response {
        content_type: Some(Raw::new(vec![vec![0xff, 0xfe]])),
        set_cookie: None,
        body: Vec::new(),
    };
    assert!(!Connector::has_readable_content_type(&broken));
}

#[test]
fn cookies_of_a_response_are_copied() {
    let with = Response {
        content_type: None,
        set_cookie: Some(Raw::new(vec![b"a=1".to_vec()])),
        body: Vec::new(),
    };
    assert_eq!(Connector::get_raw_cookies(&with).unwrap().lines, vec![b"a=1".to_vec()]);
    assert!(Connector::get_raw_cookies(&response(None)).is_none());
}

#[test]
fn query_map_keeps_the_pairs_in_order() {
    let map = ConnectorUtils::make_query_map("b=2&a=1&b=3=x");
    assert_eq!(map.len(), 2);
    assert_eq!(map.key_at(0), "b");
    assert_eq!(map.value_at(0), "3");
    assert_eq!(map.key_at(1), "a");
    assert_eq!(map.get("a").unwrap(), "1");
    assert!(map.get("c").is_none());
    assert_eq!(ConnectorUtils::make_raw_query_from_map(map), "b=3&a=1");
    assert_eq!(ConnectorUtils::make_raw_query_from_map(StringMap::new()), "");
}

#[test]
fn queries_without_pairs_are_told_apart() {
    assert!(ConnectorUtils::is_well_formed_query("a=1&b=2"));
    assert!(ConnectorUtils::is_well_formed_query("a="));
    assert!(!ConnectorUtils::is_well_formed_query(""));
    assert!(!ConnectorUtils::is_well_formed_query("a=1&b"));
    assert!(!ConnectorUtils::is_well_formed_query("a=1&"));
}

#[test]
fn query_value_is_found_by_its_key() {
    let uri = Uri::parse("http://h/p?titleId=20&page=7").unwrap();
    assert_eq!(ConnectorUtils::get_query_value(&uri, "page"), Some("7".to_string()));
    assert_eq!(ConnectorUtils::get_query_value(&uri, "titleId"), Some("20".to_string()));
    assert_eq!(ConnectorUtils::get_query_value(&uri, "no"), None);
    let plain = Uri::parse("http://h/p").unwrap();
    assert_eq!(ConnectorUtils::get_query_value(&plain, "page"), None);
}

#[test]
fn uri_is_built_from_its_parts() {
    let uri = ConnectorUtils::build_uri(Some("http"), Some("h:80"), "/p", Some("a=1"), None);
    assert_eq!(uri.as_str(), "http://h:80/p?a=1");
    let relative = ConnectorUtils::build_uri(None, None, "/p", None, None);
    assert_eq!(relative.as_str(), "/p");
    assert_eq!(
        ConnectorUtils::uri_text(Some("s"), Some("a"), "/p", Some("q"), Some("f")),
        "s://a/p?q#f"
    );
    assert!(ConnectorUtils::try_build_uri(None, None, "", None, None).is_none());
    assert!(ConnectorUtils::try_build_uri(None, None, "/x", None, None).is_some());
}

#[test]
fn query_is_added_to_a_uri() {
    let mut add = StringMap::new();
    add.insert("page".to_string(), "1".to_string());
    let uri = Uri::parse("http://h/list?titleId=20").unwrap();
    let rebuilt = ConnectorUtils::rebuild_uri_for_adding_query(&uri, add);
    assert_eq!(rebuilt.as_str(), "http://h/list?titleId=20&page=1");
    let mut replace = StringMap::new();
    replace.insert("a".to_string(), "9".to_string());
    let uri = Uri::parse("http://h/list?a=1&b=2#frag").unwrap();
    let rebuilt = ConnectorUtils::rebuild_uri_for_adding_query(&uri, replace);
    assert_eq!(rebuilt.as_str(), "http://h/list?a=9&b=2");
}

#[test]
fn uri_is_taken_apart() {
    let uri = Uri::parse("https://user@example.com:8443/a/b?x=1#top").unwrap();
    assert_eq!(uri.scheme().unwrap(), "https");
    assert_eq!(uri.authority().unwrap(), "user@example.com:8443");
    assert_eq!(uri.path(), "/a/b");
    assert_eq!(uri.query().unwrap(), "x=1");
    assert_eq!(uri.port(), Some(8443));
    assert!(uri.host_is_defined());
    assert_eq!(uri.host(), Some("example.com".to_string()));
    assert!(uri.is_absolute());
    let origin = Uri::parse("/a?b").unwrap();
    assert!(!origin.is_absolute());
    assert!(origin.authority().is_none());
    assert_eq!(origin.host(), None);
    assert_eq!(Uri::parse("http://h").unwrap().as_str(), "http://h/");
    assert!(Uri::parse("").is_none());
    assert!(Uri::parse("http://").is_none());
    assert!("a/b".parse::<Uri>().is_err());
    assert!(!Uri::parse("user@").unwrap().host_is_defined());
    assert!(!Uri::parse("[abc").unwrap().host_is_defined());
    assert_eq!(Uri::parse("http://[::1]:80/").unwrap().host(), Some("::1".to_string()));
    assert_eq!(uri.clone().as_str(), uri.as_str());
}

#[test]
fn texts_that_cannot_be_cut_at_the_authority_are_no_targets() {
    assert!(!is_sliceable("a:\u{20ac}://b"));
    assert!(Uri::parse("a:\u{20ac}://b").is_none());
    assert!("a:\u{20ac}://b".parse::<Uri>().is_err());
    assert!(!is_sliceable("a:x\u{e9}://b"));
    assert!(!is_sliceable("a:\u{1f600}//://b"));
    assert!(is_sliceable(""));
    assert!(is_sliceable("/a:\u{20ac}://b"));
    assert!(is_sliceable("a:\u{20ac}x"));
    assert!(is_sliceable("http://h/\u{20ac}"));
    assert!(is_sliceable("a:\u{e9}//b://c"));
    assert!(is_sliceable("a:xy://b"));
}

#[test]
fn texts_beyond_ascii_are_parsed_where_hyper_takes_them() {
    let uri = Uri::parse("http://h/\u{e9}?q=\u{20ac}").unwrap();
    assert_eq!(uri.path(), "/\u{e9}");
    assert_eq!(uri.query().unwrap(), "q=\u{20ac}");
    assert_eq!(uri.host(), Some("h".to_string()));
    let origin = Uri::parse("/a:\u{20ac}://b").unwrap();
    assert!(!origin.is_absolute());
    let odd = Uri::parse("a:\u{e9}//b://c").unwrap();
    assert_eq!(odd.scheme().unwrap(), "a");
    assert_eq!(odd.authority().unwrap(), "//b://c");
    let plain = Uri::parse("a:xy://b").unwrap();
    assert_eq!(plain.authority().unwrap(), "://b");
}

#[test]
fn host_is_read_off_the_authority() {
    assert_eq!(Uri::parse("http://u:p@h.example:80/x").unwrap().host(), Some("h.example".to_string()));
    assert_eq!(Uri::parse("http://a@b@c/x").unwrap().host(), Some("c".to_string()));
    assert_eq!(Uri::parse("http://[::1]/x").unwrap().host(), Some("::1".to_string()));
    assert_eq!(Uri::parse("http://[a]b]:1/x").unwrap().host(), Some("a".to_string()));
    assert_eq!(Uri::parse("example.com:80").unwrap().host(), Some("example.com".to_string()));
    assert_eq!(Uri::parse("*").unwrap().host(), None);
}

#[test]
fn a_query_with_distinct_keys_comes_back_as_it_was() {
    for raw in ["a=1", "a=1&b=2", "titleId=20&page=7&x="] {
        let map = ConnectorUtils::make_query_map(raw);
        assert_eq!(ConnectorUtils::make_raw_query_from_map(map), raw);
    }
}
