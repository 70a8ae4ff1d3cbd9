use cruler::http::Raw;
use cruler::result::{ExtraInformKey, ReservedLabel, ResultHandler};

#[test]
fn key_test() {
    let source_url = ExtraInformKey::SourceUrl;
    assert_eq!("SourceUrl", source_url.to_string().as_str());
}

#[test]
fn get_abs_root_path_test() {
    let abs_path_input = Option::None;
    let name = "name";
    let req_index = 0;

    let rel_path = ResultHandler::get_abs_root_path(abs_path_input, name, req_index);
    assert_eq!("name/0/", rel_path.as_str());

    let abs_path_input = String::from("/root/path/");
    let abs_path = ResultHandler::get_abs_root_path(Some(&abs_path_input), name, req_index);
    assert_eq!("/root/path/name/0/", abs_path.as_str());
}

#[test]
fn abs_root_path_writes_the_index_in_base_ten() {
    let prefix = String::from("/r/");
    assert_eq!(ResultHandler::get_abs_root_path(Some(&prefix), "name", 0), "/r/name/0/");
    assert_eq!(ResultHandler::get_abs_root_path(None, "n", 9), "n/9/");
    assert_eq!(ResultHandler::get_abs_root_path(None, "n", 10), "n/10/");
    assert_eq!(ResultHandler::get_abs_root_path(None, "", 1205), "/1205/");
    assert_eq!(
        ResultHandler::get_abs_root_path(None, "n", usize::MAX),
        format!("n/{}/", usize::MAX)
    );
}

#[test]
fn extra_inform_key_reads_source_url_in_any_case() {
    assert!(matches!(ExtraInformKey::new("SourceUrl"), ExtraInformKey::SourceUrl));
    assert!(matches!(ExtraInformKey::new("sourceurl"), ExtraInformKey::SourceUrl));
    assert!(matches!(ExtraInformKey::new("SOURCEURL"), ExtraInformKey::SourceUrl));
    match ExtraInformKey::new("Other") {
        ExtraInformKey::Reserved(name) => assert_eq!(name, "Other"),
        ExtraInformKey::SourceUrl => panic!("a reserved key was expected"),
    }
    let parsed: ExtraInformKey = "sourceURL".parse().unwrap();
    assert_eq!(parsed.to_string(), "SourceUrl");
    assert_eq!(ExtraInformKey::Reserved("Mine".to_string()).to_string(), "Mine");
}

#[test]
fn reserved_labels_are_read_in_any_case_and_written_in_lower_case() {
    assert_eq!(ReservedLabel::parse("part"), Some(ReservedLabel::Part));
    assert_eq!(ReservedLabel::parse("STORE"), Some(ReservedLabel::Store));
    assert_eq!(ReservedLabel::parse("Collect"), Some(ReservedLabel::Collect));
    assert_eq!(ReservedLabel::parse("lInK"), Some(ReservedLabel::Link));
    assert_eq!(ReservedLabel::parse("type"), Some(ReservedLabel::Type));
    assert_eq!(ReservedLabel::parse("types"), None);
    assert_eq!("Part".parse::<ReservedLabel>(), Ok(ReservedLabel::Part));
    assert_eq!("x".parse::<ReservedLabel>(), Err("ReservedLabel error".to_string()));
    assert_eq!(ReservedLabel::Part.to_string(), "part");
    assert_eq!(ReservedLabel::Store.to_string(), "store");
    assert_eq!(ReservedLabel::Collect.to_string(), "collect");
    assert_eq!(ReservedLabel::Link.to_string(), "link");
    assert_eq!(ReservedLabel::Type.to_string(), "type");
}

#[test]
fn handler_keeps_results_and_extras() {
    let mut handler = ResultHandler::new(Some("root/".to_string()), None);
    assert!(handler.get_label_names().is_empty());
    assert!(handler.get_result("store").is_none());
    assert!(handler.get_raw_cookies().is_none());
    handler.insert_result("store", vec!["a".to_string(), "b".to_string()]);
    handler.insert_result("link", vec![]);
    handler.insert_result("store", vec!["c".to_string()]);
    assert_eq!(handler.get_label_names(), vec!["store".to_string(), "link".to_string()]);
    assert_eq!(handler.get_result("store").unwrap(), &vec!["c".to_string()]);
    assert!(handler.get_result("link").unwrap().is_empty());
    assert!(handler.get_result("Store").is_none());
    assert!(handler.get_extra_inform(ExtraInformKey::SourceUrl).is_none());
    handler.insert_extra_inform(ExtraInformKey::SourceUrl, "http://a/".to_string());
    handler.insert_extra_inform(ExtraInformKey::Reserved("k".to_string()), "v".to_string());
    handler.insert_extra_inform(ExtraInformKey::SourceUrl, "http://b/".to_string());
    assert_eq!(handler.get_extra_inform(ExtraInformKey::SourceUrl).unwrap(), "http://b/");
    assert_eq!(handler.get_extra_inform(ExtraInformKey::new("k")).unwrap(), "v");
    assert_eq!(handler.get_root_path().unwrap(), "root/");
}

#[test]
fn handler_hands_out_a_copy_of_its_cookies() {
    let cookies = Raw::new(vec![b"a=1".to_vec(), b"b=2".to_vec()]);
    let handler = ResultHandler::new(None, Some(cookies));
    let copy = handler.get_raw_cookies().unwrap();
    assert_eq!(copy.len(), 2);
    assert_eq!(copy.line(0), &b"a=1".to_vec());
    assert_eq!(copy.line(1), &b"b=2".to_vec());
}

fn handler_from(source_url: &str) -> ResultHandler {
    let mut handler = ResultHandler::new(None, None);
    handler.insert_extra_inform(ExtraInformKey::SourceUrl, source_url.to_string());
    handler
}

#[test]
fn relative_link_takes_scheme_host_and_port_of_the_source() {
    let handler = handler_from("http://h:8080/y");
    assert!(handler.can_make_requestable_uri("/x"));
    assert_eq!(handler.make_requestable_uri("/x").as_str(), "http://h:8080/x");
    let handler = handler_from("https://comic.naver.com/webtoon/list.nhn?titleId=1");
    assert_eq!(
        handler.make_requestable_uri("/webtoon/detail.nhn?no=2").as_str(),
        "https://comic.naver.com/webtoon/detail.nhn?no=2"
    );
}

#[test]
fn absolute_link_is_returned_as_it_is() {
    let handler = ResultHandler::new(None, None);
    let uri = handler.make_requestable_uri("http://other.example/a?b=c");
    assert_eq!(uri.as_str(), "http://other.example/a?b=c");
    assert!(uri.is_absolute());
    let with_source = handler_from("http://h:8080/y");
    assert_eq!(with_source.make_requestable_uri("http://a.b/c").as_str(), "http://a.b/c");
}

#[test]
fn a_bare_name_is_taken_for_a_host() {
    let handler = handler_from("http://h:8080/y");
    assert_eq!(
        handler.make_requestable_uri("page2.html").as_str(),
        "http://page2.html:8080page2.html/"
    );
}

#[test]
fn links_that_cannot_be_resolved_are_told_apart() {
    let without_source = ResultHandler::new(None, None);
    assert!(!without_source.can_make_requestable_uri("/x"));
    assert!(without_source.try_make_requestable_uri("/x").is_none());
    assert!(without_source.try_make_requestable_uri("http://a/").is_some());
    let handler = handler_from("http://h/y");
    assert!(!handler.can_make_requestable_uri(""));
    assert!(!handler.can_make_requestable_uri("a/b"));
    assert!(!handler.can_make_requestable_uri("user@"));
    assert!(handler.try_make_requestable_uri("/ok").is_some());
    let relative_source = handler_from("/only/a/path");
    assert!(!relative_source.can_make_requestable_uri("/x"));
    let bad_source = handler_from("");
    assert!(!bad_source.can_make_requestable_uri("/x"));
}
