use cruler::configure::{Configure, ConfigureError, ExtractorConfigure, RuleUtils};
use cruler::http::Raw;
use cruler::result::ExtraInformKey;

#[test]
fn find_labels_test() {
    let pattern = "<img[ \\t\\r\\n\\v\\f]*src=[\"](?P<store>[0-9a-zA-Z:/\\._\\?=&]*)[\"]";
    let labels = RuleUtils::find_labels(pattern);
    let first_label = labels[0].as_str();
    assert_eq!("store", first_label);
}

#[test]
fn get_matched_test() {
    let content = "<img src=\"http://monolev.com/\" title=\"monolev test\"";
    let pattern = "<img[ \\t\\r\\n\\v\\f]*src=[\"](?P<store>[0-9a-zA-Z:/\\._\\?=&]*)[\"]";
    let label_name = "store";
    let matched = RuleUtils::get_matched(content, pattern, label_name);
    let first_matched = matched[0].as_str();
    assert_eq!("http://monolev.com/", first_matched);
}

#[test]
fn find_labels_gives_every_group_in_order() {
    let labels = RuleUtils::find_labels("<img src=\"(?P<store>[^\"]+)\"");
    assert_eq!(labels, vec!["store".to_string()]);
    let labels = RuleUtils::find_labels("(?P<link>a)(?:x)(?P<type>b)(?P<Part_x>c)");
    assert_eq!(labels, vec!["link".to_string(), "type".to_string(), "Part_x".to_string()]);
}

#[test]
fn find_labels_passes_over_what_is_no_label() {
    assert!(RuleUtils::find_labels("").is_empty());
    assert!(RuleUtils::find_labels("(?P<>x)").is_empty());
    assert!(RuleUtils::find_labels("(?P<a1>x)").is_empty());
    assert!(RuleUtils::find_labels("(?P<abc").is_empty());
    assert!(RuleUtils::find_labels("(?<abc>x)").is_empty());
    assert_eq!(RuleUtils::find_labels("(?P<(?P<in>x)"), vec!["in".to_string()]);
}

#[test]
fn get_matched_gives_one_value_for_each_match() {
    let matched = RuleUtils::get_matched(
        "<img src=\"http://x/\">",
        "<img[ \\t]*src=\"(?P<store>[^\"]+)\"",
        "store",
    );
    assert_eq!(matched, vec!["http://x/".to_string()]);
    let matched = RuleUtils::get_matched("a1 b2 c3", "(?P<l>[a-z])(?P<d>[0-9])", "d");
    assert_eq!(matched, vec!["1".to_string(), "2".to_string(), "3".to_string()]);
}

#[test]
fn get_matched_skips_matches_without_the_group() {
    let matched = RuleUtils::get_matched("a1 b c3", "[a-z](?P<d>[0-9])?", "d");
    assert_eq!(matched, vec!["1".to_string(), "3".to_string()]);
    let none = RuleUtils::get_matched("a1 b2", "[a-z][0-9]", "absent");
    assert!(none.is_empty());
    let none = RuleUtils::get_matched("nothing here", "(?P<d>[0-9])", "d");
    assert!(none.is_empty());
}

#[test]
fn narrowing_without_stages_keeps_the_content() {
    let parts = RuleUtils::make_part_contents("whole".to_string(), &Vec::new());
    assert_eq!(parts, vec!["whole".to_string()]);
}

#[test]
fn narrowing_hands_on_what_part_captured() {
    let stages = vec!["<div>(?P<part>[^<]*)</div>".to_string()];
    let parts = RuleUtils::make_part_contents("<div>a</div><p>x</p><div>b</div>".to_string(), &stages);
    assert_eq!(parts, vec!["a".to_string(), "b".to_string()]);
}

#[test]
fn narrowing_without_a_part_group_leaves_nothing() {
    let stages = vec!["<div>(?P<other>[^<]*)</div>".to_string()];
    let parts = RuleUtils::make_part_contents("<div>a</div>".to_string(), &stages);
    assert!(parts.is_empty());
}

#[test]
fn narrowing_goes_on_with_the_last_document_only() {
    let stages = vec!["\\[(?P<part>[^\\]]*)\\]".to_string(), "(?P<part>[0-9]+)".to_string()];
    let parts = RuleUtils::make_part_contents("[1 2][3 4]".to_string(), &stages);
    assert_eq!(parts, vec!["3".to_string(), "4".to_string()]);
}

#[test]
fn result_handlers_hold_every_group_and_the_source() {
    let docs = vec!["a=1 b=2".to_string(), "c=3".to_string()];
    let rule = "(?P<key>[a-z])=(?P<value>[0-9])".to_string();
    let cookies = Some(Raw::new(vec![b"k=v".to_vec()]));
    let handlers = RuleUtils::make_result_handlers(
        docs,
        &rule,
        Some("/r/".to_string()),
        "http://src/".to_string(),
        cookies,
    );
    assert_eq!(handlers.len(), 2);
    assert_eq!(handlers[0].get_label_names(), vec!["key".to_string(), "value".to_string()]);
    assert_eq!(handlers[0].get_result("key").unwrap(), &vec!["a".to_string(), "b".to_string()]);
    assert_eq!(handlers[0].get_result("value").unwrap(), &vec!["1".to_string(), "2".to_string()]);
    assert_eq!(handlers[1].get_result("key").unwrap(), &vec!["c".to_string()]);
    assert!(handlers[1].get_result("other").is_none());
    for handler in &handlers {
        assert_eq!(handler.get_extra_inform(ExtraInformKey::SourceUrl).unwrap(), "http://src/");
        assert_eq!(handler.get_root_path().unwrap(), "/r/");
        assert_eq!(handler.get_raw_cookies().unwrap().lines, vec![b"k=v".to_vec()]);
    }
}

#[test]
fn result_handlers_know_the_source_without_any_group() {
    let handlers = RuleUtils::make_result_handlers(
        vec!["doc".to_string()],
        &"plain".to_string(),
        None,
        "http://src/".to_string(),
        None,
    );
    assert_eq!(handlers.len(), 1);
    assert!(handlers[0].get_label_names().is_empty());
    assert_eq!(handlers[0].get_extra_inform(ExtraInformKey::SourceUrl).unwrap(), "http://src/");
}

#[test]
fn configure_hands_out_its_sections() {
    let configure = Configure::new(None, Some(ExtractorConfigure::new(Some(20))), None);
    assert!(configure.get_navigator_configure().is_none());
    assert!(configure.get_result_configure().is_none());
    let extractor = configure.get_extractor_configure().unwrap();
    assert_eq!(extractor.get_connection_pool_size(), Some(20));
    assert_eq!(ExtractorConfigure::new(None).get_connection_pool_size(), None);
}

#[test]
fn configure_error_keeps_its_message() {
    let error = ConfigureError::new("Configure::from_str error");
    assert_eq!(error.msg(), "Configure::from_str error");
}
