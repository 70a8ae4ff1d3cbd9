use cruler::connector::navigator::navigation_rules::{
    NavigationRules, PagerRule, ProcedureRule, UnitNavigationRule,
};
use cruler::connector::navigator::specific_pager::{
    announces_next, can_collect_links, collect_links, DefaultPager, NaverWebtoonPager, PageOrder,
};
use cruler::connector::navigator::{Navigation, Navigator, Pager, ResponseError};
use cruler::configure::{RuleConfigure, RuleUtils};
use cruler::http::{Raw, Response};
use cruler::result::{ExtraInformKey, ReservedLabel, ResultHandler};
use std::collections::VecDeque;

fn page(body: &str) -> Response {
    Response {
        content_type: Some(Raw::new(vec![b"text/html".to_vec()])),
        set_cookie: None,
        body: body.as_bytes().to_vec(),
    }
}

fn deque(items: &[&str]) -> VecDeque<String> {
    items.iter().map(|s| s.to_string()).collect()
}

fn handler(source_url: &str, label: &str, values: &[&str]) -> ResultHandler {
    let mut handler = ResultHandler::new(None, None);
    handler.insert_result(label, values.iter().map(|s| s.to_string()).collect());
    handler.insert_extra_inform(ExtraInformKey::SourceUrl, source_url.to_string());
    handler
}

fn webtoon_rule() -> UnitNavigationRule {
    UnitNavigationRule::new(
        "toon".to_string(),
        "http://comic.naver.com/list?id=1&page=1".to_string(),
        None,
        Some("<li>(?P<collect>[^<]+)</li>".to_string()),
        None,
        Some(PagerRule::new(
            "naver-webtoon".to_string(),
            None,
            Some("<a href=\"(?P<link>[^\"]+)\" class=\"(?P<type>[a-z]*)\">".to_string()),
        )),
    )
}

#[test]
fn naver_pager_asks_for_the_first_page() {
    let pager = NaverWebtoonPager::new();
    let uri = pager.get_entry_uri("http://comic.naver.com/list");
    assert_eq!(uri.as_str(), "http://comic.naver.com/list?page=1");
    assert_eq!(uri.query().unwrap(), "page=1");
    let uri = pager.get_entry_uri("http://comic.naver.com/list?titleId=3");
    assert_eq!(uri.as_str(), "http://comic.naver.com/list?titleId=3&page=1");
}

#[test]
fn naver_pager_keeps_an_entry_that_names_a_page() {
    let pager = NaverWebtoonPager::new();
    let uri = pager.get_entry_uri("http://comic.naver.com/list?page=7");
    assert_eq!(uri.as_str(), "http://comic.naver.com/list?page=7");
    let uri = pager.get_entry_uri("http://comic.naver.com/list?page=7&titleId=3");
    assert_eq!(uri.as_str(), "http://comic.naver.com/list?page=7&titleId=3");
}

#[test]
fn entries_that_cannot_be_normalized_are_told_apart() {
    assert!(NaverWebtoonPager::can_get_entry_uri("http://comic.naver.com/list"));
    assert!(!NaverWebtoonPager::can_get_entry_uri(""));
    assert!(!NaverWebtoonPager::can_get_entry_uri("http://comic.naver.com/list?flag"));
    assert!(Pager::Default(DefaultPager::new()).can_get_entry_uri("http://a/list?flag"));
    assert!(!Pager::Default(DefaultPager::new()).can_get_entry_uri("a/b"));
}

#[test]
fn escapes_are_written_and_read() {
    assert_eq!(
        NaverWebtoonPager::encode_escape_char("/l?a=1&b=<\"'>".to_string()),
        "/l?a=1&amp;b=&lt;&quot;&apos;&gt;"
    );
    assert_eq!(
        NaverWebtoonPager::decode_escape_char("/l?a=1&amp;b=&lt;&quot;&apos;&gt;".to_string()),
        "/l?a=1&b=<\"'>"
    );
    assert_eq!(NaverWebtoonPager::decode_escape_char("&amp;lt;".to_string()), "<");
    assert_eq!(NaverWebtoonPager::encode_escape_char("plain".to_string()), "plain");
}

#[test]
fn relative_form_drops_scheme_and_authority() {
    assert_eq!(NaverWebtoonPager::relative_uri_string("http://h:80/a/b?c=d"), "/a/b?c=d");
    assert_eq!(NaverWebtoonPager::relative_uri_string("http://h"), "/");
    assert_eq!(NaverWebtoonPager::relative_uri_string("/a?b=c"), "/a?b=c");
    assert!(NaverWebtoonPager::can_set_as_requested("http://h/a"));
    assert!(!NaverWebtoonPager::can_set_as_requested("a/b"));
}

#[test]
fn history_holds_links_as_pages_write_them() {
    let mut pager = NaverWebtoonPager::new();
    assert!(!pager.is_requested("/list?id=1&amp;page=1"));
    pager.set_as_requested("http://comic.naver.com/list?id=1&page=1");
    assert!(pager.is_requested("/list?id=1&amp;page=1"));
    assert!(!pager.is_requested("/list?id=1&page=1"));
    pager.insert_history("raw");
    assert!(pager.is_requested("raw"));
    let copy = pager.duplicate();
    assert!(copy.is_requested("raw") && copy.has_next_request());
}

#[test]
fn next_requests_follow_each_new_link_once() {
    let mut pager = NaverWebtoonPager::new();
    pager.insert_history("/seen");
    let mut first = handler("http://comic.naver.com/list", "link", &["/a?x=1&amp;y=2", "/seen", "/a?x=1&amp;y=2"]);
    first.insert_result("type", vec!["prev".to_string(), "next".to_string()]);
    let second = handler("http://other.example/", "link", &["/b", "/a?x=1&amp;y=2"]);
    let handlers = vec![first, second];
    assert!(pager.can_make_next_requests(&handlers));
    let requests = pager.make_next_requests(&handlers);
    let urls: Vec<&str> = requests.iter().map(|r| r.uri().as_str()).collect();
    assert_eq!(urls, vec!["http://comic.naver.com/a?x=1&y=2", "http://other.example/b"]);
    assert!(requests.iter().all(|r| r.set_cookie.is_none() && r.referer.is_none()));
    assert!(pager.is_requested("/a?x=1&amp;y=2"));
    assert!(pager.is_requested("/b"));
    assert!(pager.is_requested("/seen"));
    assert!(pager.has_next_request());
    let again = pager.make_next_requests(&handlers);
    assert!(again.is_empty());
}

#[test]
fn next_marker_keeps_the_pager_going_until_a_page_lacks_it() {
    let mut pager = NaverWebtoonPager::new();
    let with_next = vec![handler("http://h/", "type", &["next"])];
    let without = vec![handler("http://h/", "type", &["prev"])];
    assert!(announces_next(&with_next));
    assert!(!announces_next(&without));
    assert!(!announces_next(&Vec::new()));
    pager.make_next_requests(&with_next);
    assert!(pager.has_next_request());
    pager.make_next_requests(&without);
    assert!(!pager.has_next_request());
    pager.make_next_requests(&with_next);
    assert!(!pager.has_next_request());
    let mut plain = DefaultPager::new();
    assert!(plain.has_next_request());
    assert!(plain.make_next_requests(&with_next).is_empty());
    assert!(plain.has_next_request());
    assert!(plain.make_next_requests(&Vec::new()).is_empty());
    assert!(!plain.has_next_request());
}

#[test]
fn one_next_among_the_results_of_a_page_is_enough() {
    let mut pager = NaverWebtoonPager::new();
    let mixed = vec![
        handler("http://h/", "type", &["prev"]),
        handler("http://h/", "type", &["next"]),
        handler("http://h/", "other", &[]),
    ];
    pager.make_next_requests(&mixed);
    assert!(pager.has_next_request());
}

#[test]
fn links_that_cannot_be_followed_are_told_apart() {
    let mut pager = NaverWebtoonPager::new();
    let bad = vec![handler("http://h/", "link", &["a/b"])];
    assert!(!pager.can_make_next_requests(&bad));
    pager.insert_history("a/b");
    assert!(pager.can_make_next_requests(&bad));
    let repeated = vec![handler("http://h/", "link", &["/ok", "/ok"])];
    assert!(pager.can_make_next_requests(&repeated));
}

#[test]
fn collected_links_are_resolved_in_order() {
    let handlers = vec![
        handler("http://h:81/list", "collect", &["/a", "http://x/b"]),
        handler("http://h:81/list", "other", &["/no"]),
        handler("http://g/", "collect", &["/c", "/a"]),
    ];
    assert!(can_collect_links(ReservedLabel::Collect, &handlers));
    let links = collect_links(ReservedLabel::Collect, &handlers);
    assert_eq!(links, deque(&["http://h:81/a", "http://x/b", "http://g/c", "http://g/a"]));
    let pager = NaverWebtoonPager::new();
    assert_eq!(pager.collect_ordered_result(ReservedLabel::Collect, &handlers), links);
    assert_eq!(DefaultPager::new().collect_ordered_result(ReservedLabel::Collect, &handlers), links);
    assert!(collect_links(ReservedLabel::Store, &handlers).is_empty());
    let bad = vec![handler("http://h/", "collect", &["a?b"])];
    assert!(!can_collect_links(ReservedLabel::Collect, &bad));
    assert!(can_collect_links(ReservedLabel::Link, &bad));
}

#[test]
fn pager_orderings() {
    assert_eq!(NaverWebtoonPager::new().ordering(), PageOrder::Descending);
    assert_eq!(DefaultPager::new().ordering(), PageOrder::Ascending);
}

#[test]
fn ascending_merge_appends() {
    let mut source = deque(&["a", "b"]);
    let mut target = deque(&["c", "d"]);
    Navigator::merge_vec(&mut source, &mut target, PageOrder::Ascending);
    assert_eq!(source, deque(&["a", "b", "c", "d"]));
    assert!(target.is_empty());
}

#[test]
fn descending_merge_puts_each_link_in_front() {
    let mut links = VecDeque::new();
    let mut first = deque(&["a", "b"]);
    Navigator::merge_vec(&mut links, &mut first, PageOrder::Descending);
    assert_eq!(links, deque(&["b", "a"]));
    let mut second = deque(&["c", "d"]);
    Navigator::merge_vec(&mut links, &mut second, PageOrder::Descending);
    assert_eq!(links, deque(&["d", "c", "b", "a"]));
    assert!(first.is_empty() && second.is_empty());
}

#[test]
fn descending_merge_of_single_link_pages_puts_the_later_page_first() {
    let mut links = VecDeque::new();
    Navigator::merge_vec(&mut links, &mut deque(&["a"]), PageOrder::Descending);
    Navigator::merge_vec(&mut links, &mut deque(&["c"]), PageOrder::Descending);
    assert_eq!(links, deque(&["c", "a"]));
    Navigator::merge_vec(&mut links, &mut VecDeque::new(), PageOrder::Descending);
    assert_eq!(links, deque(&["c", "a"]));
}

#[test]
fn pager_is_chosen_by_name() {
    assert!(matches!(Navigator::get_pager(&webtoon_rule()), Pager::NaverWebtoon(_)));
    let unknown = UnitNavigationRule::new(
        "n".to_string(),
        "http://a/".to_string(),
        None,
        None,
        None,
        Some(PagerRule::new("Naver-Webtoon".to_string(), None, None)),
    );
    assert!(matches!(Navigator::get_pager(&unknown), Pager::Default(_)));
    let none = UnitNavigationRule::new("n".to_string(), "http://a/".to_string(), None, None, None, None);
    assert!(matches!(Navigator::get_pager(&none), Pager::Default(_)));
}

#[test]
fn name_index_map_finds_the_last_rule_of_a_name() {
    let rule = |name: &str| {
        UnitNavigationRule::new(name.to_string(), "http://a/".to_string(), None, None, None, None)
    };
    let rules = NavigationRules::new(vec![rule("a"), rule("b"), rule("a")]);
    let navigator = Navigator::new(&rules);
    let map = navigator.name_index_map();
    assert_eq!(map.len(), 2);
    assert_eq!(map.get("a"), Some(&2));
    assert_eq!(map.get("b"), Some(&1));
    assert_eq!(map.get("c"), None);
    assert_eq!(navigator.rules().navigation().len(), 3);
}

#[test]
fn rules_hand_out_what_they_hold() {
    let rule = UnitNavigationRule::new(
        "n".to_string(),
        "http://a/".to_string(),
        Some(vec!["(?P<part>x)".to_string()]),
        Some("(?P<collect>y)".to_string()),
        Some(ProcedureRule::new(Some("pre".to_string()), None)),
        Some(PagerRule::new("p".to_string(), Some(vec!["s".to_string()]), Some("e".to_string()))),
    );
    let copy = rule.clone();
    assert_eq!(copy.name(), "n");
    assert_eq!(copy.entry(), "http://a/");
    assert_eq!(copy.parts().unwrap(), &vec!["(?P<part>x)".to_string()]);
    assert_eq!(copy.extract().unwrap(), "(?P<collect>y)");
    assert_eq!(copy.procedure().unwrap().pre_procedure().unwrap(), "pre");
    assert!(copy.procedure().unwrap().post_procedure().is_none());
    let pager = copy.pager().unwrap();
    assert_eq!(pager.pager(), "p");
    assert_eq!(pager.parts().unwrap(), &vec!["s".to_string()]);
    assert_eq!(pager.extract().unwrap(), "e");
    assert!(copy.is_usable());
}

#[test]
fn rules_with_patterns_that_do_not_compile_are_told_apart() {
    let broken = UnitNavigationRule::new(
        "n".to_string(),
        "http://a/".to_string(),
        None,
        Some("(unclosed".to_string()),
        None,
        None,
    );
    assert!(!broken.is_usable());
    let broken_pager = UnitNavigationRule::new(
        "n".to_string(),
        "http://a/".to_string(),
        None,
        None,
        None,
        Some(PagerRule::new("p".to_string(), Some(vec!["[".to_string()]), None)),
    );
    assert!(!broken_pager.is_usable());
    let mut navigation = Navigator::try_start(&broken).unwrap();
    navigation.take_requests();
    assert!(!navigation.try_accept(&broken, &vec![page("x")]));
    assert!(RuleUtils::find_labels("(unclosed").is_empty());
}

#[test]
fn responses_that_are_no_text_yield_nothing() {
    let rule = webtoon_rule();
    let url = "http://comic.naver.com/list".to_string();
    let image = Response {
        content_type: Some(Raw::new(vec![b"image/png".to_vec()])),
        set_cookie: None,
        body: b"<li>/a</li>".to_vec(),
    };
    assert_eq!(Navigator::read_response(&url, &rule, &image).err(), Some(ResponseError::Header));
    let untyped = Response { content_type: None, set_cookie: None, body: Vec::new() };
    assert_eq!(Navigator::read_response(&url, &rule, &untyped).err(), Some(ResponseError::Header));
    let broken = Response {
        content_type: Some(Raw::new(vec![b"text/html".to_vec()])),
        set_cookie: None,
        body: vec![b'<', 0xff],
    };
    assert_eq!(Navigator::read_response(&url, &rule, &broken).err(), Some(ResponseError::Utf8));
}

#[test]
fn a_text_response_is_read_by_both_pipelines() {
    let rule = webtoon_rule();
    let url = "http://comic.naver.com/list".to_string();
    let mut response = page("<li>/a</li><a href=\"/list?page=2\" class=\"next\"><li>/b</li>");
    response.set_cookie = Some(Raw::new(vec![b"c=1".to_vec()]));
    let result = Navigator::read_response(&url, &rule, &response).ok().unwrap();
    let content = result.extracted_results();
    assert_eq!(content.len(), 1);
    assert_eq!(content[0].get_result("collect").unwrap(), &vec!["/a".to_string(), "/b".to_string()]);
    assert_eq!(content[0].get_extra_inform(ExtraInformKey::SourceUrl).unwrap(), &url);
    assert_eq!(content[0].get_raw_cookies().unwrap().lines, vec![b"c=1".to_vec()]);
    assert!(content[0].get_root_path().is_none());
    let pager = result.pager_result().unwrap();
    assert_eq!(pager.len(), 1);
    assert_eq!(pager[0].get_result("link").unwrap(), &vec!["/list?page=2".to_string()]);
    assert_eq!(pager[0].get_result("type").unwrap(), &vec!["next".to_string()]);
}

fn fetch(navigation: &mut Navigation, expected: &[&str]) {
    let batch = navigation.take_requests();
    let urls: Vec<&str> = batch.iter().map(|r| r.uri().as_str()).collect();
    assert_eq!(urls, expected);
}

#[test]
fn navigation_follows_new_links_once_and_ends_without_next() {
    let rule = webtoon_rule();
    assert!(Navigator::can_start(&rule));
    let mut navigation = Navigator::start(&rule);
    assert!(navigation.has_next());
    fetch(&mut navigation, &["http://comic.naver.com/list?id=1&page=1"]);
    let first = "<li>/1a</li><li>/1b</li><a href=\"/list?id=1&amp;page=2\" class=\"next\">";
    assert!(navigation.try_accept(&rule, &vec![page(first)]));
    assert!(navigation.has_next());
    fetch(&mut navigation, &["http://comic.naver.com/list?id=1&page=2"]);
    let second = "<li>/2a</li><a href=\"/list?id=1&amp;page=1\" class=\"next\">\
                  <a href=\"/list?id=1&amp;page=3\" class=\"next\">";
    assert!(navigation.try_accept(&rule, &vec![page(second)]));
    assert!(navigation.has_next());
    fetch(&mut navigation, &["http://comic.naver.com/list?id=1&page=3"]);
    assert!(navigation.try_accept(&rule, &vec![page("<li>/3a</li>")]));
    assert!(!navigation.has_next());
    fetch(&mut navigation, &[]);
    assert_eq!(
        navigation.into_links(),
        deque(&[
            "http://comic.naver.com/3a",
            "http://comic.naver.com/2a",
            "http://comic.naver.com/1b",
            "http://comic.naver.com/1a",
        ])
    );
}

#[test]
fn navigation_without_pager_returns_the_collected_links() {
    let rule = UnitNavigationRule::new(
        "t".to_string(),
        "http://mock/1".to_string(),
        None,
        Some("<a href=\"(?P<collect>[^\"]+)\">".to_string()),
        None,
        None,
    );
    let mut navigation = Navigator::try_start(&rule).unwrap();
    assert!(navigation.has_next());
    fetch(&mut navigation, &["http://mock/1"]);
    let body = "<a href=\"http://mock/a\"><a href=\"http://mock/b\">";
    assert!(navigation.can_accept(&rule, &vec![page(body)]));
    navigation.accept(&rule, &vec![page(body)]);
    assert!(!navigation.has_next());
    assert_eq!(navigation.into_links(), deque(&["http://mock/a", "http://mock/b"]));
}

#[test]
fn navigation_passes_over_responses_that_are_no_text() {
    let rule = webtoon_rule();
    let mut navigation = Navigator::start(&rule);
    navigation.take_requests();
    let image = Response {
        content_type: Some(Raw::new(vec![b"image/png".to_vec()])),
        set_cookie: None,
        body: b"<li>/a</li>".to_vec(),
    };
    assert!(navigation.try_accept(&rule, &vec![image]));
    assert!(navigation.has_next());
    fetch(&mut navigation, &[]);
    assert!(navigation.into_links().is_empty());
}

#[test]
fn navigation_takes_in_only_what_fits_the_batch() {
    let rule = webtoon_rule();
    let mut navigation = Navigator::start(&rule);
    assert!(!navigation.try_accept(&rule, &vec![page("")]));
    navigation.take_requests();
    assert!(!navigation.try_accept(&rule, &Vec::new()));
    assert!(!navigation.try_accept(&rule, &vec![page(""), page("")]));
    assert!(!navigation.try_accept(&rule, &vec![page("<li>a?b</li>")]));
    let unreadable = Response {
        content_type: Some(Raw::new(vec![b"text".to_vec()])),
        set_cookie: None,
        body: Vec::new(),
    };
    assert!(!navigation.try_accept(&rule, &vec![unreadable]));
    navigation.fail_batch();
    assert!(navigation.try_accept(&rule, &Vec::new()));
    assert!(navigation.has_next());
}

#[test]
fn navigation_cannot_set_out_from_an_entry_that_is_no_url() {
    let rule = UnitNavigationRule::new("t".to_string(), "a/b".to_string(), None, None, None, None);
    assert!(!Navigator::can_start(&rule));
    assert!(Navigator::try_start(&rule).is_none());
}
