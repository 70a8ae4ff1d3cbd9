use cruler::configure::{ExtractorConfigure, RuleConfigure};
use cruler::connector::extractor::extraction_rules::{
    ExtractionRules, ProcedureName, ProcedureRule, UnitExtractionRule,
};
use cruler::connector::extractor::specific_procedure::{
    DefaultProcedure, NaverWebtoonProcedure, Procedure,
};
use cruler::connector::extractor::Extractor;
use cruler::connector::navigator::navigation_rules::{NavigationRules, UnitNavigationRule};
use cruler::connector::navigator::{Navigator, ResponseError};
use cruler::connector::Connector;
use cruler::http::{Method, Raw, Request, Response, Uri};
use cruler::result::{ExtraInformKey, ResultHandler};
use std::collections::BTreeMap;

fn path_map(paths: &[&str]) -> BTreeMap<usize, String> {
    paths.iter().enumerate().map(|(index, path)| (index, path.to_string())).collect()
}

fn response(content_type: &str, body: &str) -> Response {
    Response {
        content_type: Some(Raw::new(vec![content_type.as_bytes().to_vec()])),
        set_cookie: Some(Raw::new(vec![b"session=1".to_vec()])),
        body: body.as_bytes().to_vec(),
    }
}

fn rule(post_procedure: Option<&str>, links: Option<Vec<&str>>) -> UnitExtractionRule {
    UnitExtractionRule::new(
        "toon".to_string(),
        links.map(|l| l.iter().map(|s| s.to_string()).collect()),
        Some("/tmp/out/".to_string()),
        None,
        Some("<img src=\"(?P<store>[^\"]+)\"".to_string()),
        Some(ProcedureRule::new(None, None, None, None, post_procedure.map(|s| s.to_string()))),
    )
}

fn handler(source_url: &str, stores: &[&str]) -> ResultHandler {
    let mut handler = ResultHandler::new(
        Some("root/".to_string()),
        Some(Raw::new(vec![b"c=1".to_vec()])),
    );
    handler.insert_result("store", stores.iter().map(|s| s.to_string()).collect());
    handler.insert_extra_inform(ExtraInformKey::SourceUrl, source_url.to_string());
    handler
}

#[test]
fn procedure_names_are_matched_exactly() {
    assert_eq!(ProcedureRule::procedure_name("naver-webtoon"), ProcedureName::NaverWebtoon);
    assert_eq!(ProcedureRule::procedure_name("Naver-Webtoon"), ProcedureName::Default);
    assert_eq!(ProcedureRule::procedure_name(""), ProcedureName::Default);
    assert_eq!(Extractor::post_procedure_name(&rule(Some("naver-webtoon"), None)), ProcedureName::NaverWebtoon);
    assert_eq!(Extractor::post_procedure_name(&rule(Some("other"), None)), ProcedureName::Default);
    assert_eq!(Extractor::post_procedure_name(&rule(None, None)), ProcedureName::Default);
    let bare = UnitExtractionRule::new("n".to_string(), None, None, None, None, None);
    assert_eq!(Extractor::post_procedure_name(&bare), ProcedureName::Default);
}

#[test]
fn extraction_rules_hand_out_what_they_hold() {
    let procedure = ProcedureRule::new(
        Some(vec!["p".to_string()]),
        Some("e".to_string()),
        Some("pat".to_string()),
        Some("pre".to_string()),
        Some("post".to_string()),
    );
    let unit = UnitExtractionRule::new(
        "n".to_string(),
        Some(vec!["http://a/".to_string()]),
        Some("/l/".to_string()),
        Some(vec!["(?P<part>x)".to_string()]),
        Some("(?P<store>y)".to_string()),
        Some(procedure),
    );
    let copy = unit.clone();
    assert_eq!(copy.name(), "n");
    assert_eq!(copy.links().unwrap(), &vec!["http://a/".to_string()]);
    assert_eq!(copy.local_path().unwrap(), "/l/");
    assert_eq!(copy.parts().unwrap(), &vec!["(?P<part>x)".to_string()]);
    assert_eq!(copy.extract().unwrap(), "(?P<store>y)");
    let procedure = copy.procedure().unwrap();
    assert_eq!(procedure.parts().unwrap(), &vec!["p".to_string()]);
    assert_eq!(procedure.extract().unwrap(), "e");
    assert_eq!(procedure.pattern().unwrap(), "pat");
    assert_eq!(procedure.pre_procedure().unwrap(), "pre");
    assert_eq!(procedure.post_procedure().unwrap(), "post");
    assert!(copy.is_usable());
    let rules = ExtractionRules::new(vec![copy]);
    assert_eq!(rules.extraction().len(), 1);
    let configure = ExtractorConfigure::new(Some(4));
    let extractor = Extractor::new(&rules, &configure);
    assert_eq!(extractor.rules().extraction()[0].name(), "n");
    assert_eq!(extractor.config().get_connection_pool_size(), Some(4));
}

#[test]
fn default_procedure_echoes_the_cookies() {
    let handler = handler("http://comic.naver.com/detail?no=1", &[]);
    let procedure = DefaultProcedure::new(&handler);
    let request = procedure.get_request("/img/1.png");
    assert_eq!(request.method, Method::Get);
    assert_eq!(request.uri().as_str(), "http://comic.naver.com/img/1.png");
    assert_eq!(request.set_cookie.unwrap().lines, vec![b"c=1".to_vec()]);
    assert!(request.referer.is_none());
}

#[test]
fn webtoon_procedure_names_the_referer_on_its_own_host() {
    let on_host = handler("http://comic.naver.com/detail?no=1", &[]);
    let request = NaverWebtoonProcedure::new(&on_host).get_request("http://img.example/1.png");
    assert_eq!(request.uri().as_str(), "http://img.example/1.png");
    assert_eq!(request.set_cookie.unwrap().lines, vec![b"c=1".to_vec()]);
    assert_eq!(request.referer.unwrap(), b"http://comic.naver.com/detail?no=1".to_vec());
    let elsewhere = handler("http://comic.naver.com.example/detail", &[]);
    let request = NaverWebtoonProcedure::new(&elsewhere).get_request("/1.png");
    assert!(request.referer.is_none());
    let mut without_cookies = ResultHandler::new(None, None);
    without_cookies.insert_extra_inform(
        ExtraInformKey::SourceUrl,
        "https://comic.naver.com:443/x".to_string(),
    );
    let request = NaverWebtoonProcedure::new(&without_cookies).get_request("/1.png");
    assert!(request.set_cookie.is_none());
    assert_eq!(request.referer.unwrap(), b"https://comic.naver.com:443/x".to_vec());
}

#[test]
fn referer_is_left_alone_without_a_source_on_the_host() {
    let unknown = ResultHandler::new(None, None);
    let mut request = Request::new(Method::Get, Uri::parse("http://a/").unwrap());
    request.referer = Some(b"kept".to_vec());
    assert!(NaverWebtoonProcedure::can_add_domain_specific_headers(&unknown));
    NaverWebtoonProcedure::add_domain_specific_headers(&unknown, &mut request);
    assert_eq!(request.referer, Some(b"kept".to_vec()));
    let no_url = handler("not a url/", &[]);
    NaverWebtoonProcedure::add_domain_specific_headers(&no_url, &mut request);
    assert_eq!(request.referer, Some(b"kept".to_vec()));
    let relative = handler("/only/path", &[]);
    NaverWebtoonProcedure::add_domain_specific_headers(&relative, &mut request);
    assert_eq!(request.referer, Some(b"kept".to_vec()));
    let hostless = handler("http://user@/x", &[]);
    assert!(!NaverWebtoonProcedure::can_add_domain_specific_headers(&hostless));
}

#[test]
fn procedure_is_chosen_by_name() {
    let handler = handler("http://comic.naver.com/d", &[]);
    let naver = Extractor::get_procedure(&handler, &ProcedureName::NaverWebtoon);
    assert!(matches!(naver, Procedure::NaverWebtoon(_)));
    assert!(naver.get_request("/a").referer.is_some());
    let plain = Extractor::get_procedure(&handler, &ProcedureName::Default);
    assert!(matches!(plain, Procedure::Default(_)));
    assert!(plain.get_request("/a").referer.is_none());
    assert!(plain.can_get_request("/a"));
    assert!(!plain.can_get_request("a/b"));
    assert!(plain.try_get_request("a/b").is_none());
    assert_eq!(plain.try_get_request("/a").unwrap().uri().as_str(), "http://comic.naver.com/a");
    assert_eq!(plain.handler().get_root_path().unwrap(), "root/");
}

#[test]
fn entry_links_come_from_the_rule_or_from_navigation() {
    let navigated = vec!["http://nav/1".to_string()];
    let mut conn = Connector::new();
    Extractor::set_entry_links(&mut conn, &rule(None, Some(vec!["http://a/1", "http://a/2"])), &navigated);
    assert_eq!(conn.request_urls(), vec!["http://a/1", "http://a/2"]);
    let mut conn = Connector::new();
    assert!(Extractor::try_set_entry_links(&mut conn, &rule(None, None), &navigated));
    assert_eq!(conn.request_urls(), vec!["http://nav/1"]);
    let mut conn = Connector::new();
    let bad = rule(None, Some(vec!["http://a/1", "a/b"]));
    assert!(!Extractor::can_set_entry_links(&bad, &navigated));
    assert!(!Extractor::try_set_entry_links(&mut conn, &bad, &navigated));
    assert_eq!(conn.get_requests_count(), 0);
}

#[test]
fn navigation_rule_is_found_by_the_name_of_the_extraction_rule() {
    let nav = |name: &str| {
        UnitNavigationRule::new(name.to_string(), "http://a/".to_string(), None, None, None, None)
    };
    let rules = NavigationRules::new(vec![nav("x"), nav("toon"), nav("toon")]);
    let navigator = Navigator::new(&rules);
    assert_eq!(Extractor::find_navigation(&navigator, &"toon".to_string()), Some(2));
    assert_eq!(Extractor::find_navigation(&navigator, &"x".to_string()), Some(0));
    assert_eq!(Extractor::find_navigation(&navigator, &"none".to_string()), None);
}

#[test]
fn responses_are_read_into_handlers_with_their_directory() {
    let rule = rule(None, None);
    let url = "http://comic.naver.com/detail".to_string();
    let body = "<img src=\"/a.png\"><img src=\"http://x/b.png\">";
    let handlers = Extractor::read_response(3, &url, &rule, &response("text/html", body)).ok().unwrap();
    assert_eq!(handlers.len(), 1);
    assert_eq!(handlers[0].get_root_path().unwrap(), "/tmp/out/toon/3/");
    assert_eq!(
        handlers[0].get_result("store").unwrap(),
        &vec!["/a.png".to_string(), "http://x/b.png".to_string()]
    );
    assert_eq!(handlers[0].get_extra_inform(ExtraInformKey::SourceUrl).unwrap(), &url);
    assert_eq!(handlers[0].get_raw_cookies().unwrap().lines, vec![b"session=1".to_vec()]);
    let image = Extractor::read_response(0, &url, &rule, &response("image/png", body));
    assert_eq!(image.err(), Some(ResponseError::Header));
    let mut broken = response("text/html", "");
    broken.body = vec![0xc0];
    assert_eq!(Extractor::read_response(0, &url, &rule, &broken).err(), Some(ResponseError::Utf8));
}

#[test]
fn a_batch_is_read_response_by_response() {
    let rule = rule(None, None);
    let urls = vec!["http://h/0".to_string(), "http://h/1".to_string(), "http://h/2".to_string()];
    let responses = vec![
        response("text/html", "<img src=\"/a\">"),
        response("image/png", "<img src=\"/skipped\">"),
        response("text/plain", "<img src=\"/b\"><img src=\"/c\">"),
    ];
    assert!(Extractor::can_read_batch(&urls, &rule, &responses));
    let results = Extractor::read_batch(&urls, &rule, &responses);
    assert_eq!(results.len(), 2);
    assert_eq!(results[0][0].get_root_path().unwrap(), "/tmp/out/toon/0/");
    assert_eq!(results[1][0].get_root_path().unwrap(), "/tmp/out/toon/2/");
    assert_eq!(results[1][0].get_extra_inform(ExtraInformKey::SourceUrl).unwrap(), "http://h/2");
    assert!(Extractor::try_read_batch(&urls[..2].to_vec(), &rule, &responses).is_none());
    let broken = UnitExtractionRule::new("n".to_string(), None, None, None, Some("(".to_string()), None);
    assert!(!broken.is_usable());
    assert!(Extractor::try_read_batch(&urls, &broken, &responses).is_none());
    let without_pattern = UnitExtractionRule::new("n".to_string(), None, None, None, None, None);
    let results = Extractor::try_read_batch(&urls, &without_pattern, &responses).unwrap();
    assert_eq!(results.len(), 2);
    assert!(results[0].is_empty() && results[1].is_empty());
}

#[test]
fn downloads_are_planned_in_order_with_their_paths() {
    let rule = rule(Some("naver-webtoon"), None);
    let targets = vec![
        vec![
            handler("http://comic.naver.com/d?no=1", &["/a.png", "http://img/b.png"]),
            handler("http://comic.naver.com/d?no=1", &[]),
        ],
        Vec::new(),
        vec![handler("http://other/d", &["/c.png"])],
    ];
    let mut conn = Connector::new();
    conn.add_request(Request::new(Method::Get, Uri::parse("http://first/").unwrap()));
    assert!(Extractor::can_ready_for_request(&targets, &rule));
    let paths = Extractor::ready_for_request(&mut conn, &targets, &rule);
    assert_eq!(paths, path_map(&["root/0", "root/1", "root/0"]));
    assert_eq!(
        conn.request_urls(),
        vec!["http://first/", "http://comic.naver.com/a.png", "http://img/b.png", "http://other/c.png"]
    );
    let batch = conn.take_requests();
    assert_eq!(batch[1].referer, Some(b"http://comic.naver.com/d?no=1".to_vec()));
    assert_eq!(batch[2].referer, Some(b"http://comic.naver.com/d?no=1".to_vec()));
    assert_eq!(batch[3].referer, None);
    assert_eq!(batch[3].set_cookie.as_ref().unwrap().lines, vec![b"c=1".to_vec()]);
}

#[test]
fn downloads_are_planned_only_where_every_link_resolves() {
    let rule = rule(None, None);
    let targets = vec![vec![handler("http://h/", &["/ok", "not/ok"])]];
    let mut conn = Connector::new();
    assert!(!Extractor::can_ready_for_request(&targets, &rule));
    assert!(Extractor::try_ready_for_request(&mut conn, &targets, &rule).is_none());
    assert_eq!(conn.get_requests_count(), 0);
    let fine = vec![vec![handler("http://h/", &["/ok"])]];
    assert_eq!(
        Extractor::try_ready_for_request(&mut conn, &fine, &rule),
        Some(path_map(&["root/0"]))
    );
    assert_eq!(conn.request_urls(), vec!["http://h/ok"]);
}

#[test]
fn file_name_ends_in_the_extension_of_the_content_type() {
    let path = "/tmp/out/toon/0/1".to_string();
    assert_eq!(Extractor::file_name(&path, &response("image/jpeg", "")), "/tmp/out/toon/0/1.jpeg");
    assert_eq!(Extractor::file_name(&path, &response("text/html", "")), "/tmp/out/toon/0/1.html");
    assert_eq!(
        Extractor::file_name(&path, &response("application/pdf", "")),
        "/tmp/out/toon/0/1.unknown"
    );
    let untyped = Response { content_type: None, set_cookie: None, body: Vec::new() };
    assert_eq!(Extractor::file_name(&path, &untyped), "/tmp/out/toon/0/1.unknown");
}

#[test]
fn extraction_from_response_to_planned_download() {
    let rule = rule(Some("naver-webtoon"), Some(vec!["http://comic.naver.com/detail?no=7"]));
    let mut conn = Connector::new();
    assert!(Extractor::try_set_entry_links(&mut conn, &rule, &Vec::new()));
    let urls = conn.request_urls();
    let batch = conn.take_requests();
    assert_eq!(batch.len(), 1);
    let body = "<img src=\"http://img.naver.net/7/1.jpg\"><img src=\"/7/2.jpg\">";
    let results = Extractor::try_read_batch(&urls, &rule, &vec![response("text/html", body)]).unwrap();
    let mut downloads = Connector::new();
    let paths = Extractor::try_ready_for_request(&mut downloads, &results, &rule).unwrap();
    assert_eq!(paths, path_map(&["/tmp/out/toon/0/0", "/tmp/out/toon/0/1"]));
    assert_eq!(
        downloads.request_urls(),
        vec!["http://img.naver.net/7/1.jpg", "http://comic.naver.com/7/2.jpg"]
    );
    let requests = downloads.take_requests();
    assert_eq!(requests[0].referer, Some(b"http://comic.naver.com/detail?no=7".to_vec()));
    assert_eq!(requests[0].set_cookie.as_ref().unwrap().lines, vec![b"session=1".to_vec()]);
    assert_eq!(
        Extractor::file_name(&paths[&1], &response("image/jpeg", "")),
        "/tmp/out/toon/0/1.jpeg"
    );
}
