//! Navigation: walking the pages of a site and collecting links in order.
//!
//! The navigator decides; a driver fetches. A `Navigation` hands out the
//! requests of the next batch and takes in the responses to them, until its
//! pager expects no further page.

pub mod navigation_rules;
pub mod specific_pager;

use crate::collections::StringMap;
use crate::configure::{extracted, narrowed, RuleConfigure, RuleUtils};
use crate::connector::{announced, content_type_readable, Connector, HeaderContentType};
use crate::http::{uri_parse, Method, Raw, Request, RequestView, Response, Uri, UriView};
use crate::result::{
    collect_label, link_label, type_label, ReservedLabel, ResultHandler, ResultHandlerView,
};
use crate::text::{str_eq, string_from_utf8};
use navigation_rules::{NavigationRules, PagerRule, UnitNavigationRule, UnitNavigationRuleView};
use specific_pager::{
    lemma_followable_push,
    collectable, collected, entry_usable, escaped, follow_up, followable, fresh,
    handler_shows_next, link_refs, mentioned, mentions, next_marker, normalized_entry, refs_of,
    relative_text, relative_usable, shows_next, DefaultPager, NaverWebtoonPager, PageOrder,
    PagerView,
};
use std::collections::VecDeque;
use vstd::prelude::*;
use vstd::utf8::{decode_utf8, valid_utf8};

verus! {

/// The name under which the pager of `comic.naver.com` is chosen.
pub open spec fn naver_webtoon_name() -> Seq<char> {
    seq!['n', 'a', 'v', 'e', 'r', '-', 'w', 'e', 'b', 't', 'o', 'o', 'n']
}

/// The pager of a navigation, chosen by the name in the rule.
pub enum Pager {
    NaverWebtoon(NaverWebtoonPager),
    Default(DefaultPager),
}

impl View for Pager {
    type V = PagerView;

    open spec fn view(&self) -> PagerView {
        match self {
            Pager::NaverWebtoon(pager) => pager@,
            Pager::Default(pager) => pager@,
        }
    }
}

/// The requests that a pager plans for the links of `handlers`: one for each
/// link that was not requested before where the pager follows links, none
/// where it does not.
pub open spec fn planned(follows: bool, history: Set<Seq<char>>, handlers: Seq<ResultHandlerView>) -> Seq<
    RequestView,
> {
    if follows {
        Seq::new(
            fresh(history, link_refs(handlers)).len(),
            |k: int| follow_up(handlers, fresh(history, link_refs(handlers))[k]),
        )
    } else {
        Seq::empty()
    }
}

/// What a pager remembers after it has seen the pager results `handlers`.
pub open spec fn turned(follows: bool, pager: PagerView, handlers: Seq<ResultHandlerView>) -> PagerView {
    PagerView {
        history: if follows {
            pager.history + mentioned(link_refs(handlers))
        } else {
            pager.history
        },
        next_request_available: pager.next_request_available && shows_next(handlers),
    }
}

impl Pager {
    /// Whether the pager follows the links that pages show.
    pub open spec fn follows(&self) -> bool {
        self is NaverWebtoon
    }

    /// Whether the entry URL can be used by this pager.
    pub open spec fn entry_ok(&self, entry: Seq<char>) -> bool {
        if self.follows() {
            entry_usable(entry)
        } else {
            uri_parse(entry) is Some
        }
    }

    /// The entry URL as this pager requests it.
    pub open spec fn entry_of(&self, entry: Seq<char>) -> UriView {
        if self.follows() {
            normalized_entry(entry)
        } else {
            uri_parse(entry)->0
        }
    }

    pub fn can_get_entry_uri(&self, entry_url: &str) -> (ok: bool)
        ensures
            ok == self.entry_ok(entry_url@),
    {
        match self {
            Pager::NaverWebtoon(_pager) => NaverWebtoonPager::can_get_entry_uri(entry_url),
            Pager::Default(_pager) => Uri::parse(entry_url).is_some(),
        }
    }

    pub fn get_entry_uri(&self, entry_url: &str) -> (uri: Uri)
        requires
            self.entry_ok(entry_url@),
        ensures
            uri@ == self.entry_of(entry_url@),
    {
        match self {
            Pager::NaverWebtoon(pager) => pager.get_entry_uri(entry_url),
            Pager::Default(pager) => pager.get_entry_uri(entry_url),
        }
    }

    /// Whether `link` can be recorded as requested.
    pub fn can_set_as_requested(&self, link: &str) -> (ok: bool)
        ensures
            ok == (self.follows() ==> relative_usable(link@)),
    {
        match self {
            Pager::NaverWebtoon(_pager) => NaverWebtoonPager::can_set_as_requested(link),
            Pager::Default(_pager) => true,
        }
    }

    /// Records `link` as requested, where the pager keeps a history.
    pub fn set_as_requested(&mut self, link: &str)
        requires
            old(self).follows() ==> relative_usable(link@),
        ensures
            final(self).follows() == old(self).follows(),
            final(self)@ == (PagerView {
                history: if old(self).follows() {
                    old(self)@.history.insert(escaped(relative_text(link@)))
                } else {
                    old(self)@.history
                },
                ..old(self)@
            }),
    {
        match self {
            Pager::NaverWebtoon(pager) => pager.set_as_requested(link),
            Pager::Default(pager) => pager.set_as_requested(link),
        }
    }

    pub fn has_next_request(&self) -> (available: bool)
        ensures
            available == self@.next_request_available,
    {
        match self {
            Pager::NaverWebtoon(pager) => pager.has_next_request(),
            Pager::Default(pager) => pager.has_next_request(),
        }
    }

    /// Whether the requests for the links of `pager_results` can be planned.
    pub fn can_make_next_requests(&self, pager_results: &Vec<ResultHandler>) -> (ok: bool)
        ensures
            ok == (self.follows() ==> followable(self@.history, pager_results.deep_view())),
    {
        match self {
            Pager::NaverWebtoon(pager) => pager.can_make_next_requests(pager_results),
            Pager::Default(_pager) => true,
        }
    }

    /// Plans the requests for the links of a page that still have to be
    /// requested, and notes whether a further page is announced.
    pub fn make_next_requests(&mut self, pager_results: &Vec<ResultHandler>) -> (requests:
        VecDeque<Request>)
        requires
            old(self).follows() ==> followable(old(self)@.history, pager_results.deep_view()),
        ensures
            final(self).follows() == old(self).follows(),
            final(self)@ == turned(old(self).follows(), old(self)@, pager_results.deep_view()),
            Seq::new(requests@.len(), |k: int| requests@[k]@) == planned(
                old(self).follows(),
                old(self)@.history,
                pager_results.deep_view(),
            ),
    {
        match self {
            Pager::NaverWebtoon(pager) => {
                let requests = pager.make_next_requests(pager_results);
                assert(Seq::new(requests@.len(), |k: int| requests@[k]@) =~= planned(
                    true,
                    old(self)@.history,
                    pager_results.deep_view(),
                ));
                requests
            },
            Pager::Default(pager) => {
                let requests = pager.make_next_requests(pager_results);
                assert(Seq::new(requests@.len(), |k: int| requests@[k]@) =~= planned(
                    false,
                    old(self)@.history,
                    pager_results.deep_view(),
                ));
                requests
            },
        }
    }

    /// The links under `label`, resolved, in the order of the handlers.
    pub fn collect_ordered_result(
        &self,
        label: ReservedLabel,
        result_handlers: &Vec<ResultHandler>,
    ) -> (links: VecDeque<String>)
        requires
            collectable(result_handlers.deep_view(), label.text()),
        ensures
            links.deep_view() == collected(result_handlers.deep_view(), label.text()),
    {
        match self {
            Pager::NaverWebtoon(pager) => pager.collect_ordered_result(label, result_handlers),
            Pager::Default(pager) => pager.collect_ordered_result(label, result_handlers),
        }
    }

    /// Descending where the pager follows links, else ascending.
    pub fn ordering(&self) -> (order: PageOrder)
        ensures
            order == if self.follows() {
                PageOrder::Descending
            } else {
                PageOrder::Ascending
            },
    {
        match self {
            Pager::NaverWebtoon(pager) => pager.ordering(),
            Pager::Default(pager) => pager.ordering(),
        }
    }
}


impl Pager {
    /// A pager that remembers what this one does.
    pub fn duplicate(&self) -> (copy: Pager)
        ensures
            copy@ == self@,
            copy.follows() == self.follows(),
    {
        match self {
            Pager::NaverWebtoon(pager) => Pager::NaverWebtoon(pager.duplicate()),
            Pager::Default(pager) => Pager::Default(pager.duplicate()),
        }
    }
}

/// The links of a page put to those of the pages before it: behind them in
/// ascending order; in descending order each link in front of all before it,
/// so that the page's links come first and in reverse.
pub open spec fn merged(source: Seq<Seq<char>>, target: Seq<Seq<char>>, order: PageOrder) -> Seq<
    Seq<char>,
> {
    match order {
        PageOrder::Ascending => source + target,
        PageOrder::Descending => target.reverse() + source,
    }
}

/// The links of all `pages`, merged page by page.
pub open spec fn merged_all(pages: Seq<Seq<Seq<char>>>, order: PageOrder) -> Seq<Seq<char>>
    decreases pages.len(),
{
    if pages.len() == 0 {
        Seq::empty()
    } else {
        merged(merged_all(pages.drop_last(), order), pages.last(), order)
    }
}

/// The links of all `pages`, one page after the other.
pub open spec fn in_page_order(pages: Seq<Seq<Seq<char>>>) -> Seq<Seq<char>>
    decreases pages.len(),
{
    if pages.len() == 0 {
        Seq::empty()
    } else {
        in_page_order(pages.drop_last()) + pages.last()
    }
}

/// Ascending merging keeps the order of the pages; descending merging gives
/// the links of all pages in reverse.
pub proof fn lemma_merge_order(pages: Seq<Seq<Seq<char>>>)
    ensures
        merged_all(pages, PageOrder::Ascending) == in_page_order(pages),
        merged_all(pages, PageOrder::Descending) == in_page_order(pages).reverse(),
    decreases pages.len(),
{
    if pages.len() > 0 {
        lemma_merge_order(pages.drop_last());
        let init = in_page_order(pages.drop_last());
        let last = pages.last();
        assert((init + last).reverse() =~= last.reverse() + init.reverse());
    } else {
        assert(Seq::<Seq<char>>::empty().reverse() =~= Seq::<Seq<char>>::empty());
    }
}

/// Why a response yields nothing.
#[derive(Clone, Copy, Debug, PartialEq, Eq, Structural)]
pub enum ResponseError {
    /// The response does not announce a text.
    Header,
    /// The body is not valid UTF-8.
    Utf8,
}

/// The documents that the narrowing stages leave of a body; the body itself
/// where there are no stages.
pub open spec fn docs_of(parts: Option<Seq<Seq<char>>>, body: Seq<char>) -> Seq<Seq<char>> {
    match parts {
        Some(stages) => narrowed(seq![body], stages),
        None => seq![body],
    }
}

/// One handler for each document, made by the extracting pattern; none where
/// there is no such pattern.
pub open spec fn handlers_of(
    docs: Seq<Seq<char>>,
    extract: Option<Seq<char>>,
    root_path: Option<Seq<char>>,
    source_url: Seq<char>,
    raw_cookies: Option<Seq<Seq<u8>>>,
) -> Seq<ResultHandlerView> {
    match extract {
        Some(pattern) => Seq::new(
            docs.len(),
            |i: int| extracted(docs[i], pattern, root_path, source_url, raw_cookies),
        ),
        None => Seq::empty(),
    }
}

/// What navigation has of one response.
pub ghost struct NavigationResultView {
    pub extracted: Seq<ResultHandlerView>,
    pub pager: Option<Seq<ResultHandlerView>>,
}

/// What the rule makes of a response that came from `source_url`: the
/// handlers of the content pipeline and those of the pager pipeline, or the
/// reason why the response yields nothing.
pub open spec fn read_outcome(
    source_url: Seq<char>,
    rule: UnitNavigationRuleView,
    response: &Response,
) -> Result<NavigationResultView, ResponseError> {
    if !(announced(response.content_type.deep_view()) is Text) {
        Err(ResponseError::Header)
    } else if !valid_utf8(response.body@) {
        Err(ResponseError::Utf8)
    } else {
        let body = decode_utf8(response.body@);
        let cookies = response.set_cookie.deep_view();
        Ok(
            NavigationResultView {
                extracted: handlers_of(
                    docs_of(rule.parts, body),
                    rule.extract,
                    None,
                    source_url,
                    cookies,
                ),
                pager: Some(
                    match rule.pager {
                        Some(pager) => handlers_of(
                            docs_of(pager.parts, body),
                            pager.extract,
                            None,
                            source_url,
                            cookies,
                        ),
                        None => Seq::empty(),
                    },
                ),
            },
        )
    }
}

/// What the rule makes of the responses of a batch, in their order; a
/// response that yields nothing is passed over.
pub open spec fn read_all(
    urls: Seq<Seq<char>>,
    rule: UnitNavigationRuleView,
    responses: Seq<Response>,
) -> Seq<NavigationResultView>
    decreases responses.len(),
{
    if responses.len() == 0 || urls.len() != responses.len() {
        Seq::empty()
    } else {
        let init = read_all(urls.drop_last(), rule, responses.drop_last());
        match read_outcome(urls.last(), rule, &responses.last()) {
            Ok(result) => init.push(result),
            Err(_) => init,
        }
    }
}

/// What the pager remembers after the results `navs` of a page.
pub open spec fn pager_after(follows: bool, pager: PagerView, navs: Seq<NavigationResultView>) -> PagerView
    decreases navs.len(),
{
    if navs.len() == 0 {
        pager
    } else {
        let before = pager_after(follows, pager, navs.drop_last());
        match navs.last().pager {
            Some(handlers) => turned(follows, before, handlers),
            None => before,
        }
    }
}

/// The requests that the pager plans for the results `navs` of a page.
pub open spec fn page_requests(follows: bool, pager: PagerView, navs: Seq<NavigationResultView>) -> Seq<
    RequestView,
>
    decreases navs.len(),
{
    if navs.len() == 0 {
        Seq::empty()
    } else {
        let before = pager_after(follows, pager, navs.drop_last());
        page_requests(follows, pager, navs.drop_last()) + match navs.last().pager {
            Some(handlers) => planned(follows, before.history, handlers),
            None => Seq::empty(),
        }
    }
}

/// The links that the results `navs` of a page collect, in order.
pub open spec fn page_links(navs: Seq<NavigationResultView>) -> Seq<Seq<char>>
    decreases navs.len(),
{
    if navs.len() == 0 {
        Seq::empty()
    } else {
        page_links(navs.drop_last()) + collected(navs.last().extracted, collect_label())
    }
}

/// Whether every link of the page that is requested or collected stands
/// for a request target.
pub open spec fn page_ok(follows: bool, pager: PagerView, navs: Seq<NavigationResultView>) -> bool
    decreases navs.len(),
{
    navs.len() == 0 || {
        let before = pager_after(follows, pager, navs.drop_last());
        &&& page_ok(follows, pager, navs.drop_last())
        &&& navs.last().pager matches Some(handlers) ==> (follows ==> followable(
            before.history,
            handlers,
        ))
        &&& collectable(navs.last().extracted, collect_label())
    }
}

/// What one response yields for navigation.
pub struct NavigationResultHandler {
    extracted_results: Vec<ResultHandler>,
    pager_result: Option<Vec<ResultHandler>>,
}

impl View for NavigationResultHandler {
    type V = NavigationResultView;

    closed spec fn view(&self) -> NavigationResultView {
        NavigationResultView {
            extracted: self.extracted_results.deep_view(),
            pager: self.pager_result.deep_view(),
        }
    }
}

impl DeepView for NavigationResultHandler {
    type V = NavigationResultView;

    open spec fn deep_view(&self) -> NavigationResultView {
        self@
    }
}

impl NavigationResultHandler {
    pub fn new(extracted_results: Vec<ResultHandler>, pager_result: Option<Vec<ResultHandler>>) -> (handler:
        NavigationResultHandler)
        ensures
            handler@ == (NavigationResultView {
                extracted: extracted_results.deep_view(),
                pager: pager_result.deep_view(),
            }),
    {
        NavigationResultHandler { extracted_results: extracted_results, pager_result: pager_result }
    }

    pub fn extracted_results(&self) -> (results: &Vec<ResultHandler>)
        ensures
            results.deep_view() == self@.extracted,
    {
        &self.extracted_results
    }

    pub fn pager_result(&self) -> (results: Option<&Vec<ResultHandler>>)
        ensures
            results.deep_view() == self@.pager,
    {
        self.pager_result.as_ref()
    }
}

/// Applies one rule to the body of the response that came from
/// `source_url`.
pub struct UnitNavigationRuleResponseHandler<'a> {
    source_url: String,
    rule: &'a UnitNavigationRule,
}

impl<'a> UnitNavigationRuleResponseHandler<'a> {
    pub closed spec fn spec_source_url(&self) -> Seq<char> {
        self.source_url@
    }

    pub closed spec fn spec_rule(&self) -> UnitNavigationRuleView {
        self.rule@
    }

    pub fn new(source_url: String, rule: &'a UnitNavigationRule) -> (handler:
        UnitNavigationRuleResponseHandler<'a>)
        ensures
            handler.spec_source_url() == source_url@,
            handler.spec_rule() == rule@,
    {
        UnitNavigationRuleResponseHandler { source_url: source_url, rule: rule }
    }

    /// The documents that the rule's stages leave of the content.
    pub fn part_from_content(&self, cnt: &str) -> (part_contents: Vec<String>)
        requires
            self.spec_rule().usable(),
        ensures
            part_contents.deep_view() == docs_of(self.spec_rule().parts, cnt@),
    {
        let content = cnt.to_owned();
        let part_rules: Option<&Vec<String>> = self.rule.parts();
        let part_contents: Vec<String> = match part_rules {
            Some(part_exps) => RuleUtils::make_part_contents(content, part_exps),
            None => {
                let mut part_content: Vec<String> = Vec::new();
                part_content.push(content);
                assert(part_content.deep_view() =~= seq![cnt@]);
                part_content
            },
        };
        part_contents
    }

    /// The handlers that the rule's extracting pattern makes of the
    /// documents.
    pub fn extract_from_content_part(&self, part_contents: Vec<String>, raw_cookies: Option<Raw>) -> (handlers:
        Vec<ResultHandler>)
        requires
            self.spec_rule().usable(),
        ensures
            handlers.deep_view() == handlers_of(
                part_contents.deep_view(),
                self.spec_rule().extract,
                None,
                self.spec_source_url(),
                raw_cookies.deep_view(),
            ),
    {
        let rule = self.rule;
        let extract_rule = rule.extract();
        self.extract_from_parts(extract_rule, part_contents, raw_cookies)
    }

    /// The handlers that `extract_rule` makes of the documents; none where
    /// there is no pattern.
    pub fn extract_from_parts(
        &self,
        extract_rule: Option<&String>,
        part_contents: Vec<String>,
        raw_cookies: Option<Raw>,
    ) -> (handlers: Vec<ResultHandler>)
        requires
            extract_rule matches Some(pattern) ==> crate::pattern::regex_compiles(pattern@),
        ensures
            handlers.deep_view() == handlers_of(
                part_contents.deep_view(),
                extract_rule.deep_view(),
                None,
                self.spec_source_url(),
                raw_cookies.deep_view(),
            ),
    {
        let extract_contents: Vec<ResultHandler> = match extract_rule {
            Some(extract_exp) => {
                let made = RuleUtils::make_result_handlers(
                    part_contents,
                    extract_exp,
                    None,
                    self.source_url.clone(),
                    raw_cookies,
                );
                assert(made.deep_view() =~= handlers_of(
                    part_contents.deep_view(),
                    extract_rule.deep_view(),
                    None,
                    self.spec_source_url(),
                    raw_cookies.deep_view(),
                ));
                made
            },
            None => {
                let empty_vec: Vec<ResultHandler> = Vec::new();
                assert(empty_vec.deep_view() =~= Seq::empty());
                empty_vec
            },
        };
        extract_contents
    }

    /// The documents that the stages of the pager rule leave of the content;
    /// none where the rule has no pager.
    pub fn part_with_pager(&self, cnt: &str) -> (part_contents: Vec<String>)
        requires
            self.spec_rule().usable(),
        ensures
            part_contents.deep_view() == match self.spec_rule().pager {
                Some(pager) => docs_of(pager.parts, cnt@),
                None => Seq::empty(),
            },
    {
        let content = cnt.to_owned();
        let pager_rule: &PagerRule = match self.rule.pager() {
            Some(part_rule) => part_rule,
            None => {
                let part_content: Vec<String> = Vec::new();
                assert(part_content.deep_view() =~= Seq::empty());
                return part_content;
            },
        };
        let part_content = match pager_rule.parts() {
            Some(part_exps) => RuleUtils::make_part_contents(content, part_exps),
            None => {
                let mut part_content: Vec<String> = Vec::new();
                part_content.push(content);
                assert(part_content.deep_view() =~= seq![cnt@]);
                part_content
            },
        };
        part_content
    }

    /// The handlers that the extracting pattern of the pager rule makes of
    /// the documents; none where the rule has no pager.
    pub fn extract_from_pager_part(&self, part_contents: Vec<String>, raw_cookies: Option<Raw>) -> (handlers:
        Vec<ResultHandler>)
        requires
            self.spec_rule().usable(),
        ensures
            handlers.deep_view() == match self.spec_rule().pager {
                Some(pager) => handlers_of(
                    part_contents.deep_view(),
                    pager.extract,
                    None,
                    self.spec_source_url(),
                    raw_cookies.deep_view(),
                ),
                None => Seq::empty(),
            },
    {
        let pager_rule: &PagerRule = match self.rule.pager() {
            Some(part_rule) => part_rule,
            None => {
                let extract_content: Vec<ResultHandler> = Vec::new();
                assert(extract_content.deep_view() =~= Seq::empty());
                return extract_content;
            },
        };
        let extract_rule = pager_rule.extract();
        self.extract_from_parts(extract_rule, part_contents, raw_cookies)
    }
}

/// What a navigation holds.
pub ghost struct NavigationView {
    /// The requests of the next batch.
    pub queue: Seq<RequestView>,
    pub pager: PagerView,
    /// Whether the pager follows the links that pages show.
    pub follows: bool,
    /// The links collected so far.
    pub links: Seq<Seq<char>>,
    /// The URLs of the batch that was handed out, request by request.
    pub pending: Seq<Seq<char>>,
}

/// The walk over the pages of one rule.
pub struct Navigation {
    conn: Connector,
    pager: Pager,
    links: VecDeque<String>,
    pending: Vec<String>,
}

impl View for Navigation {
    type V = NavigationView;

    closed spec fn view(&self) -> NavigationView {
        NavigationView {
            queue: self.conn.views(),
            pager: self.pager@,
            follows: self.pager.follows(),
            links: self.links.deep_view(),
            pending: self.pending.deep_view(),
        }
    }
}

/// Whether the rule asks for the pager that follows links.
pub open spec fn follows_links(rule: UnitNavigationRuleView) -> bool {
    rule.pager matches Some(pager) && pager.pager == naver_webtoon_name()
}

/// The entry URL of the rule as its pager requests it.
pub open spec fn entry_of(rule: UnitNavigationRuleView) -> UriView {
    if follows_links(rule) {
        normalized_entry(rule.entry)
    } else {
        uri_parse(rule.entry)->0
    }
}

/// Whether navigation can set out: the entry URL parses, and where the pager
/// follows links, it can be normalized and recorded.
pub open spec fn startable(rule: UnitNavigationRuleView) -> bool {
    if follows_links(rule) {
        entry_usable(rule.entry) && relative_usable(entry_of(rule).source)
    } else {
        uri_parse(rule.entry) is Some
    }
}

/// The navigation of a rule before its first batch.
pub open spec fn started(rule: UnitNavigationRuleView) -> NavigationView {
    NavigationView {
        queue: seq![
            RequestView { method: Method::Get, uri: entry_of(rule), set_cookie: None, referer: None },
        ],
        pager: PagerView {
            history: if follows_links(rule) {
                Set::empty().insert(escaped(relative_text(entry_of(rule).source)))
            } else {
                Set::empty()
            },
            next_request_available: true,
        },
        follows: follows_links(rule),
        links: Seq::empty(),
        pending: Seq::empty(),
    }
}

/// Whether each response has a content type that can be read.
pub open spec fn all_readable(responses: Seq<Response>) -> bool {
    forall|i: int|
        0 <= i < responses.len() ==> content_type_readable(
            (#[trigger] responses[i]).content_type.deep_view(),
        )
}

impl NavigationView {
    /// Whether the responses of a batch can be taken in: there is one for
    /// each request, the rule's patterns compile, each content type can be
    /// read, and each link that is requested or collected stands for a
    /// request target.
    pub open spec fn accepts(self, rule: UnitNavigationRuleView, responses: Seq<Response>) -> bool {
        &&& responses.len() == self.pending.len()
        &&& rule.usable()
        &&& all_readable(responses)
        &&& page_ok(self.follows, self.pager, read_all(self.pending, rule, responses))
    }

    /// The navigation after the responses of a batch were taken in.
    pub open spec fn accepted(self, rule: UnitNavigationRuleView, responses: Seq<Response>) -> NavigationView {
        let navs = read_all(self.pending, rule, responses);
        NavigationView {
            queue: page_requests(self.follows, self.pager, navs),
            pager: pager_after(self.follows, self.pager, navs),
            follows: self.follows,
            links: merged(
                self.links,
                page_links(navs),
                if self.follows {
                    PageOrder::Descending
                } else {
                    PageOrder::Ascending
                },
            ),
            pending: Seq::empty(),
        }
    }
}

pub struct Navigator<'a> {
    rules: &'a NavigationRules,
}

impl<'a> Navigator<'a> {
    pub closed spec fn spec_rules(&self) -> Seq<UnitNavigationRule> {
        self.rules@
    }

    pub fn new(rule_config: &'a NavigationRules) -> (navigator: Navigator<'a>)
        ensures
            navigator.spec_rules() == rule_config@,
    {
        Navigator { rules: rule_config }
    }

    /// The rules of this navigator.
    pub fn rules(&self) -> (rules: &'a NavigationRules)
        ensures
            rules@ == self.spec_rules(),
    {
        self.rules
    }

    /// For each rule name the index of the rule; of rules that share a name
    /// the last.
    pub fn name_index_map(&self) -> (map: StringMap<usize>)
        ensures
            forall|k: Seq<char>|
                map@.contains_key(k) <==> exists|i: int|
                    0 <= i < self.spec_rules().len() && (#[trigger] self.spec_rules()[i])@.name
                        == k,
            forall|k: Seq<char>| #[trigger]
                map@.contains_key(k) ==> {
                    &&& map@[k] < self.spec_rules().len()
                    &&& self.spec_rules()[map@[k] as int]@.name == k
                    &&& forall|j: int|
                        map@[k] < j < self.spec_rules().len() ==> (
                        #[trigger] self.spec_rules()[j])@.name != k
                },
    {
        let mut map: StringMap<usize> = StringMap::new();
        let navigation_rules = self.rules.navigation();
        let mut index: usize = 0;
        while index < navigation_rules.len()
            invariant
                index <= navigation_rules.len(),
                navigation_rules@ == self.spec_rules(),
                forall|k: Seq<char>|
                    map@.contains_key(k) <==> exists|i: int|
                        0 <= i < index && (#[trigger] self.spec_rules()[i])@.name == k,
                forall|k: Seq<char>| #[trigger]
                    map@.contains_key(k) ==> {
                        &&& map@[k] < index
                        &&& self.spec_rules()[map@[k] as int]@.name == k
                        &&& forall|j: int|
                            map@[k] < j < index ==> (#[trigger] self.spec_rules()[j])@.name != k
                    },
            decreases navigation_rules.len() - index,
        {
            let rule = &navigation_rules[index];
            let name = rule.name();
            let ghost before = map@;
            map.insert(name.clone(), index);
            proof {
                let rules = self.spec_rules();
                assert(rules[index as int]@.name == name@);
                assert forall|k: Seq<char>|
                    map@.contains_key(k) <==> exists|i: int|
                        0 <= i < index + 1 && (#[trigger] rules[i])@.name == k by {
                    if map@.contains_key(k) {
                        if k == name@ {
                            assert(rules[index as int]@.name == k);
                        } else {
                            assert(before.contains_key(k));
                            let i = choose|i: int| 0 <= i < index && (#[trigger] rules[i])@.name == k;
                            assert(0 <= i < index + 1 && rules[i]@.name == k);
                        }
                    }
                    if exists|i: int| 0 <= i < index + 1 && (#[trigger] rules[i])@.name == k {
                        let i = choose|i: int| 0 <= i < index + 1 && (#[trigger] rules[i])@.name == k;
                        if i < index {
                            assert(before.contains_key(k));
                        }
                    }
                }
                assert forall|k: Seq<char>| #[trigger] map@.contains_key(k) implies {
                    &&& map@[k] < index + 1
                    &&& rules[map@[k] as int]@.name == k
                    &&& forall|j: int|
                        map@[k] < j < index + 1 ==> (#[trigger] rules[j])@.name != k
                } by {
                    if k != name@ {
                        assert(before.contains_key(k));
                    }
                }
            }
            index += 1;
        }
        map
    }

    /// Puts the links of a page to those collected before, and empties
    /// `target`.
    pub fn merge_vec(source: &mut VecDeque<String>, target: &mut VecDeque<String>, ordering: PageOrder)
        ensures
            final(source).deep_view() == merged(
                old(source).deep_view(),
                old(target).deep_view(),
                ordering,
            ),
            final(target)@.len() == 0,
    {
        let ghost src = source.deep_view();
        let ghost tgt = target.deep_view();
        let ghost mut k: int = 0;
        match ordering {
            PageOrder::Ascending => {
                assert(src + tgt.take(0) =~= src);
                assert(tgt.skip(0) =~= tgt);
                loop
                    invariant
                        0 <= k <= tgt.len(),
                        source.deep_view() == src + tgt.take(k),
                        target.deep_view() == tgt.skip(k),
                    ensures
                        source.deep_view() == src + tgt,
                        target@.len() == 0,
                    decreases tgt.len() - k,
                {
                    let ghost before = source.deep_view();
                    let ghost rest = target.deep_view();
                    let ghost waiting = target@;
                    let pop = target.pop_front();
                    match pop {
                        Some(value) => {
                            proof {
                                assert(rest.len() > 0);
                                assert(value@ == rest[0]);
                                assert forall|j: int| 0 <= j < target@.len() implies target.deep_view()[j]
                                    == tgt.skip(k + 1)[j] by {
                                    assert(target@[j] == waiting[j + 1]);
                                    assert(rest[j + 1] == waiting[j + 1].deep_view());
                                    assert(tgt.skip(k)[j + 1] == tgt.skip(k + 1)[j]);
                                }
                                assert(target.deep_view() =~= tgt.skip(k + 1));
                            }
                            source.push_back(value);
                            proof {
                                assert(source.deep_view() =~= before.push(tgt[k]));
                                assert(src + tgt.take(k + 1) =~= (src + tgt.take(k)).push(tgt[k]));
                                k = k + 1;
                            }
                        },
                        None => {
                            assert(rest.len() == 0);
                            assert(tgt.take(k) =~= tgt);
                            break ;
                        },
                    }
                }
            },
            PageOrder::Descending => {
                assert(tgt.take(0).reverse() + src =~= src);
                assert(tgt.skip(0) =~= tgt);
                loop
                    invariant
                        0 <= k <= tgt.len(),
                        source.deep_view() == tgt.take(k).reverse() + src,
                        target.deep_view() == tgt.skip(k),
                    ensures
                        source.deep_view() == tgt.reverse() + src,
                        target@.len() == 0,
                    decreases tgt.len() - k,
                {
                    let ghost before = source.deep_view();
                    let ghost rest = target.deep_view();
                    let ghost waiting = target@;
                    let pop = target.pop_front();
                    match pop {
                        Some(value) => {
                            proof {
                                assert(rest.len() > 0);
                                assert(value@ == rest[0]);
                                assert forall|j: int| 0 <= j < target@.len() implies target.deep_view()[j]
                                    == tgt.skip(k + 1)[j] by {
                                    assert(target@[j] == waiting[j + 1]);
                                    assert(rest[j + 1] == waiting[j + 1].deep_view());
                                    assert(tgt.skip(k)[j + 1] == tgt.skip(k + 1)[j]);
                                }
                                assert(target.deep_view() =~= tgt.skip(k + 1));
                            }
                            source.push_front(value);
                            proof {
                                assert(source.deep_view() =~= seq![tgt[k]] + before);
                                assert(tgt.take(k + 1).reverse() + src =~= seq![tgt[k]] + (tgt.take(
                                    k,
                                ).reverse() + src));
                                k = k + 1;
                            }
                        },
                        None => {
                            assert(rest.len() == 0);
                            assert(tgt.take(k) =~= tgt);
                            break ;
                        },
                    }
                }
            },
        }
    }

    /// The pager that the rule names; the plain one where it names none or
    /// one that is not known.
    pub fn get_pager(rule: &UnitNavigationRule) -> (pager: Pager)
        ensures
            pager.follows() == follows_links(rule@),
            pager@ == (PagerView { history: Set::empty(), next_request_available: true }),
    {
        match rule.pager() {
            Some(pager) => {
                let pager_name = pager.pager().as_str();
                proof {
                    reveal_strlit("naver-webtoon");
                    assert("naver-webtoon"@ =~= naver_webtoon_name());
                }
                if str_eq(pager_name, "naver-webtoon") {
                    Pager::NaverWebtoon(NaverWebtoonPager::new())
                } else {
                    Pager::Default(DefaultPager::new())
                }
            },
            None => Pager::Default(DefaultPager::new()),
        }
    }

    /// What the rule makes of one response: the handlers of both pipelines
    /// where the response is a text in valid UTF-8, else the reason why not.
    pub fn read_response(source_url: &String, rule: &UnitNavigationRule, response: &Response) -> (outcome:
        Result<NavigationResultHandler, ResponseError>)
        requires
            rule@.usable(),
            content_type_readable(response.content_type.deep_view()),
        ensures
            match outcome {
                Ok(result) => read_outcome(source_url@, rule@, response) == Ok::<
                    NavigationResultView,
                    ResponseError,
                >(result@),
                Err(error) => read_outcome(source_url@, rule@, response) == Err::<
                    NavigationResultView,
                    ResponseError,
                >(error),
            },
    {
        let unit_response_handler = UnitNavigationRuleResponseHandler::new(
            source_url.clone(),
            rule,
        );
        let header_type = Connector::get_content_type(response);
        let will_be_okay = match header_type {
            HeaderContentType::Text(_header) => true,
            _ => false,
        };
        if !will_be_okay {
            return Err(ResponseError::Header);
        }
        let body_content = match string_from_utf8(&response.body) {
            Some(body) => body,
            None => {
                return Err(ResponseError::Utf8);
            },
        };
        let part_contents = unit_response_handler.part_from_content(body_content.as_str());
        let extract_contents: Vec<ResultHandler> = unit_response_handler.extract_from_content_part(
            part_contents,
            Connector::get_raw_cookies(response),
        );
        let pager_part_contents = unit_response_handler.part_with_pager(body_content.as_str());
        let pager_results: Vec<ResultHandler> = unit_response_handler.extract_from_pager_part(
            pager_part_contents,
            Connector::get_raw_cookies(response),
        );
        let navigation_result_handler = NavigationResultHandler::new(
            extract_contents,
            Some(pager_results),
        );
        Ok(navigation_result_handler)
    }

    /// Whether every link of the page that is requested or collected stands
    /// for a request target.
    pub fn can_get_navigation_links_in_page(pager: &Pager, handlers: &Vec<NavigationResultHandler>) -> (ok:
        bool)
        ensures
            ok == page_ok(pager.follows(), pager@, handlers.deep_view()),
    {
        let mut probe = pager.duplicate();
        let ghost navs = handlers.deep_view();
        let ghost follows = pager.follows();
        let mut i: usize = 0;
        assert(navs.take(0) =~= Seq::empty());
        while i < handlers.len()
            invariant
                i <= handlers.len(),
                navs == handlers.deep_view(),
                follows == pager.follows(),
                probe.follows() == follows,
                probe@ == pager_after(follows, pager@, navs.take(i as int)),
                page_ok(follows, pager@, navs.take(i as int)),
            decreases handlers.len() - i,
        {
            let navigation_result_handler = &handlers[i];
            proof {
                assert(navs.take(i + 1).drop_last() =~= navs.take(i as int));
                assert(navs.take(i + 1).last() == navigation_result_handler@);
                lemma_page_ok_prefix(follows, pager@, navs, i + 1);
            }
            match navigation_result_handler.pager_result() {
                Some(pager_result_handlers) => {
                    if !probe.can_make_next_requests(pager_result_handlers) {
                        return false;
                    }
                    let _ = probe.make_next_requests(pager_result_handlers);
                },
                None => {},
            }
            if !specific_pager::can_collect_links(
                ReservedLabel::Collect,
                navigation_result_handler.extracted_results(),
            ) {
                return false;
            }
            i += 1;
        }
        assert(navs.take(handlers.len() as int) =~= navs);
        true
    }

    /// Takes in the results of one page: the pager plans the requests for the
    /// links it follows, which go into the queue, and the collected links
    /// come back in the order of the results.
    pub fn get_navigation_links_in_page(
        conn: &mut Connector,
        pager: &mut Pager,
        handlers: &Vec<NavigationResultHandler>,
    ) -> (links: VecDeque<String>)
        requires
            page_ok(old(pager).follows(), old(pager)@, handlers.deep_view()),
        ensures
            links.deep_view() == page_links(handlers.deep_view()),
            final(pager).follows() == old(pager).follows(),
            final(pager)@ == pager_after(old(pager).follows(), old(pager)@, handlers.deep_view()),
            final(conn).views() == old(conn).views() + page_requests(
                old(pager).follows(),
                old(pager)@,
                handlers.deep_view(),
            ),
    {
        let mut links: VecDeque<String> = VecDeque::new();
        let ghost navs = handlers.deep_view();
        let ghost follows = pager.follows();
        let ghost start = pager@;
        let ghost queue = conn.views();
        let mut i: usize = 0;
        assert(navs.take(0) =~= Seq::empty());
        assert(links.deep_view() =~= Seq::empty());
        assert(queue + Seq::<RequestView>::empty() =~= queue);
        while i < handlers.len()
            invariant
                i <= handlers.len(),
                navs == handlers.deep_view(),
                page_ok(follows, start, navs),
                pager.follows() == follows,
                pager@ == pager_after(follows, start, navs.take(i as int)),
                links.deep_view() == page_links(navs.take(i as int)),
                conn.views() == queue + page_requests(follows, start, navs.take(i as int)),
            decreases handlers.len() - i,
        {
            let navigation_result_handler = &handlers[i];
            proof {
                assert(navs.take(i + 1).drop_last() =~= navs.take(i as int));
                assert(navs.take(i + 1).last() == navigation_result_handler@);
                lemma_page_ok_prefix(follows, start, navs, i + 1);
            }
            let pager_result = navigation_result_handler.pager_result();
            let ghost waiting = conn.views();
            match pager_result {
                Some(pager_result_handlers) => {
                    let mut requests = pager.make_next_requests(pager_result_handlers);
                    let ghost added = Seq::new(requests@.len(), |k: int| requests@[k]@);
                    conn.add_requests(&mut requests);
                    assert(conn.views() =~= waiting + added);
                },
                None => {
                    assert(waiting + Seq::<RequestView>::empty() =~= waiting);
                },
            }
            let extracted_results = navigation_result_handler.extracted_results();
            let mut nav_results = pager.collect_ordered_result(
                ReservedLabel::Collect,
                extracted_results,
            );
            let ghost before = links.deep_view();
            let ghost found = nav_results.deep_view();
            links.append(&mut nav_results);
            proof {
                assert(links.deep_view() =~= before + found);
                assert(conn.views() =~= queue + page_requests(follows, start, navs.take(i + 1)));
            }
            i += 1;
        }
        assert(navs.take(handlers.len() as int) =~= navs);
        links
    }

    /// Whether navigation can set out by `rule`.
    pub fn can_start(rule: &UnitNavigationRule) -> (ok: bool)
        ensures
            ok == startable(rule@),
    {
        let pager = Navigator::get_pager(rule);
        if !pager.can_get_entry_uri(rule.entry().as_str()) {
            return false;
        }
        let entry_uri = pager.get_entry_uri(rule.entry().as_str());
        pager.can_set_as_requested(entry_uri.as_str())
    }

    /// Sets out by `rule`: chooses the pager, records the entry URL as
    /// requested and puts the request for it into the queue.
    pub fn start(rule: &UnitNavigationRule) -> (navigation: Navigation)
        requires
            startable(rule@),
        ensures
            navigation@ == started(rule@),
    {
        let mut conn = Connector::new();
        let mut pager = Navigator::get_pager(rule);
        let entry_uri = pager.get_entry_uri(rule.entry().as_str());
        pager.set_as_requested(entry_uri.as_str());
        conn.add_request(Request::new(Method::Get, entry_uri));
        let navigation = Navigation {
            conn: conn,
            pager: pager,
            links: VecDeque::new(),
            pending: Vec::new(),
        };
        proof {
            assert(navigation@.queue =~= started(rule@).queue);
            assert(navigation@.links =~= Seq::empty());
            assert(navigation@.pending =~= Seq::empty());
            assert(navigation@.pager.history =~= started(rule@).pager.history);
        }
        navigation
    }

    /// Sets out by `rule`, where that can be done.
    pub fn try_start(rule: &UnitNavigationRule) -> (navigation: Option<Navigation>)
        ensures
            navigation is Some <==> startable(rule@),
            navigation matches Some(n) ==> n@ == started(rule@),
    {
        if Navigator::can_start(rule) {
            Some(Navigator::start(rule))
        } else {
            None
        }
    }
}

/// A pager only moves on: what it has requested stays requested, and once it
/// expects no further page it never expects one again.
pub proof fn lemma_pager_moves_on(follows: bool, pager: PagerView, navs: Seq<NavigationResultView>)
    ensures
        pager.history.subset_of(pager_after(follows, pager, navs).history),
        pager_after(follows, pager, navs).next_request_available ==> pager.next_request_available,
    decreases navs.len(),
{
    if navs.len() > 0 {
        lemma_pager_moves_on(follows, pager, navs.drop_last());
    }
}

/// A page whose pager results show no `next` ends the walk: the pager
/// expects no further page after it.
pub proof fn lemma_page_without_next_ends(
    follows: bool,
    pager: PagerView,
    handlers: Seq<ResultHandlerView>,
)
    requires
        !shows_next(handlers),
    ensures
        !turned(follows, pager, handlers).next_request_available,
{
}

/// The links of one handler, as the pager walks them.
proof fn lemma_links_of_one(h: ResultHandlerView)
    ensures
        link_refs(seq![h]) == refs_of(0, h.values_of(link_label())),
{
    let s = seq![h];
    assert(s.drop_last() =~= Seq::<ResultHandlerView>::empty());
    assert(s.last() == h);
    assert(link_refs(s.drop_last()) + refs_of(0, h.values_of(link_label())) =~= refs_of(
        0,
        h.values_of(link_label()),
    ));
}

/// A pager that follows links walks three pages as they ask: the first page
/// links to the second and shows `next`; the second links back to the
/// first, which was requested, and on to the third, and shows `next`; the
/// third links nowhere and shows no `next`. Then the second page is
/// requested after the first, the third after the second and the first not
/// again, nothing is requested after the third, and no page is expected
/// any more.
pub proof fn lemma_walk_of_three_pages(
    history: Set<Seq<char>>,
    first: ResultHandlerView,
    second: ResultHandlerView,
    third: ResultHandlerView,
    p1: Seq<char>,
    p2: Seq<char>,
    p3: Seq<char>,
)
    requires
        history.contains(p1),
        !history.contains(p2),
        !history.contains(p3),
        p2 != p3,
        first.values_of(link_label()) == seq![p2],
        first.values_of(type_label()) == seq![next_marker()],
        second.values_of(link_label()) == seq![p1, p3],
        second.values_of(type_label()) == seq![next_marker()],
        third.values_of(link_label()) == Seq::<Seq<char>>::empty(),
        third.values_of(type_label()) == Seq::<Seq<char>>::empty(),
    ensures
        ({
            let start = PagerView { history, next_request_available: true };
            let after_first = turned(true, start, seq![first]);
            let after_second = turned(true, after_first, seq![second]);
            let after_third = turned(true, after_second, seq![third]);
            &&& planned(true, start.history, seq![first]) == seq![follow_up(seq![first], (0, p2))]
            &&& after_first.next_request_available
            &&& planned(true, after_first.history, seq![second]) == seq![
                follow_up(seq![second], (0, p3)),
            ]
            &&& after_second.next_request_available
            &&& planned(true, after_second.history, seq![third]) == Seq::<RequestView>::empty()
            &&& !after_third.next_request_available
            &&& after_third.history == history.insert(p2).insert(p3)
        }),
{
    let start = PagerView { history, next_request_available: true };
    let after_first = turned(true, start, seq![first]);
    let after_second = turned(true, after_first, seq![second]);
    let after_third = turned(true, after_second, seq![third]);
    lemma_links_of_one(first);
    lemma_links_of_one(second);
    lemma_links_of_one(third);
    let r2 = (0int, p2);
    let r1 = (0int, p1);
    let r3 = (0int, p3);
    let refs1 = refs_of(0, seq![p2]);
    let refs2 = refs_of(0, seq![p1, p3]);
    let refs3 = refs_of(0, Seq::<Seq<char>>::empty());
    assert(refs1 =~= seq![r2]);
    assert(refs2 =~= seq![r1, r3]);
    assert(refs3 =~= Seq::<(int, Seq<char>)>::empty());
    // The first page: its one link is new.
    let none = Seq::<(int, Seq<char>)>::empty();
    let handlers = Seq::<ResultHandlerView>::empty();
    assert(refs1 =~= none.push(r2));
    lemma_followable_push(history, handlers, none, r2);
    assert(fresh(history, refs1) =~= seq![r2]);
    assert(planned(true, history, seq![first]) =~= seq![follow_up(seq![first], r2)]);
    assert(first.values_of(type_label())[0] == next_marker());
    assert(handler_shows_next(first));
    assert(seq![first][0] == first);
    assert(shows_next(seq![first]));
    assert forall|l: Seq<char>| mentions(refs1, l) <==> l == p2 by {
        if l == p2 {
            assert(refs1[0].1 == l);
        }
    }
    assert(after_first.history =~= history.insert(p2));
    // The second page: the first link was requested, the second is new.
    let h1 = after_first.history;
    assert(seq![r1] =~= none.push(r1));
    assert(refs2 =~= seq![r1].push(r3));
    lemma_followable_push(h1, handlers, none, r1);
    assert(fresh(h1, seq![r1]) =~= none);
    assert(!mentions(seq![r1], p3)) by {
        if mentions(seq![r1], p3) {
            let k = choose|k: int| 0 <= k < seq![r1].len() && (#[trigger] seq![r1][k]).1 == p3;
            assert(p1 == p3);
        }
    }
    lemma_followable_push(h1, handlers, seq![r1], r3);
    assert(fresh(h1, refs2) =~= seq![r3]);
    assert(planned(true, h1, seq![second]) =~= seq![follow_up(seq![second], r3)]);
    assert(second.values_of(type_label())[0] == next_marker());
    assert(handler_shows_next(second));
    assert(seq![second][0] == second);
    assert(shows_next(seq![second]));
    assert forall|l: Seq<char>| mentions(refs2, l) <==> (l == p1 || l == p3) by {
        if l == p1 {
            assert(refs2[0].1 == l);
        }
        if l == p3 {
            assert(refs2[1].1 == l);
        }
    }
    assert(after_second.history =~= history.insert(p2).insert(p3));
    // The third page: no link, no `next`.
    let h2 = after_second.history;
    assert(fresh(h2, refs3) =~= Seq::<(int, Seq<char>)>::empty());
    assert(planned(true, h2, seq![third]) =~= Seq::<RequestView>::empty());
    assert(!shows_next(seq![third])) by {
        if shows_next(seq![third]) {
            let i = choose|i: int| 0 <= i < seq![third].len() && handler_shows_next(
                #[trigger] seq![third][i],
            );
            assert(seq![third][i] == third);
        }
    }
    assert forall|l: Seq<char>| !mentions(refs3, l) by {}
    assert(after_third.history =~= history.insert(p2).insert(p3));
}

/// Where a whole page can be taken in, so can its first `n` results.
pub proof fn lemma_page_ok_prefix(
    follows: bool,
    pager: PagerView,
    navs: Seq<NavigationResultView>,
    n: int,
)
    requires
        0 <= n <= navs.len(),
    ensures
        page_ok(follows, pager, navs) ==> page_ok(follows, pager, navs.take(n)),
    decreases navs.len(),
{
    if n == navs.len() {
        assert(navs.take(n) =~= navs);
    } else {
        assert(navs.drop_last().take(n) =~= navs.take(n));
        lemma_page_ok_prefix(follows, pager, navs.drop_last(), n);
    }
}

impl Navigation {
    /// Whether the pager expects a further page.
    pub fn has_next(&self) -> (available: bool)
        ensures
            available == self@.pager.next_request_available,
    {
        self.pager.has_next_request()
    }

    /// Hands out the requests of the next batch and remembers their URLs:
    /// the response to the request at an index came from the URL at that
    /// index.
    pub fn take_requests(&mut self) -> (batch: Vec<Request>)
        ensures
            batch.deep_view() == old(self)@.queue,
            final(self)@ == (NavigationView {
                queue: Seq::empty(),
                pending: Seq::new(
                    old(self)@.queue.len(),
                    |i: int| old(self)@.queue[i].uri.source,
                ),
                ..old(self)@
            }),
    {
        let urls = self.conn.request_urls();
        let batch = self.conn.take_requests();
        self.pending = urls;
        proof {
            assert(batch.deep_view() =~= old(self)@.queue);
            assert(self@.queue =~= Seq::empty());
            assert(self@.pending =~= Seq::new(
                old(self)@.queue.len(),
                |i: int| old(self)@.queue[i].uri.source,
            ));
        }
        batch
    }

    /// Notes that the batch failed: nothing is taken in, and the walk goes
    /// on with what the queue holds.
    pub fn fail_batch(&mut self)
        ensures
            final(self)@ == (NavigationView { pending: Seq::empty(), ..old(self)@ }),
    {
        self.pending = Vec::new();
        assert(self@.pending =~= Seq::empty());
    }

    /// What the rule makes of the responses of the batch, in their order.
    fn read_batch(&self, rule: &UnitNavigationRule, responses: &Vec<Response>) -> (navs: Vec<
        NavigationResultHandler,
    >)
        requires
            responses.len() == self@.pending.len(),
            rule@.usable(),
            all_readable(responses@),
        ensures
            navs.deep_view() == read_all(self@.pending, rule@, responses@),
    {
        let mut navs: Vec<NavigationResultHandler> = Vec::new();
        let ghost urls = self.pending.deep_view();
        let mut i: usize = 0;
        assert(navs.deep_view() =~= Seq::empty());
        while i < responses.len()
            invariant
                i <= responses.len(),
                responses.len() == self.pending.len(),
                urls == self.pending.deep_view(),
                rule@.usable(),
                all_readable(responses@),
                navs.deep_view() == read_all(urls.take(i as int), rule@, responses@.take(i as int)),
            decreases responses.len() - i,
        {
            proof {
                assert(urls.take(i + 1).drop_last() =~= urls.take(i as int));
                assert(responses@.take(i + 1).drop_last() =~= responses@.take(i as int));
                assert(urls.take(i + 1).last() == self.pending[i as int]@);
                assert(responses@.take(i + 1).last() == responses@[i as int]);
            }
            let outcome = Navigator::read_response(&self.pending[i], rule, &responses[i]);
            match outcome {
                Ok(result) => {
                    let ghost before = navs.deep_view();
                    navs.push(result);
                    assert(navs.deep_view() =~= before.push(result@));
                },
                Err(_) => {},
            }
            i += 1;
        }
        proof {
            assert(urls.take(responses.len() as int) =~= urls);
            assert(responses@.take(responses.len() as int) =~= responses@);
        }
        navs
    }

    /// Whether the responses of the batch can be taken in.
    pub fn can_accept(&self, rule: &UnitNavigationRule, responses: &Vec<Response>) -> (ok: bool)
        ensures
            ok == self@.accepts(rule@, responses@),
    {
        if responses.len() != self.pending.len() || !rule.is_usable() {
            return false;
        }
        let mut i: usize = 0;
        while i < responses.len()
            invariant
                i <= responses.len(),
                forall|k: int|
                    0 <= k < i ==> content_type_readable(
                        (#[trigger] responses@[k]).content_type.deep_view(),
                    ),
            decreases responses.len() - i,
        {
            if !Connector::has_readable_content_type(&responses[i]) {
                return false;
            }
            i += 1;
        }
        let navs = self.read_batch(rule, responses);
        Navigator::can_get_navigation_links_in_page(&self.pager, &navs)
    }

    /// Takes in the responses of the batch that was handed out: reads each
    /// by the rule, lets the pager plan the next batch, and merges the
    /// collected links into those of the pages before.
    pub fn accept(&mut self, rule: &UnitNavigationRule, responses: &Vec<Response>)
        requires
            old(self)@.accepts(rule@, responses@),
        ensures
            final(self)@ == old(self)@.accepted(rule@, responses@),
    {
        let navs = self.read_batch(rule, responses);
        self.conn.clear_requests();
        let ghost cleared = self.conn.views();
        assert(cleared =~= Seq::empty());
        let mut in_page_links = Navigator::get_navigation_links_in_page(
            &mut self.conn,
            &mut self.pager,
            &navs,
        );
        let ordering = self.pager.ordering();
        Navigator::merge_vec(&mut self.links, &mut in_page_links, ordering);
        self.pending = Vec::new();
        proof {
            assert(self@.pending =~= Seq::empty());
            assert(self@.queue =~= old(self)@.accepted(rule@, responses@).queue);
        }
    }

    /// Takes in the responses of the batch where that can be done, and says
    /// whether it was; where not, nothing changes.
    pub fn try_accept(&mut self, rule: &UnitNavigationRule, responses: &Vec<Response>) -> (done:
        bool)
        ensures
            done == old(self)@.accepts(rule@, responses@),
            done ==> final(self)@ == old(self)@.accepted(rule@, responses@),
            !done ==> final(self)@ == old(self)@,
    {
        if self.can_accept(rule, responses) {
            self.accept(rule, responses);
            true
        } else {
            false
        }
    }

    /// The links collected so far.
    pub fn into_links(self) -> (links: VecDeque<String>)
        ensures
            links.deep_view() == self@.links,
    {
        self.links
    }
}

} // verus!
