//! Extraction: what to fetch, what to store of it, and where.
//!
//! The extractor decides; a driver fetches and writes. For each response of
//! the first batch the rule yields handlers; their `store` links become the
//! requests of the second batch, each with the path under which its artifact
//! is stored.

pub mod extraction_rules;
pub mod specific_procedure;

use crate::configure::{ExtractorConfigure, RuleConfigure, RuleUtils};
use crate::connector::navigator::{docs_of, handlers_of, Navigator, ResponseError};
use crate::connector::{
    announced, content_type_readable, unknown_content_type, Connector, ContentTypeView,
    HeaderContentType,
};
use crate::http::{uri_parse, Method, Raw, Request, RequestView, Response, Uri};
use crate::result::{abs_root_path, store_label, ReservedLabel, ResultHandler, ResultHandlerView};
use crate::text::{decimal, push_char, push_decimal, string_from_utf8};
use extraction_rules::{
    ExtractionRules, ProcedureName, ProcedureRule, UnitExtractionRule, UnitExtractionRuleView,
};
use specific_procedure::{
    request_for, requestable, DefaultProcedure, NaverWebtoonProcedure, Procedure,
};
use std::collections::BTreeMap;
use vstd::prelude::*;
use vstd::utf8::{decode_utf8, valid_utf8};

verus! {

broadcast use vstd::std_specs::btree::group_btree_axioms;

/// The path under which the `j`-th artifact of a handler is stored: the
/// root path of the handler, as far as it has one, and the number.
pub open spec fn store_path(h: ResultHandlerView, j: int) -> Seq<char> {
    (match h.root_path {
        Some(root) => root,
        None => Seq::empty(),
    }) + decimal(j as nat)
}

/// The paths of the artifacts of one handler: one for each `store` link,
/// numbered from 0.
pub open spec fn handler_paths(h: ResultHandlerView) -> Seq<Seq<char>> {
    Seq::new(h.values_of(store_label()).len(), |j: int| store_path(h, j))
}

/// The requests for the artifacts of one handler, in the order of its
/// `store` links.
pub open spec fn handler_requests(name: ProcedureName, h: ResultHandlerView) -> Seq<RequestView> {
    Seq::new(
        h.values_of(store_label()).len(),
        |j: int| request_for(name, h, h.values_of(store_label())[j]),
    )
}

/// Whether the request for each artifact of the handler can be made.
pub open spec fn handler_ready(name: ProcedureName, h: ResultHandlerView) -> bool {
    forall|j: int|
        0 <= j < h.values_of(store_label()).len() ==> requestable(
            name,
            h,
            #[trigger] h.values_of(store_label())[j],
        )
}

/// The paths of the artifacts of `handlers`, handler by handler.
pub open spec fn planned_paths(handlers: Seq<ResultHandlerView>) -> Seq<Seq<char>>
    decreases handlers.len(),
{
    if handlers.len() == 0 {
        Seq::empty()
    } else {
        planned_paths(handlers.drop_last()) + handler_paths(handlers.last())
    }
}

/// The requests for the artifacts of `handlers`, handler by handler.
pub open spec fn planned_requests(name: ProcedureName, handlers: Seq<ResultHandlerView>) -> Seq<
    RequestView,
>
    decreases handlers.len(),
{
    if handlers.len() == 0 {
        Seq::empty()
    } else {
        planned_requests(name, handlers.drop_last()) + handler_requests(name, handlers.last())
    }
}

/// Whether the request for each artifact of `handlers` can be made.
pub open spec fn all_ready(name: ProcedureName, handlers: Seq<ResultHandlerView>) -> bool {
    forall|i: int| 0 <= i < handlers.len() ==> handler_ready(name, #[trigger] handlers[i])
}

/// The paths of the artifacts of all responses, response by response. The
/// place of a path is the index of the request for its artifact.
pub open spec fn batch_paths(targets: Seq<Seq<ResultHandlerView>>) -> Seq<Seq<char>>
    decreases targets.len(),
{
    if targets.len() == 0 {
        Seq::empty()
    } else {
        batch_paths(targets.drop_last()) + planned_paths(targets.last())
    }
}

/// The requests for the artifacts of all responses, response by response.
pub open spec fn batch_requests(name: ProcedureName, targets: Seq<Seq<ResultHandlerView>>) -> Seq<
    RequestView,
>
    decreases targets.len(),
{
    if targets.len() == 0 {
        Seq::empty()
    } else {
        batch_requests(name, targets.drop_last()) + planned_requests(name, targets.last())
    }
}

/// Whether the request for each artifact of all responses can be made.
pub open spec fn batch_ready(name: ProcedureName, targets: Seq<Seq<ResultHandlerView>>) -> bool {
    forall|t: int| 0 <= t < targets.len() ==> all_ready(name, #[trigger] targets[t])
}

/// Whether `map` gives each index of `paths` its path, and nothing else.
pub open spec fn holds_paths(map: Map<usize, String>, paths: Seq<Seq<char>>) -> bool {
    &&& forall|k: usize| map.contains_key(k) <==> k < paths.len()
    &&& forall|k: usize| k < paths.len() ==> (#[trigger] map[k])@ == paths[k as int]
}

/// The handlers that the rule makes of the response to the request number
/// `index`, which came from `source_url`; their artifacts go below
/// `"{local_path?}{name}/{index}/"`.
pub open spec fn extraction_outcome(
    index: nat,
    source_url: Seq<char>,
    rule: UnitExtractionRuleView,
    response: &Response,
) -> Result<Seq<ResultHandlerView>, ResponseError> {
    if !(announced(response.content_type.deep_view()) is Text) {
        Err(ResponseError::Header)
    } else if !valid_utf8(response.body@) {
        Err(ResponseError::Utf8)
    } else {
        Ok(
            handlers_of(
                docs_of(rule.parts, decode_utf8(response.body@)),
                rule.extract,
                Some(abs_root_path(rule.local_path, rule.name, index)),
                source_url,
                response.set_cookie.deep_view(),
            ),
        )
    }
}

/// The handlers of the responses of a batch, response by response; a
/// response that yields nothing is passed over.
pub open spec fn extraction_results(
    urls: Seq<Seq<char>>,
    rule: UnitExtractionRuleView,
    responses: Seq<Response>,
) -> Seq<Seq<ResultHandlerView>>
    decreases responses.len(),
{
    if responses.len() == 0 || urls.len() != responses.len() {
        Seq::empty()
    } else {
        let init = extraction_results(urls.drop_last(), rule, responses.drop_last());
        match extraction_outcome(
            (responses.len() - 1) as nat,
            urls.last(),
            rule,
            &responses.last(),
        ) {
            Ok(handlers) => init.push(handlers),
            Err(_) => init,
        }
    }
}

/// The extension that names a content type in a file name.
pub open spec fn extension_of(kind: ContentTypeView) -> Seq<char> {
    match kind {
        ContentTypeView::Image(format) => format,
        ContentTypeView::Text(format) => format,
        ContentTypeView::Others(_) => unknown_content_type(),
    }
}

/// The name of the file that holds an artifact: the planned path, a dot,
/// and the extension of the content type.
pub open spec fn stored_name(path: Seq<char>, kind: ContentTypeView) -> Seq<char> {
    path + seq!['.'] + extension_of(kind)
}

/// Whether each link parses as a request target.
pub open spec fn all_parse(links: Seq<Seq<char>>) -> bool {
    forall|i: int| 0 <= i < links.len() ==> uri_parse(#[trigger] links[i]) is Some
}

/// The requests for `links`: a plain GET for each, in order.
pub open spec fn entry_requests(links: Seq<Seq<char>>) -> Seq<RequestView> {
    Seq::new(
        links.len(),
        |i: int|
            RequestView {
                method: Method::Get,
                uri: uri_parse(links[i])->0,
                set_cookie: None,
                referer: None,
            },
    )
}

/// The links at which the extraction of a rule sets out: its own where it
/// gives any, else those that navigation found.
pub open spec fn entry_links(rule: UnitExtractionRuleView, navigated: Seq<Seq<char>>) -> Seq<
    Seq<char>,
> {
    match rule.links {
        Some(links) => links,
        None => navigated,
    }
}

/// Applies one rule to the body of the response to the request number
/// `queue_index`, which came from `source_url`.
pub struct UnitExtractionRuleResponseHandler<'a> {
    queue_index: usize,
    source_url: String,
    rule: &'a UnitExtractionRule,
}

impl<'a> UnitExtractionRuleResponseHandler<'a> {
    pub closed spec fn spec_queue_index(&self) -> usize {
        self.queue_index
    }

    pub closed spec fn spec_source_url(&self) -> Seq<char> {
        self.source_url@
    }

    pub closed spec fn spec_rule(&self) -> UnitExtractionRuleView {
        self.rule@
    }

    pub fn new(index: usize, source_url: String, rule: &'a UnitExtractionRule) -> (handler:
        UnitExtractionRuleResponseHandler<'a>)
        ensures
            handler.spec_queue_index() == index,
            handler.spec_source_url() == source_url@,
            handler.spec_rule() == rule@,
    {
        UnitExtractionRuleResponseHandler { queue_index: index, source_url: source_url, rule: rule }
    }

    /// The documents that the rule's stages leave of the content.
    pub fn part_from_content(&self, content: String) -> (part_contents: Vec<String>)
        requires
            self.spec_rule().usable(),
        ensures
            part_contents.deep_view() == docs_of(self.spec_rule().parts, content@),
    {
        let part_rules: Option<&Vec<String>> = self.rule.parts();
        let part_contents: Vec<String> = match part_rules {
            Some(part_exps) => RuleUtils::make_part_contents(content, part_exps),
            None => {
                let mut part_content: Vec<String> = Vec::new();
                part_content.push(content);
                assert(part_content.deep_view() =~= seq![content@]);
                part_content
            },
        };
        part_contents
    }

    /// The handlers that the rule's extracting pattern makes of the
    /// documents; their artifacts go below the directory of this request.
    pub fn extract_from_parts(&self, part_contents: Vec<String>, raw_cookies: Option<Raw>) -> (handlers:
        Vec<ResultHandler>)
        requires
            self.spec_rule().usable(),
        ensures
            handlers.deep_view() == handlers_of(
                part_contents.deep_view(),
                self.spec_rule().extract,
                Some(
                    abs_root_path(
                        self.spec_rule().local_path,
                        self.spec_rule().name,
                        self.spec_queue_index() as nat,
                    ),
                ),
                self.spec_source_url(),
                raw_cookies.deep_view(),
            ),
    {
        let rule = self.rule;
        let index = self.queue_index;
        let extract_rule = rule.extract();
        let extract_contents: Vec<ResultHandler> = match extract_rule {
            Some(extract_exp) => {
                let root_path = ResultHandler::get_abs_root_path(
                    rule.local_path(),
                    rule.name().as_str(),
                    index,
                );
                let made = RuleUtils::make_result_handlers(
                    part_contents,
                    extract_exp,
                    Some(root_path),
                    self.source_url.clone(),
                    raw_cookies,
                );
                assert(made.deep_view() =~= handlers_of(
                    part_contents.deep_view(),
                    self.spec_rule().extract,
                    Some(
                        abs_root_path(
                            self.spec_rule().local_path,
                            self.spec_rule().name,
                            self.spec_queue_index() as nat,
                        ),
                    ),
                    self.spec_source_url(),
                    raw_cookies.deep_view(),
                ));
                made
            },
            None => {
                let empty_vec: Vec<ResultHandler> = Vec::new();
                assert(empty_vec.deep_view() =~= Seq::empty());
                empty_vec
            },
        };
        extract_contents
    }
}

pub struct Extractor<'a, 'b> {
    rules: &'a ExtractionRules,
    config: &'b ExtractorConfigure,
}

impl<'a, 'b> Extractor<'a, 'b> {
    pub closed spec fn spec_rules(&self) -> Seq<UnitExtractionRule> {
        self.rules@
    }

    pub closed spec fn spec_config(&self) -> ExtractorConfigure {
        *self.config
    }

    pub fn new(rule_config: &'a ExtractionRules, system_config: &'b ExtractorConfigure) -> (extractor:
        Extractor<'a, 'b>)
        ensures
            extractor.spec_rules() == rule_config@,
            extractor.spec_config() == *system_config,
    {
        Extractor { rules: rule_config, config: system_config }
    }

    /// The rules of this extractor.
    pub fn rules(&self) -> (rules: &'a ExtractionRules)
        ensures
            rules@ == self.spec_rules(),
    {
        self.rules
    }

    /// The settings of this extractor.
    pub fn config(&self) -> (config: &'b ExtractorConfigure)
        ensures
            *config == self.spec_config(),
    {
        self.config
    }

    /// The navigation rule that finds the links of the extraction rule
    /// `name`: of the rules of that name the last, if there is any.
    pub fn find_navigation(navigator: &Navigator, name: &String) -> (found: Option<usize>)
        ensures
            found matches Some(index) ==> {
                &&& index < navigator.spec_rules().len()
                &&& navigator.spec_rules()[index as int]@.name == name@
                &&& forall|j: int|
                    index < j < navigator.spec_rules().len() ==> (
                    #[trigger] navigator.spec_rules()[j])@.name != name@
            },
            found is None ==> forall|i: int|
                0 <= i < navigator.spec_rules().len() ==> (#[trigger] navigator.spec_rules()[i])@.name
                    != name@,
    {
        let nav_name_index_map = navigator.name_index_map();
        match nav_name_index_map.get(name.as_str()) {
            Some(index) => Some(*index),
            None => None,
        }
    }

    /// Whether each entry link of the rule parses.
    pub fn can_set_entry_links(rule: &UnitExtractionRule, navigated: &Vec<String>) -> (ok: bool)
        ensures
            ok == all_parse(entry_links(rule@, navigated.deep_view())),
    {
        let links = match rule.links() {
            Some(links) => links,
            None => navigated,
        };
        let mut i: usize = 0;
        while i < links.len()
            invariant
                i <= links.len(),
                links.deep_view() == entry_links(rule@, navigated.deep_view()),
                forall|k: int| 0 <= k < i ==> uri_parse(#[trigger] links.deep_view()[k]) is Some,
            decreases links.len() - i,
        {
            if Uri::parse(links[i].as_str()).is_none() {
                assert(uri_parse(links.deep_view()[i as int]) is None);
                return false;
            }
            i += 1;
        }
        true
    }

    /// Puts the requests for the entry links of the rule into the queue: for
    /// the links that the rule gives itself, else for those that navigation
    /// found.
    pub fn set_entry_links(conn: &mut Connector, rule: &UnitExtractionRule, navigated: &Vec<String>)
        requires
            all_parse(entry_links(rule@, navigated.deep_view())),
        ensures
            final(conn).views() == old(conn).views() + entry_requests(
                entry_links(rule@, navigated.deep_view()),
            ),
    {
        let links = match rule.links() {
            Some(links) => links,
            None => navigated,
        };
        let ghost texts = links.deep_view();
        let ghost queue = conn.views();
        let mut i: usize = 0;
        assert(queue + entry_requests(texts.take(0)) =~= queue);
        while i < links.len()
            invariant
                i <= links.len(),
                texts == links.deep_view(),
                all_parse(texts),
                conn.views() == queue + entry_requests(texts.take(i as int)),
            decreases links.len() - i,
        {
            let link = &links[i];
            assert(link@ == texts[i as int]);
            let ghost waiting = conn.views();
            let request = Request::new(Method::Get, Uri::parse(link.as_str()).unwrap());
            conn.add_request(request);
            proof {
                assert(conn.views() =~= waiting.push(request@));
                assert(entry_requests(texts.take(i + 1)) =~= entry_requests(
                    texts.take(i as int),
                ).push(request@));
                assert(conn.views() =~= queue + entry_requests(texts.take(i + 1)));
            }
            i += 1;
        }
        assert(texts.take(links.len() as int) =~= texts);
    }

    /// Puts the requests for the entry links of the rule into the queue
    /// where each link parses, and says whether it did; where not, nothing
    /// changes.
    pub fn try_set_entry_links(conn: &mut Connector, rule: &UnitExtractionRule, navigated: &Vec<String>) -> (done:
        bool)
        ensures
            done == all_parse(entry_links(rule@, navigated.deep_view())),
            done ==> final(conn).views() == old(conn).views() + entry_requests(
                entry_links(rule@, navigated.deep_view()),
            ),
            !done ==> final(conn)@ == old(conn)@,
    {
        if Extractor::can_set_entry_links(rule, navigated) {
            Extractor::set_entry_links(conn, rule, navigated);
            true
        } else {
            false
        }
    }

    /// What the rule makes of one response: its handlers where the response
    /// is a text in valid UTF-8, else the reason why not.
    pub fn read_response(
        index: usize,
        source_url: &String,
        rule: &UnitExtractionRule,
        response: &Response,
    ) -> (outcome: Result<Vec<ResultHandler>, ResponseError>)
        requires
            rule@.usable(),
            content_type_readable(response.content_type.deep_view()),
        ensures
            match outcome {
                Ok(handlers) => extraction_outcome(index as nat, source_url@, rule@, response)
                    == Ok::<Seq<ResultHandlerView>, ResponseError>(handlers.deep_view()),
                Err(error) => extraction_outcome(index as nat, source_url@, rule@, response)
                    == Err::<Seq<ResultHandlerView>, ResponseError>(error),
            },
    {
        let unit_response_handler = UnitExtractionRuleResponseHandler::new(
            index,
            source_url.clone(),
            rule,
        );
        let header_type = Connector::get_content_type(response);
        let will_be_okay = match header_type {
            HeaderContentType::Text(_header) => true,
            _ => false,
        };
        if !will_be_okay {
            return Err(ResponseError::Header);
        }
        let body_content = match string_from_utf8(&response.body) {
            Some(body) => body,
            None => {
                return Err(ResponseError::Utf8);
            },
        };
        let raw_cookies = Connector::get_raw_cookies(response);
        let part_contents = unit_response_handler.part_from_content(body_content);
        let extract_contents: Vec<ResultHandler> = unit_response_handler.extract_from_parts(
            part_contents,
            raw_cookies,
        );
        Ok(extract_contents)
    }

    /// Whether the responses of a batch can be read by the rule: there is
    /// one for each URL, the rule's patterns compile, and each content type
    /// can be read.
    pub open spec fn readable(
        urls: Seq<Seq<char>>,
        rule: UnitExtractionRuleView,
        responses: Seq<Response>,
    ) -> bool {
        &&& urls.len() == responses.len()
        &&& rule.usable()
        &&& crate::connector::navigator::all_readable(responses)
    }

    /// Whether the responses of a batch can be read by the rule.
    pub fn can_read_batch(urls: &Vec<String>, rule: &UnitExtractionRule, responses: &Vec<Response>) -> (ok:
        bool)
        ensures
            ok == Self::readable(urls.deep_view(), rule@, responses@),
    {
        if urls.len() != responses.len() || !rule.is_usable() {
            return false;
        }
        let mut i: usize = 0;
        while i < responses.len()
            invariant
                i <= responses.len(),
                forall|k: int|
                    0 <= k < i ==> content_type_readable(
                        (#[trigger] responses@[k]).content_type.deep_view(),
                    ),
            decreases responses.len() - i,
        {
            if !Connector::has_readable_content_type(&responses[i]) {
                return false;
            }
            i += 1;
        }
        true
    }

    /// The handlers of the responses of a batch, response by response.
    /// `urls[i]` is the URL that `responses[i]` came from.
    pub fn read_batch(urls: &Vec<String>, rule: &UnitExtractionRule, responses: &Vec<Response>) -> (results:
        Vec<Vec<ResultHandler>>)
        requires
            Self::readable(urls.deep_view(), rule@, responses@),
        ensures
            results.deep_view() == extraction_results(urls.deep_view(), rule@, responses@),
    {
        let mut results: Vec<Vec<ResultHandler>> = Vec::new();
        let ghost texts = urls.deep_view();
        let mut i: usize = 0;
        assert(results.deep_view() =~= Seq::empty());
        while i < responses.len()
            invariant
                i <= responses.len(),
                urls.len() == responses.len(),
                texts == urls.deep_view(),
                rule@.usable(),
                crate::connector::navigator::all_readable(responses@),
                results.deep_view() == extraction_results(
                    texts.take(i as int),
                    rule@,
                    responses@.take(i as int),
                ),
            decreases responses.len() - i,
        {
            proof {
                assert(texts.take(i + 1).drop_last() =~= texts.take(i as int));
                assert(responses@.take(i + 1).drop_last() =~= responses@.take(i as int));
                assert(texts.take(i + 1).last() == urls[i as int]@);
                assert(responses@.take(i + 1).last() == responses@[i as int]);
            }
            let outcome = Extractor::read_response(i, &urls[i], rule, &responses[i]);
            match outcome {
                Ok(handlers) => {
                    let ghost before = results.deep_view();
                    results.push(handlers);
                    assert(results.deep_view() =~= before.push(handlers.deep_view()));
                },
                Err(_) => {},
            }
            i += 1;
        }
        proof {
            assert(texts.take(responses.len() as int) =~= texts);
            assert(responses@.take(responses.len() as int) =~= responses@);
        }
        results
    }

    /// The handlers of the responses of a batch, where the batch can be
    /// read.
    pub fn try_read_batch(urls: &Vec<String>, rule: &UnitExtractionRule, responses: &Vec<Response>) -> (results:
        Option<Vec<Vec<ResultHandler>>>)
        ensures
            results is Some <==> Self::readable(urls.deep_view(), rule@, responses@),
            results matches Some(r) ==> r.deep_view() == extraction_results(
                urls.deep_view(),
                rule@,
                responses@,
            ),
    {
        if Extractor::can_read_batch(urls, rule, responses) {
            Some(Extractor::read_batch(urls, rule, responses))
        } else {
            None
        }
    }

    /// The procedure that the rule names to run after extraction.
    pub fn post_procedure_name(rule: &UnitExtractionRule) -> (name: ProcedureName)
        ensures
            name == rule@.post_procedure_name(),
    {
        match rule.procedure() {
            Some(procedure) => {
                let post_procedure = match procedure.post_procedure() {
                    Some(post_procedure) => ProcedureRule::procedure_name(post_procedure.as_str()),
                    None => ProcedureName::Default,
                };
                post_procedure
            },
            None => ProcedureName::Default,
        }
    }

    /// The procedure of the given name for the links of `result_handler`.
    pub fn get_procedure<'lrh>(result_handler: &'lrh ResultHandler, procedure_name: &ProcedureName) -> (procedure:
        Procedure<'lrh>)
        ensures
            procedure.name() == *procedure_name,
            procedure.spec_handler() == result_handler@,
    {
        match procedure_name {
            ProcedureName::NaverWebtoon => Procedure::NaverWebtoon(
                NaverWebtoonProcedure::new(result_handler),
            ),
            ProcedureName::Default => Procedure::Default(DefaultProcedure::new(result_handler)),
        }
    }

    /// Whether the request for each artifact of the handler can be made.
    fn is_handler_ready(result_handler: &ResultHandler, name: &ProcedureName) -> (ok: bool)
        ensures
            ok == handler_ready(*name, result_handler@),
    {
        let procedure = Extractor::get_procedure(result_handler, name);
        let store = ReservedLabel::Store;
        let stores = result_handler.get_result(store.to_string().as_str());
        match stores {
            Some(stores) => {
                let mut j: usize = 0;
                while j < stores.len()
                    invariant
                        j <= stores.len(),
                        stores.deep_view() == result_handler@.values_of(store_label()),
                        procedure.name() == *name,
                        procedure.spec_handler() == result_handler@,
                        forall|k: int|
                            0 <= k < j ==> requestable(
                                *name,
                                result_handler@,
                                #[trigger] stores.deep_view()[k],
                            ),
                    decreases stores.len() - j,
                {
                    if !procedure.can_get_request(stores[j].as_str()) {
                        assert(!requestable(*name, result_handler@, stores.deep_view()[j as int]));
                        return false;
                    }
                    j += 1;
                }
                true
            },
            None => true,
        }
    }

    /// Plans the requests for the artifacts of one handler.
    fn plan_handler(
        conn: &mut Connector,
        index_path_map: &mut BTreeMap<usize, String>,
        key_index: &mut usize,
        result_handler: &ResultHandler,
        name: &ProcedureName,
        Ghost(known): Ghost<Seq<Seq<char>>>,
    )
        requires
            handler_ready(*name, result_handler@),
            holds_paths(old(index_path_map)@, known),
            *old(key_index) == known.len(),
            *old(key_index) <= old(conn)@.len(),
        ensures
            final(conn).views() == old(conn).views() + handler_requests(*name, result_handler@),
            holds_paths(final(index_path_map)@, known + handler_paths(result_handler@)),
            *final(key_index) == (known + handler_paths(result_handler@)).len(),
            *final(key_index) <= final(conn)@.len(),
    {
        let procedure = Extractor::get_procedure(result_handler, name);
        let store = ReservedLabel::Store;
        let stores = result_handler.get_result(store.to_string().as_str());
        let ghost queue = conn.views();
        match stores {
            Some(stores) => {
                let ghost links = stores.deep_view();
                let mut order_index: usize = 0;
                proof {
                    assert(queue + Seq::<RequestView>::empty() =~= queue);
                    assert(known + handler_paths(result_handler@).take(0) =~= known);
                }
                while order_index < stores.len()
                    invariant
                        order_index <= stores.len(),
                        links == stores.deep_view(),
                        links == result_handler@.values_of(store_label()),
                        handler_ready(*name, result_handler@),
                        procedure.name() == *name,
                        procedure.spec_handler() == result_handler@,
                        conn.views() == queue + handler_requests(*name, result_handler@).take(
                            order_index as int,
                        ),
                        holds_paths(
                            index_path_map@,
                            known + handler_paths(result_handler@).take(order_index as int),
                        ),
                        *key_index == known.len() + order_index,
                        *key_index <= conn@.len(),
                    decreases stores.len() - order_index,
                {
                    let link = &stores[order_index];
                    assert(link@ == links[order_index as int]);
                    let mut path = String::new();
                    match result_handler.get_root_path() {
                        Some(root_path) => {
                            path.append(root_path.as_str());
                        },
                        None => {},
                    }
                    push_decimal(&mut path, order_index);
                    assert(path@ =~= store_path(result_handler@, order_index as int));
                    let ghost had = known + handler_paths(result_handler@).take(order_index as int);
                    let ghost held = index_path_map@;
                    let stored = path.clone();
                    index_path_map.insert(*key_index, stored);
                    let ghost waiting = conn.views();
                    let request = procedure.get_request(link.as_str());
                    conn.add_request(request);
                    let _ = conn.get_requests_count();
                    proof {
                        let all_paths = handler_paths(result_handler@);
                        let all_requests = handler_requests(*name, result_handler@);
                        assert(known + all_paths.take(order_index + 1) =~= had.push(path@));
                        assert(index_path_map@ == held.insert(*key_index, stored));
                        assert(holds_paths(index_path_map@, had.push(path@)));
                        assert(conn.views() =~= waiting.push(request@));
                        assert(all_requests.take(order_index + 1) =~= all_requests.take(
                            order_index as int,
                        ).push(request@));
                        assert(conn.views() =~= queue + all_requests.take(order_index + 1));
                    }
                    order_index += 1;
                    *key_index += 1;
                }
                proof {
                    assert(handler_requests(*name, result_handler@).take(stores.len() as int)
                        =~= handler_requests(*name, result_handler@));
                    assert(handler_paths(result_handler@).take(stores.len() as int)
                        =~= handler_paths(result_handler@));
                }
            },
            None => {
                proof {
                    assert(handler_requests(*name, result_handler@) =~= Seq::empty());
                    assert(handler_paths(result_handler@) =~= Seq::empty());
                    assert(queue + Seq::<RequestView>::empty() =~= queue);
                    assert(known + Seq::<Seq<char>>::empty() =~= known);
                }
            },
        }
    }

    /// Plans the requests for the artifacts of the handlers of one response.
    fn plan_target(
        conn: &mut Connector,
        index_path_map: &mut BTreeMap<usize, String>,
        key_index: &mut usize,
        extract_target: &Vec<ResultHandler>,
        name: &ProcedureName,
        Ghost(known): Ghost<Seq<Seq<char>>>,
    )
        requires
            all_ready(*name, extract_target.deep_view()),
            holds_paths(old(index_path_map)@, known),
            *old(key_index) == known.len(),
            *old(key_index) <= old(conn)@.len(),
        ensures
            final(conn).views() == old(conn).views() + planned_requests(
                *name,
                extract_target.deep_view(),
            ),
            holds_paths(final(index_path_map)@, known + planned_paths(extract_target.deep_view())),
            *final(key_index) == (known + planned_paths(extract_target.deep_view())).len(),
            *final(key_index) <= final(conn)@.len(),
    {
        let ghost handlers = extract_target.deep_view();
        let ghost queue = conn.views();
        let mut i: usize = 0;
        proof {
            assert(handlers.take(0) =~= Seq::empty());
            assert(queue + Seq::<RequestView>::empty() =~= queue);
            assert(known + Seq::<Seq<char>>::empty() =~= known);
        }
        while i < extract_target.len()
            invariant
                i <= extract_target.len(),
                handlers == extract_target.deep_view(),
                all_ready(*name, handlers),
                conn.views() == queue + planned_requests(*name, handlers.take(i as int)),
                holds_paths(index_path_map@, known + planned_paths(handlers.take(i as int))),
                *key_index == (known + planned_paths(handlers.take(i as int))).len(),
                *key_index <= conn@.len(),
            decreases extract_target.len() - i,
        {
            let result_handler = &extract_target[i];
            let ghost done = known + planned_paths(handlers.take(i as int));
            proof {
                assert(result_handler@ == handlers[i as int]);
                assert(handlers.take(i + 1).drop_last() =~= handlers.take(i as int));
                assert(handlers.take(i + 1).last() == result_handler@);
            }
            Extractor::plan_handler(
                conn,
                index_path_map,
                key_index,
                result_handler,
                name,
                Ghost(done),
            );
            proof {
                assert(conn.views() =~= queue + planned_requests(*name, handlers.take(i + 1)));
                assert(done + handler_paths(result_handler@) =~= known + planned_paths(
                    handlers.take(i + 1),
                ));
            }
            i += 1;
        }
        assert(handlers.take(extract_target.len() as int) =~= handlers);
    }

    /// Whether the request for each artifact of all responses can be made.
    pub fn can_ready_for_request(extract_targets: &Vec<Vec<ResultHandler>>, rule: &UnitExtractionRule) -> (ok:
        bool)
        ensures
            ok == batch_ready(rule@.post_procedure_name(), extract_targets.deep_view()),
    {
        let name = Extractor::post_procedure_name(rule);
        let ghost targets = extract_targets.deep_view();
        let mut t: usize = 0;
        while t < extract_targets.len()
            invariant
                t <= extract_targets.len(),
                targets == extract_targets.deep_view(),
                name == rule@.post_procedure_name(),
                forall|k: int| 0 <= k < t ==> all_ready(name, #[trigger] targets[k]),
            decreases extract_targets.len() - t,
        {
            let extract_target = &extract_targets[t];
            assert(extract_target.deep_view() == targets[t as int]);
            let mut i: usize = 0;
            while i < extract_target.len()
                invariant
                    i <= extract_target.len(),
                    t < extract_targets.len(),
                    targets == extract_targets.deep_view(),
                    name == rule@.post_procedure_name(),
                    extract_target.deep_view() == targets[t as int],
                    forall|k: int|
                        0 <= k < i ==> handler_ready(name, #[trigger] extract_target.deep_view()[k]),
                decreases extract_target.len() - i,
            {
                assert(extract_target[i as int]@ == extract_target.deep_view()[i as int]);
                if !Extractor::is_handler_ready(&extract_target[i], &name) {
                    assert(!handler_ready(name, targets[t as int][i as int]));
                    assert(!all_ready(name, targets[t as int]));
                    return false;
                }
                i += 1;
            }
            t += 1;
        }
        true
    }

    /// Plans the download of the artifacts: for each `store` link of each
    /// handler, in order, a request shaped by the rule's procedure goes into
    /// the queue, and the path under which the artifact is stored goes into
    /// the map that is returned, under the number of the request among those
    /// that were planned.
    pub fn ready_for_request(
        conn: &mut Connector,
        extract_targets: &Vec<Vec<ResultHandler>>,
        rule: &UnitExtractionRule,
    ) -> (index_path_map: BTreeMap<usize, String>)
        requires
            batch_ready(rule@.post_procedure_name(), extract_targets.deep_view()),
        ensures
            holds_paths(index_path_map@, batch_paths(extract_targets.deep_view())),
            final(conn).views() == old(conn).views() + batch_requests(
                rule@.post_procedure_name(),
                extract_targets.deep_view(),
            ),
    {
        let mut index_path_map = BTreeMap::<usize, String>::new();
        let post_procedure_name = Extractor::post_procedure_name(rule);
        let ghost targets = extract_targets.deep_view();
        let ghost queue = conn.views();
        let mut key_index: usize = 0;
        let mut t: usize = 0;
        proof {
            assert(targets.take(0) =~= Seq::empty());
            assert(queue + Seq::<RequestView>::empty() =~= queue);
        }
        while t < extract_targets.len()
            invariant
                t <= extract_targets.len(),
                targets == extract_targets.deep_view(),
                post_procedure_name == rule@.post_procedure_name(),
                batch_ready(post_procedure_name, targets),
                conn.views() == queue + batch_requests(post_procedure_name, targets.take(t as int)),
                holds_paths(index_path_map@, batch_paths(targets.take(t as int))),
                key_index == batch_paths(targets.take(t as int)).len(),
                key_index <= conn@.len(),
            decreases extract_targets.len() - t,
        {
            let extract_target = &extract_targets[t];
            let ghost done = batch_paths(targets.take(t as int));
            proof {
                assert(extract_target.deep_view() == targets[t as int]);
                assert(targets.take(t + 1).drop_last() =~= targets.take(t as int));
                assert(targets.take(t + 1).last() == extract_target.deep_view());
            }
            Extractor::plan_target(
                conn,
                &mut index_path_map,
                &mut key_index,
                extract_target,
                &post_procedure_name,
                Ghost(done),
            );
            proof {
                assert(conn.views() =~= queue + batch_requests(
                    post_procedure_name,
                    targets.take(t + 1),
                ));
            }
            t += 1;
        }
        assert(targets.take(extract_targets.len() as int) =~= targets);
        index_path_map
    }

    /// Plans the download of the artifacts where each request can be made;
    /// where not, nothing changes.
    pub fn try_ready_for_request(
        conn: &mut Connector,
        extract_targets: &Vec<Vec<ResultHandler>>,
        rule: &UnitExtractionRule,
    ) -> (index_path_map: Option<BTreeMap<usize, String>>)
        ensures
            index_path_map is Some <==> batch_ready(
                rule@.post_procedure_name(),
                extract_targets.deep_view(),
            ),
            index_path_map matches Some(paths) ==> {
                &&& holds_paths(paths@, batch_paths(extract_targets.deep_view()))
                &&& final(conn).views() == old(conn).views() + batch_requests(
                    rule@.post_procedure_name(),
                    extract_targets.deep_view(),
                )
            },
            index_path_map is None ==> final(conn)@ == old(conn)@,
    {
        if Extractor::can_ready_for_request(extract_targets, rule) {
            Some(Extractor::ready_for_request(conn, extract_targets, rule))
        } else {
            None
        }
    }

    /// The name of the file that holds the artifact of a response: the
    /// planned path, a dot, and the extension that the content type names.
    pub fn file_name(path: &String, response: &Response) -> (file_name: String)
        requires
            content_type_readable(response.content_type.deep_view()),
        ensures
            file_name@ == stored_name(path@, announced(response.content_type.deep_view())),
    {
        let extension = match Connector::get_content_type(response) {
            HeaderContentType::Image(ext) => ext,
            HeaderContentType::Text(ext) => ext,
            HeaderContentType::Others(_ext) => {
                proof {
                    reveal_strlit("unknown");
                    assert("unknown"@ =~= unknown_content_type());
                }
                "unknown".to_owned()
            },
        };
        let mut file_name = String::new();
        file_name.append(path.as_str());
        push_char(&mut file_name, '.');
        file_name.append(extension.as_str());
        assert(file_name@ =~= stored_name(path@, announced(response.content_type.deep_view())));
        file_name
    }
}

} // verus!
