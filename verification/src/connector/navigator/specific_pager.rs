//! Pagers: the site policies that decide which pages navigation visits and
//! in what order their links come out.

use crate::collections::{StringMap, StringSet};
use crate::connector::connector_utils::{
    entries, query_entries, rebuilt_text, uri_text, value_in, well_formed_query, ConnectorUtils,
};
use crate::http::{uri_parse, Method, Request, RequestView, Uri, UriView};
use crate::result::{link_label, type_label, ReservedLabel, ResultHandler, ResultHandlerView};
use crate::text::{contains_string, replace, replace_all};
use std::collections::VecDeque;
use vstd::prelude::*;

verus! {

/// The order in which the links of successive pages are put together.
#[derive(Clone, Copy, Debug, PartialEq, Eq, Structural)]
pub enum PageOrder {
    /// Each page's links go behind those of the pages before it.
    Ascending,
    /// Each link goes in front of all that were collected before it.
    Descending,
}

/// What a pager remembers.
pub ghost struct PagerView {
    /// The links that were requested, in the form in which pages write them.
    pub history: Set<Seq<char>>,
    /// Whether another page may follow. Once false, it stays false.
    pub next_request_available: bool,
}

/// The value of `type` that announces a further page.
pub open spec fn next_marker() -> Seq<char> {
    seq!['n', 'e', 'x', 't']
}

/// The name of the query parameter that numbers the pages.
pub open spec fn page_key() -> Seq<char> {
    seq!['p', 'a', 'g', 'e']
}

/// The query pair that asks for the first page.
pub open spec fn first_page() -> Seq<(Seq<char>, Seq<char>)> {
    seq![(page_key(), seq!['1'])]
}

/// `s` as it is written inside a page: `&`, `<`, `>`, `"` and `'` replaced by
/// their entities, in this order.
pub open spec fn escaped(s: Seq<char>) -> Seq<char> {
    let s1 = replace_all(s, seq!['&'], seq!['&', 'a', 'm', 'p', ';']);
    let s2 = replace_all(s1, seq!['<'], seq!['&', 'l', 't', ';']);
    let s3 = replace_all(s2, seq!['>'], seq!['&', 'g', 't', ';']);
    let s4 = replace_all(s3, seq!['"'], seq!['&', 'q', 'u', 'o', 't', ';']);
    replace_all(s4, seq!['\''], seq!['&', 'a', 'p', 'o', 's', ';'])
}

/// `s` with the entities for `&`, `<`, `>`, `"` and `'` replaced by the
/// characters they stand for, in this order.
pub open spec fn unescaped(s: Seq<char>) -> Seq<char> {
    let s1 = replace_all(s, seq!['&', 'a', 'm', 'p', ';'], seq!['&']);
    let s2 = replace_all(s1, seq!['&', 'l', 't', ';'], seq!['<']);
    let s3 = replace_all(s2, seq!['&', 'g', 't', ';'], seq!['>']);
    let s4 = replace_all(s3, seq!['&', 'q', 'u', 'o', 't', ';'], seq!['"']);
    replace_all(s4, seq!['&', 'a', 'p', 'o', 's', ';'], seq!['\''])
}

/// Whether the query of `u` names no page.
pub open spec fn lacks_page(u: UriView) -> bool {
    match u.query {
        Some(query) => value_in(query_entries(query), page_key()) is None,
        None => true,
    }
}

/// Whether an entry URL can be normalized: it parses, each piece of its
/// query holds a `=`, and where the first page has to be asked for, the URL
/// with that query parses too.
pub open spec fn entry_usable(entry: Seq<char>) -> bool {
    &&& uri_parse(entry) matches Some(u)
    &&& u.query matches Some(query) ==> well_formed_query(query)
    &&& lacks_page(u) ==> uri_parse(rebuilt_text(u, first_page())) is Some
}

/// The entry URL in normal form: as it is where its query names a page, else
/// with `page=1` put into the query.
pub open spec fn normalized_entry(entry: Seq<char>) -> UriView {
    let u = uri_parse(entry)->0;
    if lacks_page(u) {
        uri_parse(rebuilt_text(u, first_page()))->0
    } else {
        u
    }
}

/// Whether the site-relative form of a URL can be worked out.
pub open spec fn relative_usable(text: Seq<char>) -> bool {
    &&& uri_parse(text) matches Some(u)
    &&& u.scheme is Some ==> uri_parse(uri_text(None, None, u.path, u.query, None)) is Some
}

/// A URL without scheme and authority: path and query of an absolute URL,
/// and any other target as it is.
pub open spec fn relative_text(text: Seq<char>) -> Seq<char> {
    let u = uri_parse(text)->0;
    if u.scheme is Some {
        uri_parse(uri_text(None, None, u.path, u.query, None))->0.source
    } else {
        u.source
    }
}

/// Whether a handler holds the marker of a further page among its types.
pub open spec fn handler_shows_next(h: ResultHandlerView) -> bool {
    h.values_of(type_label()).contains(next_marker())
}

/// Whether any of a page's pager results announces a further page.
pub open spec fn shows_next(handlers: Seq<ResultHandlerView>) -> bool {
    exists|i: int| 0 <= i < handlers.len() && handler_shows_next(#[trigger] handlers[i])
}

/// The links `links` of the handler at `index`, each with that index.
pub open spec fn refs_of(index: int, links: Seq<Seq<char>>) -> Seq<(int, Seq<char>)> {
    Seq::new(links.len(), |j: int| (index, links[j]))
}

/// The links found under `link` in all handlers, in order, each with the
/// index of its handler.
pub open spec fn link_refs(handlers: Seq<ResultHandlerView>) -> Seq<(int, Seq<char>)>
    decreases handlers.len(),
{
    if handlers.len() == 0 {
        Seq::empty()
    } else {
        link_refs(handlers.drop_last()) + refs_of(
            handlers.len() - 1,
            handlers.last().values_of(link_label()),
        )
    }
}

/// Whether `link` occurs among `refs`.
pub open spec fn mentions(refs: Seq<(int, Seq<char>)>, link: Seq<char>) -> bool {
    exists|k: int| 0 <= k < refs.len() && (#[trigger] refs[k]).1 == link
}

/// The links of `refs`, as a set.
pub open spec fn mentioned(refs: Seq<(int, Seq<char>)>) -> Set<Seq<char>> {
    Set::new(|link: Seq<char>| mentions(refs, link))
}

/// The links of `refs` that were not requested before: those that are not
/// in `history` and occur nowhere earlier in `refs`.
pub open spec fn fresh(history: Set<Seq<char>>, refs: Seq<(int, Seq<char>)>) -> Seq<
    (int, Seq<char>),
>
    decreases refs.len(),
{
    if refs.len() == 0 {
        Seq::empty()
    } else {
        let init = fresh(history, refs.drop_last());
        let last = refs.last();
        if history.contains(last.1) || mentions(refs.drop_last(), last.1) {
            init
        } else {
            init.push(last)
        }
    }
}

/// Whether each of the links `refs` that has to be requested stands for a
/// request target.
pub open spec fn all_followable(
    history: Set<Seq<char>>,
    handlers: Seq<ResultHandlerView>,
    refs: Seq<(int, Seq<char>)>,
) -> bool {
    let todo = fresh(history, refs);
    forall|k: int|
        0 <= k < todo.len() ==> handlers[(#[trigger] todo[k]).0].can_resolve(unescaped(todo[k].1))
}

/// Whether every link that has to be requested stands for a request target.
pub open spec fn followable(history: Set<Seq<char>>, handlers: Seq<ResultHandlerView>) -> bool {
    all_followable(history, handlers, link_refs(handlers))
}

/// The request for a link that was not requested before.
pub open spec fn follow_up(handlers: Seq<ResultHandlerView>, r: (int, Seq<char>)) -> RequestView {
    RequestView {
        method: Method::Get,
        uri: handlers[r.0].resolve(unescaped(r.1)),
        set_cookie: None,
        referer: None,
    }
}

/// Whether every link under `label` stands for a request target.
pub open spec fn collectable(handlers: Seq<ResultHandlerView>, label: Seq<char>) -> bool {
    forall|i: int|
        0 <= i < handlers.len() ==> (#[trigger] handlers[i]).all_resolve(
            handlers[i].values_of(label),
        )
}

/// The texts of the request targets that the links `links` of `h` stand for.
pub open spec fn resolved_texts(h: ResultHandlerView, links: Seq<Seq<char>>) -> Seq<Seq<char>> {
    Seq::new(links.len(), |j: int| h.resolve(links[j]).source)
}

/// The links under `label` of all handlers, resolved, in order.
pub open spec fn collected(handlers: Seq<ResultHandlerView>, label: Seq<char>) -> Seq<Seq<char>>
    decreases handlers.len(),
{
    if handlers.len() == 0 {
        Seq::empty()
    } else {
        collected(handlers.drop_last(), label) + resolved_texts(
            handlers.last(),
            handlers.last().values_of(label),
        )
    }
}

proof fn lemma_mentions_push(refs: Seq<(int, Seq<char>)>, r: (int, Seq<char>), link: Seq<char>)
    ensures
        mentions(refs.push(r), link) <==> mentions(refs, link) || link == r.1,
{
    let more = refs.push(r);
    if mentions(refs, link) {
        let k = choose|k: int| 0 <= k < refs.len() && (#[trigger] refs[k]).1 == link;
        assert(more[k].1 == link);
    }
    if link == r.1 {
        assert(more[refs.len() as int].1 == link);
    }
    if mentions(more, link) {
        let k = choose|k: int| 0 <= k < more.len() && (#[trigger] more[k]).1 == link;
        if k < refs.len() {
            assert(refs[k].1 == link);
        }
    }
}

proof fn lemma_link_refs_step(handlers: Seq<ResultHandlerView>, i: int)
    requires
        0 <= i < handlers.len(),
    ensures
        link_refs(handlers.take(i + 1)) == link_refs(handlers.take(i)) + refs_of(
            i,
            handlers[i].values_of(link_label()),
        ),
{
    assert(handlers.take(i + 1).drop_last() =~= handlers.take(i));
}

proof fn lemma_collected_step(handlers: Seq<ResultHandlerView>, label: Seq<char>, i: int)
    requires
        0 <= i < handlers.len(),
    ensures
        collected(handlers.take(i + 1), label) == collected(handlers.take(i), label)
            + resolved_texts(handlers[i], handlers[i].values_of(label)),
{
    assert(handlers.take(i + 1).drop_last() =~= handlers.take(i));
}

/// Whether any of `pager_results` announces a further page.
pub fn announces_next(pager_results: &Vec<ResultHandler>) -> (shown: bool)
    ensures
        shown == shows_next(pager_results.deep_view()),
{
    let type_label = ReservedLabel::Type.to_string();
    let mut i: usize = 0;
    while i < pager_results.len()
        invariant
            i <= pager_results.len(),
            type_label@ == crate::result::type_label(),
            forall|k: int| 0 <= k < i ==> !handler_shows_next(#[trigger] pager_results.deep_view()[k]),
        decreases pager_results.len() - i,
    {
        let result_handler = &pager_results[i];
        assert(result_handler@ == pager_results.deep_view()[i as int]);
        proof {
            reveal_strlit("next");
            assert("next"@ =~= next_marker());
        }
        let shown = match result_handler.get_result(type_label.as_str()) {
            Some(types) => contains_string(types, "next"),
            None => false,
        };
        if shown {
            assert(handler_shows_next(pager_results.deep_view()[i as int]));
            return true;
        }
        i += 1;
    }
    false
}

/// The links under `label` of all handlers, each resolved against the URL
/// that its document came from, in order.
pub fn collect_links(label: ReservedLabel, result_handlers: &Vec<ResultHandler>) -> (links:
    VecDeque<String>)
    requires
        collectable(result_handlers.deep_view(), label.text()),
    ensures
        links.deep_view() == collected(result_handlers.deep_view(), label.text()),
{
    let mut ordered_results: VecDeque<String> = VecDeque::new();
    let label_name = label.to_string();
    let label_name = label_name.as_str();
    let ghost views = result_handlers.deep_view();
    let mut i: usize = 0;
    assert(views.take(0) =~= Seq::empty());
    assert(ordered_results.deep_view() =~= Seq::empty());
    while i < result_handlers.len()
        invariant
            i <= result_handlers.len(),
            views == result_handlers.deep_view(),
            label_name@ == label.text(),
            collectable(views, label.text()),
            ordered_results.deep_view() == collected(views.take(i as int), label.text()),
        decreases result_handlers.len() - i,
    {
        let result_handler = &result_handlers[i];
        proof {
            assert(result_handler@ == views[i as int]);
            lemma_collected_step(views, label.text(), i as int);
            assert(views[i as int].all_resolve(views[i as int].values_of(label.text())));
        }
        let ghost base = ordered_results.deep_view();
        match result_handler.get_result(label_name) {
            Some(result) => {
                let ghost found = result.deep_view();
                let mut j: usize = 0;
                assert(resolved_texts(result_handler@, found.take(0)) =~= Seq::empty());
                assert(base + Seq::<Seq<char>>::empty() =~= base);
                while j < result.len()
                    invariant
                        j <= result.len(),
                        found == result.deep_view(),
                        result_handler@.all_resolve(found),
                        ordered_results.deep_view() == base + resolved_texts(
                            result_handler@,
                            found.take(j as int),
                        ),
                    decreases result.len() - j,
                {
                    let link = &result[j];
                    assert(link@ == found[j as int]);
                    let link_uri = result_handler.make_requestable_uri(link.as_str());
                    let ghost before = ordered_results.deep_view();
                    ordered_results.push_back(link_uri.as_str().to_owned());
                    proof {
                        assert(ordered_results.deep_view() =~= before.push(link_uri@.source));
                        assert(resolved_texts(result_handler@, found.take(j + 1))
                            =~= resolved_texts(result_handler@, found.take(j as int)).push(
                            link_uri@.source,
                        ));
                        assert(before.push(link_uri@.source) =~= base + resolved_texts(
                            result_handler@,
                            found.take(j + 1),
                        ));
                    }
                    j += 1;
                }
                assert(found.take(result.len() as int) =~= found);
            },
            None => {
                assert(resolved_texts(result_handler@, Seq::empty()) =~= Seq::empty());
                assert(base + Seq::<Seq<char>>::empty() =~= base);
            },
        }
        i += 1;
    }
    assert(views.take(result_handlers.len() as int) =~= views);
    ordered_results
}

/// Whether every link under `label` stands for a request target.
pub fn can_collect_links(label: ReservedLabel, result_handlers: &Vec<ResultHandler>) -> (ok: bool)
    ensures
        ok == collectable(result_handlers.deep_view(), label.text()),
{
    let label_name = label.to_string();
    let label_name = label_name.as_str();
    let ghost views = result_handlers.deep_view();
    let mut i: usize = 0;
    while i < result_handlers.len()
        invariant
            i <= result_handlers.len(),
            views == result_handlers.deep_view(),
            label_name@ == label.text(),
            forall|k: int|
                0 <= k < i ==> (#[trigger] views[k]).all_resolve(views[k].values_of(label.text())),
        decreases result_handlers.len() - i,
    {
        let result_handler = &result_handlers[i];
        assert(result_handler@ == views[i as int]);
        let ok = match result_handler.get_result(label_name) {
            Some(result) => result_handler.can_resolve_all(result),
            None => true,
        };
        if !ok {
            assert(!views[i as int].all_resolve(views[i as int].values_of(label.text())));
            return false;
        }
        i += 1;
    }
    true
}

/// The pager of `comic.naver.com`: it asks for pages by number, newest
/// first, and follows each link to a further page once.
pub struct NaverWebtoonPager {
    request_history: StringSet,
    next_request_available: bool,
}

impl View for NaverWebtoonPager {
    type V = PagerView;

    closed spec fn view(&self) -> PagerView {
        PagerView {
            history: self.request_history@,
            next_request_available: self.next_request_available,
        }
    }
}

impl NaverWebtoonPager {
    /// A pager that has requested nothing and expects a page.
    pub fn new() -> (pager: NaverWebtoonPager)
        ensures
            pager@ == (PagerView { history: Set::empty(), next_request_available: true }),
    {
        let history = StringSet::new();
        NaverWebtoonPager { request_history: history, next_request_available: true }
    }

    /// Whether the entry URL can be normalized.
    pub fn can_get_entry_uri(entry_url: &str) -> (ok: bool)
        ensures
            ok == entry_usable(entry_url@),
    {
        let input_uri = match Uri::parse(entry_url) {
            Some(uri) => uri,
            None => {
                return false;
            },
        };
        match input_uri.query() {
            Some(query) => {
                if !ConnectorUtils::is_well_formed_query(query.as_str()) {
                    return false;
                }
            },
            None => {},
        }
        proof {
            reveal_strlit("page");
            assert("page"@ =~= page_key());
        }
        let page_value = ConnectorUtils::get_query_value(&input_uri, "page");
        match page_value {
            Some(_page_num) => true,
            None => {
                let add_query = page_one();
                let text = ConnectorUtils::rebuilt_uri_text(&input_uri, add_query);
                Uri::parse(text.as_str()).is_some()
            },
        }
    }

    /// The entry URL in normal form: with `page=1` in its query unless the
    /// query names a page already.
    pub fn get_entry_uri(&self, entry_url: &str) -> (uri: Uri)
        requires
            entry_usable(entry_url@),
        ensures
            uri@ == normalized_entry(entry_url@),
    {
        let input_uri = Uri::parse(entry_url).unwrap();
        proof {
            reveal_strlit("page");
            assert("page"@ =~= page_key());
        }
        let page_value = ConnectorUtils::get_query_value(&input_uri, "page");
        match page_value {
            Some(_page_num) => input_uri,
            None => {
                let add_query = page_one();
                ConnectorUtils::rebuild_uri_for_adding_query(&input_uri, add_query)
            },
        }
    }

    /// A pager that remembers what this one does.
    pub fn duplicate(&self) -> (copy: NaverWebtoonPager)
        ensures
            copy@ == self@,
    {
        NaverWebtoonPager {
            request_history: self.request_history.duplicate(),
            next_request_available: self.next_request_available,
        }
    }

    pub fn is_requested(&self, link: &str) -> (requested: bool)
        ensures
            requested == self@.history.contains(link@),
    {
        self.request_history.contains(link)
    }

    /// Whether `link` can be recorded as requested.
    pub fn can_set_as_requested(link: &str) -> (ok: bool)
        ensures
            ok == relative_usable(link@),
    {
        let uri = match Uri::parse(link) {
            Some(uri) => uri,
            None => {
                return false;
            },
        };
        if uri.is_absolute() {
            let query = match uri.query() {
                Some(query) => Some(query.as_str()),
                None => None,
            };
            ConnectorUtils::try_build_uri(None, None, uri.path(), query, None).is_some()
        } else {
            true
        }
    }

    /// Records `link` as requested, in the form in which a page of the site
    /// would write it: without scheme and authority, and escaped.
    pub fn set_as_requested(&mut self, link: &str)
        requires
            relative_usable(link@),
        ensures
            final(self)@ == (PagerView {
                history: old(self)@.history.insert(escaped(relative_text(link@))),
                ..old(self)@
            }),
    {
        let relative_uri = NaverWebtoonPager::relative_uri_string(link);
        let encoded_uri = NaverWebtoonPager::encode_escape_char(relative_uri);
        self.insert_history(encoded_uri.as_str());
    }

    pub fn has_next_request(&self) -> (available: bool)
        ensures
            available == self@.next_request_available,
    {
        self.next_request_available
    }

    /// Whether every link that has to be requested stands for a request
    /// target.
    pub fn can_make_next_requests(&self, pager_results: &Vec<ResultHandler>) -> (ok: bool)
        ensures
            ok == followable(self@.history, pager_results.deep_view()),
    {
        let link_label = ReservedLabel::Link.to_string();
        let ghost views = pager_results.deep_view();
        let ghost history = self@.history;
        let mut added = StringSet::new();
        let mut i: usize = 0;
        assert(views.take(0) =~= Seq::empty());
        while i < pager_results.len()
            invariant
                i <= pager_results.len(),
                views == pager_results.deep_view(),
                history == self@.history,
                link_label@ == crate::result::link_label(),
                forall|l: Seq<char>|
                    added@.contains(l) <==> mentions(link_refs(views.take(i as int)), l),
                all_followable(history, views, link_refs(views.take(i as int))),
            decreases pager_results.len() - i,
        {
            let result_handler = &pager_results[i];
            let ghost base = link_refs(views.take(i as int));
            proof {
                assert(result_handler@ == views[i as int]);
                lemma_link_refs_step(views, i as int);
            }
            match result_handler.get_result(link_label.as_str()) {
                Some(links) => {
                    let ghost found = links.deep_view();
                    let mut j: usize = 0;
                    assert(base + refs_of(i as int, found.take(0)) =~= base);
                    while j < links.len()
                        invariant
                            j <= links.len(),
                            i < pager_results.len(),
                            views == pager_results.deep_view(),
                            result_handler@ == views[i as int],
                            history == self@.history,
                            found == links.deep_view(),
                            found == views[i as int].values_of(crate::result::link_label()),
                            base == link_refs(views.take(i as int)),
                            forall|l: Seq<char>|
                                added@.contains(l) <==> mentions(
                                    base + refs_of(i as int, found.take(j as int)),
                                    l,
                                ),
                            all_followable(
                                history,
                                views,
                                base + refs_of(i as int, found.take(j as int)),
                            ),
                        decreases links.len() - j,
                    {
                        let link = &links[j];
                        let ghost refs = base + refs_of(i as int, found.take(j as int));
                        let ghost r = (i as int, link@);
                        proof {
                            assert(link@ == found[j as int]);
                            assert(base + refs_of(i as int, found.take(j + 1)) =~= refs.push(r));
                            assert forall|l: Seq<char>|
                                mentions(refs.push(r), l) <==> mentions(refs, l) || l == r.1 by {
                                lemma_mentions_push(refs, r, l);
                            }
                            lemma_followable_push(history, views, refs, r);
                        }
                        if !self.is_requested(link.as_str()) && !added.contains(link.as_str()) {
                            let link_string = NaverWebtoonPager::decode_escape_char(link.clone());
                            if !result_handler.can_make_requestable_uri(link_string.as_str()) {
                                proof {
                                    lemma_link_refs_prefix(views, i as int, found.take(j + 1));
                                    lemma_followable_prefix(
                                        history,
                                        views,
                                        link_refs(views),
                                        refs.push(r).len() as int,
                                    );
                                }
                                return false;
                            }
                        }
                        added.insert(link.clone());
                        j += 1;
                    }
                    assert(found.take(links.len() as int) =~= found);
                },
                None => {
                    assert(base + refs_of(i as int, Seq::empty()) =~= base);
                },
            }
            i += 1;
        }
        assert(views.take(pager_results.len() as int) =~= views);
        true
    }

    /// Plans the requests for the links that were not requested before,
    /// records those links, and notes whether a further page is announced:
    /// where none of the results shows `next`, no page is expected any more.
    pub fn make_next_requests(&mut self, pager_results: &Vec<ResultHandler>) -> (requests:
        VecDeque<Request>)
        requires
            followable(old(self)@.history, pager_results.deep_view()),
        ensures
            requests@.len() == fresh(
                old(self)@.history,
                link_refs(pager_results.deep_view()),
            ).len(),
            forall|k: int|
                0 <= k < requests@.len() ==> (#[trigger] requests@[k])@ == follow_up(
                    pager_results.deep_view(),
                    fresh(old(self)@.history, link_refs(pager_results.deep_view()))[k],
                ),
            final(self)@.history == old(self)@.history + mentioned(
                link_refs(pager_results.deep_view()),
            ),
            final(self)@.next_request_available == (old(self)@.next_request_available
                && shows_next(pager_results.deep_view())),
    {
        let mut requests: VecDeque<Request> = VecDeque::new();
        let link_label = ReservedLabel::Link.to_string();
        let ghost views = pager_results.deep_view();
        let ghost history = self@.history;
        let mut i: usize = 0;
        assert(views.take(0) =~= Seq::empty());
        assert(self@.history =~= history + mentioned(link_refs(views.take(0))));
        while i < pager_results.len()
            invariant
                i <= pager_results.len(),
                views == pager_results.deep_view(),
                history == old(self)@.history,
                followable(history, views),
                link_label@ == crate::result::link_label(),
                self@.next_request_available == old(self)@.next_request_available,
                self@.history == history + mentioned(link_refs(views.take(i as int))),
                requests@.len() == fresh(history, link_refs(views.take(i as int))).len(),
                forall|k: int|
                    0 <= k < requests@.len() ==> (#[trigger] requests@[k])@ == follow_up(
                        views,
                        fresh(history, link_refs(views.take(i as int)))[k],
                    ),
            decreases pager_results.len() - i,
        {
            let result_handler = &pager_results[i];
            let ghost base = link_refs(views.take(i as int));
            proof {
                assert(result_handler@ == views[i as int]);
                lemma_link_refs_step(views, i as int);
            }
            match result_handler.get_result(link_label.as_str()) {
                Some(links) => {
                    let ghost found = links.deep_view();
                    let mut j: usize = 0;
                    assert(base + refs_of(i as int, found.take(0)) =~= base);
                    while j < links.len()
                        invariant
                            j <= links.len(),
                            i < pager_results.len(),
                            views == pager_results.deep_view(),
                            result_handler@ == views[i as int],
                            history == old(self)@.history,
                            followable(history, views),
                            found == links.deep_view(),
                            found == views[i as int].values_of(crate::result::link_label()),
                            base == link_refs(views.take(i as int)),
                            self@.next_request_available == old(self)@.next_request_available,
                            self@.history == history + mentioned(
                                base + refs_of(i as int, found.take(j as int)),
                            ),
                            requests@.len() == fresh(
                                history,
                                base + refs_of(i as int, found.take(j as int)),
                            ).len(),
                            forall|k: int|
                                0 <= k < requests@.len() ==> (#[trigger] requests@[k])@
                                    == follow_up(
                                    views,
                                    fresh(
                                        history,
                                        base + refs_of(i as int, found.take(j as int)),
                                    )[k],
                                ),
                        decreases links.len() - j,
                    {
                        let link = &links[j];
                        let ghost refs = base + refs_of(i as int, found.take(j as int));
                        let ghost r = (i as int, link@);
                        let ghost before = requests@;
                        proof {
                            assert(link@ == found[j as int]);
                            assert(base + refs_of(i as int, found.take(j + 1)) =~= refs.push(r));
                            assert(refs.push(r).drop_last() =~= refs);
                            assert forall|l: Seq<char>|
                                mentions(refs.push(r), l) <==> mentions(refs, l) || l == r.1 by {
                                lemma_mentions_push(refs, r, l);
                            }
                            assert(self@.history.contains(link@) <==> (history.contains(link@)
                                || mentions(refs, link@)));
                            lemma_link_refs_prefix(views, i as int, found.take(j + 1));
                            lemma_followable_prefix(
                                history,
                                views,
                                link_refs(views),
                                refs.push(r).len() as int,
                            );
                            lemma_followable_push(history, views, refs, r);
                        }
                        if !self.is_requested(link.as_str()) {
                            let link_string = NaverWebtoonPager::decode_escape_char(link.clone());
                            let requestable_uri = result_handler.make_requestable_uri(
                                link_string.as_str(),
                            );
                            let request = Request::new(Method::Get, requestable_uri);
                            assert(request@ == follow_up(views, r));
                            requests.push_back(request);
                            self.insert_history(link.as_str());
                            assert(requests@ == before.push(request));
                        }
                        proof {
                            assert(self@.history =~= history + mentioned(refs.push(r)));
                        }
                        j += 1;
                    }
                    assert(found.take(links.len() as int) =~= found);
                },
                None => {
                    assert(base + refs_of(i as int, Seq::empty()) =~= base);
                },
            }
            i += 1;
        }
        assert(views.take(pager_results.len() as int) =~= views);
        let is_next_shown = announces_next(pager_results);
        self.next_request_available = self.next_request_available && is_next_shown;
        requests
    }

    /// The links under `label`, resolved, in the order of the handlers.
    pub fn collect_ordered_result(
        &self,
        label: ReservedLabel,
        result_handlers: &Vec<ResultHandler>,
    ) -> (links: VecDeque<String>)
        requires
            collectable(result_handlers.deep_view(), label.text()),
        ensures
            links.deep_view() == collected(result_handlers.deep_view(), label.text()),
    {
        collect_links(label, result_handlers)
    }

    /// The newest page comes first on this site.
    pub fn ordering(&self) -> (order: PageOrder)
        ensures
            order == PageOrder::Descending,
    {
        PageOrder::Descending
    }

    /// Records `link` as requested, as it is.
    pub fn insert_history(&mut self, link: &str)
        ensures
            final(self)@ == (PagerView {
                history: old(self)@.history.insert(link@),
                ..old(self)@
            }),
    {
        self.request_history.insert(link.to_owned());
    }

    /// A URL without scheme and authority.
    pub fn relative_uri_string(uri_str: &str) -> (relative: String)
        requires
            relative_usable(uri_str@),
        ensures
            relative@ == relative_text(uri_str@),
    {
        let uri = Uri::parse(uri_str).unwrap();
        if uri.is_absolute() {
            let path = uri.path();
            let query = match uri.query() {
                Some(query) => Some(query.as_str()),
                None => None,
            };
            let rebuilt_uri = ConnectorUtils::build_uri(None, None, path, query, None);
            return rebuilt_uri.as_str().to_owned();
        }
        uri.as_str().to_owned()
    }

    /// Replaces `&`, `<`, `>`, `"` and `'` by their entities.
    pub fn encode_escape_char(target_string: String) -> (encoded: String)
        ensures
            encoded@ == escaped(target_string@),
    {
        proof {
            reveal_strlit("&");
            reveal_strlit("<");
            reveal_strlit(">");
            reveal_strlit("\"");
            reveal_strlit("'");
            reveal_strlit("&amp;");
            reveal_strlit("&lt;");
            reveal_strlit("&gt;");
            reveal_strlit("&quot;");
            reveal_strlit("&apos;");
            assert("&"@ =~= seq!['&']);
            assert("<"@ =~= seq!['<']);
            assert(">"@ =~= seq!['>']);
            assert("\""@ =~= seq!['"']);
            assert("'"@ =~= seq!['\'']);
            assert("&amp;"@ =~= seq!['&', 'a', 'm', 'p', ';']);
            assert("&lt;"@ =~= seq!['&', 'l', 't', ';']);
            assert("&gt;"@ =~= seq!['&', 'g', 't', ';']);
            assert("&quot;"@ =~= seq!['&', 'q', 'u', 'o', 't', ';']);
            assert("&apos;"@ =~= seq!['&', 'a', 'p', 'o', 's', ';']);
        }
        let amp = "&amp;";
        let lt = "&lt;";
        let gt = "&gt;";
        let quot = "&quot;";
        let apos = "&apos;";
        let mut encode_string = replace(target_string.as_str(), "&", amp);
        encode_string = replace(encode_string.as_str(), "<", lt);
        encode_string = replace(encode_string.as_str(), ">", gt);
        encode_string = replace(encode_string.as_str(), "\"", quot);
        encode_string = replace(encode_string.as_str(), "'", apos);
        encode_string
    }

    /// Replaces the entities for `&`, `<`, `>`, `"` and `'` by the
    /// characters they stand for.
    pub fn decode_escape_char(target_string: String) -> (decoded: String)
        ensures
            decoded@ == unescaped(target_string@),
    {
        proof {
            reveal_strlit("&");
            reveal_strlit("<");
            reveal_strlit(">");
            reveal_strlit("\"");
            reveal_strlit("'");
            reveal_strlit("&amp;");
            reveal_strlit("&lt;");
            reveal_strlit("&gt;");
            reveal_strlit("&quot;");
            reveal_strlit("&apos;");
            assert("&"@ =~= seq!['&']);
            assert("<"@ =~= seq!['<']);
            assert(">"@ =~= seq!['>']);
            assert("\""@ =~= seq!['"']);
            assert("'"@ =~= seq!['\'']);
            assert("&amp;"@ =~= seq!['&', 'a', 'm', 'p', ';']);
            assert("&lt;"@ =~= seq!['&', 'l', 't', ';']);
            assert("&gt;"@ =~= seq!['&', 'g', 't', ';']);
            assert("&quot;"@ =~= seq!['&', 'q', 'u', 'o', 't', ';']);
            assert("&apos;"@ =~= seq!['&', 'a', 'p', 'o', 's', ';']);
        }
        let amp = "&";
        let lt = "<";
        let gt = ">";
        let quot = "\"";
        let apos = "'";
        let mut encode_string = replace(target_string.as_str(), "&amp;", amp);
        encode_string = replace(encode_string.as_str(), "&lt;", lt);
        encode_string = replace(encode_string.as_str(), "&gt;", gt);
        encode_string = replace(encode_string.as_str(), "&quot;", quot);
        encode_string = replace(encode_string.as_str(), "&apos;", apos);
        encode_string
    }
}

/// The query that asks for the first page.
fn page_one() -> (add_query: StringMap<String>)
    ensures
        entries(&add_query) == first_page(),
{
    proof {
        reveal_strlit("page");
        reveal_strlit("1");
        assert("page"@ =~= page_key());
        assert("1"@ =~= seq!['1']);
    }
    let mut add_query: StringMap<String> = StringMap::new();
    add_query.insert("page".to_owned(), "1".to_owned());
    proof {
        let _ = add_query.spec_keys();
        assert(entries(&add_query) =~= first_page());
    }
    add_query
}

/// One more link is followable where the links before it are and, if it
/// has to be requested itself, it stands for a request target.
pub proof fn lemma_followable_push(
    history: Set<Seq<char>>,
    handlers: Seq<ResultHandlerView>,
    refs: Seq<(int, Seq<char>)>,
    r: (int, Seq<char>),
)
    ensures
        fresh(history, refs.push(r)) == if history.contains(r.1) || mentions(refs, r.1) {
            fresh(history, refs)
        } else {
            fresh(history, refs).push(r)
        },
        all_followable(history, handlers, refs.push(r)) <==> all_followable(
            history,
            handlers,
            refs,
        ) && (!history.contains(r.1) && !mentions(refs, r.1) ==> handlers[r.0].can_resolve(
            unescaped(r.1),
        )),
{
    assert(refs.push(r).drop_last() =~= refs);
    let todo = fresh(history, refs);
    let more = fresh(history, refs.push(r));
    if !history.contains(r.1) && !mentions(refs, r.1) {
        assert(more == todo.push(r));
        if all_followable(history, handlers, refs.push(r)) {
            assert(more[todo.len() as int] == r);
            assert forall|k: int| 0 <= k < todo.len() implies handlers[(
            #[trigger] todo[k]).0].can_resolve(unescaped(todo[k].1)) by {
                assert(more[k] == todo[k]);
            }
        }
        if all_followable(history, handlers, refs) && handlers[r.0].can_resolve(unescaped(r.1)) {
            assert forall|k: int| 0 <= k < more.len() implies handlers[(
            #[trigger] more[k]).0].can_resolve(unescaped(more[k].1)) by {
                if k < todo.len() {
                    assert(more[k] == todo[k]);
                }
            }
        }
    }
}

/// Where all links are followable, so are the first `n` of them.
proof fn lemma_followable_prefix(
    history: Set<Seq<char>>,
    handlers: Seq<ResultHandlerView>,
    refs: Seq<(int, Seq<char>)>,
    n: int,
)
    requires
        0 <= n <= refs.len(),
    ensures
        all_followable(history, handlers, refs) ==> all_followable(history, handlers, refs.take(n)),
{
    lemma_fresh_of_prefix(history, refs, n);
    if all_followable(history, handlers, refs) {
        let part = fresh(history, refs.take(n));
        let whole = fresh(history, refs);
        assert forall|k: int| 0 <= k < part.len() implies handlers[(
        #[trigger] part[k]).0].can_resolve(unescaped(part[k].1)) by {
            assert(whole[k] == part[k]);
        }
    }
}

/// The links up to the handler `i` and some of its own come first among all.
proof fn lemma_link_refs_prefix(handlers: Seq<ResultHandlerView>, i: int, links: Seq<Seq<char>>)
    requires
        0 <= i < handlers.len(),
        links.len() <= handlers[i].values_of(link_label()).len(),
        links == handlers[i].values_of(link_label()).take(links.len() as int),
    ensures
        (link_refs(handlers.take(i)) + refs_of(i, links)).len() <= link_refs(handlers).len(),
        link_refs(handlers).take((link_refs(handlers.take(i)) + refs_of(i, links)).len() as int)
            == link_refs(handlers.take(i)) + refs_of(i, links),
    decreases handlers.len(),
{
    let part = link_refs(handlers.take(i)) + refs_of(i, links);
    let all_i = handlers[i].values_of(link_label());
    if i == handlers.len() - 1 {
        assert(handlers.drop_last() =~= handlers.take(i));
        assert(link_refs(handlers).take(part.len() as int) =~= part);
    } else {
        let init = handlers.drop_last();
        assert(init.take(i) =~= handlers.take(i));
        assert(init[i] == handlers[i]);
        lemma_link_refs_prefix(init, i, links);
        assert(link_refs(handlers).take(part.len() as int) =~= link_refs(init).take(
            part.len() as int,
        ));
    }
}

/// What is requested of the first `n` links is requested of all, at the
/// same place.
proof fn lemma_fresh_of_prefix(history: Set<Seq<char>>, refs: Seq<(int, Seq<char>)>, n: int)
    requires
        0 <= n <= refs.len(),
    ensures
        fresh(history, refs.take(n)).len() <= fresh(history, refs).len(),
        forall|k: int|
            0 <= k < fresh(history, refs.take(n)).len() ==> fresh(history, refs)[k]
                == #[trigger] fresh(history, refs.take(n))[k],
    decreases refs.len(),
{
    if n == refs.len() {
        assert(refs.take(n) =~= refs);
    } else {
        let init = refs.drop_last();
        assert(init.take(n) =~= refs.take(n));
        lemma_fresh_of_prefix(history, init, n);
    }
}

/// The pager of a site that has no pages to follow: it takes the entry URL
/// as it is and requests no further page.
pub struct DefaultPager {
    next_request_available: bool,
}

impl View for DefaultPager {
    type V = PagerView;

    closed spec fn view(&self) -> PagerView {
        PagerView { history: Set::empty(), next_request_available: self.next_request_available }
    }
}

impl DefaultPager {
    /// A pager that expects a page.
    pub fn new() -> (pager: DefaultPager)
        ensures
            pager@ == (PagerView { history: Set::empty(), next_request_available: true }),
    {
        DefaultPager { next_request_available: true }
    }

    /// A pager that remembers what this one does.
    pub fn duplicate(&self) -> (copy: DefaultPager)
        ensures
            copy@ == self@,
    {
        DefaultPager { next_request_available: self.next_request_available }
    }

    /// The entry URL, as it is.
    pub fn get_entry_uri(&self, entry_url: &str) -> (uri: Uri)
        requires
            uri_parse(entry_url@) is Some,
        ensures
            uri_parse(entry_url@) == Some(uri@),
    {
        Uri::parse(entry_url).unwrap()
    }

    /// This pager keeps no history: nothing counts as requested.
    pub fn is_requested(&self, link: &str) -> (requested: bool)
        ensures
            !requested,
    {
        false
    }

    /// This pager keeps no history.
    pub fn set_as_requested(&mut self, link: &str)
        ensures
            final(self)@ == old(self)@,
    {
    }

    pub fn has_next_request(&self) -> (available: bool)
        ensures
            available == self@.next_request_available,
    {
        self.next_request_available
    }

    /// Plans no request, and notes whether a further page is announced.
    pub fn make_next_requests(&mut self, pager_results: &Vec<ResultHandler>) -> (requests:
        VecDeque<Request>)
        ensures
            requests@.len() == 0,
            final(self)@.history == old(self)@.history,
            final(self)@.next_request_available == (old(self)@.next_request_available
                && shows_next(pager_results.deep_view())),
    {
        let requests = VecDeque::new();
        let is_next_shown = announces_next(pager_results);
        self.next_request_available = self.next_request_available && is_next_shown;
        requests
    }

    /// The links under `label`, resolved, in the order of the handlers.
    pub fn collect_ordered_result(
        &self,
        label: ReservedLabel,
        result_handlers: &Vec<ResultHandler>,
    ) -> (links: VecDeque<String>)
        requires
            collectable(result_handlers.deep_view(), label.text()),
        ensures
            links.deep_view() == collected(result_handlers.deep_view(), label.text()),
    {
        collect_links(label, result_handlers)
    }

    /// Pages come in the order in which they are read.
    pub fn ordering(&self) -> (order: PageOrder)
        ensures
            order == PageOrder::Ascending,
    {
        PageOrder::Ascending
    }
}

} // verus!
