//! Procedures: the site policies that shape the request for an artifact.

use crate::connector::extractor::extraction_rules::ProcedureName;
use crate::http::{host_defined, uri_host, uri_parse, Method, Request, RequestView, Uri};
use crate::result::{source_url_key, ExtraInformKey, ResultHandler, ResultHandlerView};
use crate::text::str_eq;
use vstd::prelude::*;
use vstd::string::StrSliceExecFns;
use vstd::utf8::encode_utf8;

verus! {

/// The host on which the webtoon procedure names its referer.
pub open spec fn comic_naver_host() -> Seq<char> {
    seq!['c', 'o', 'm', 'i', 'c', '.', 'n', 'a', 'v', 'e', 'r', '.', 'c', 'o', 'm']
}

/// Whether the host of the handler's source URL can be read, as far as the
/// handler knows a source URL that parses.
pub open spec fn referer_readable(h: ResultHandlerView) -> bool {
    h.extras.contains_key(source_url_key()) ==> (uri_parse(h.extras[source_url_key()]) matches Some(
        source,
    ) ==> host_defined(source.authority))
}

/// The referer that the webtoon procedure names: the source URL of the
/// handler, where that URL parses and its host is `comic.naver.com`.
pub open spec fn referer_of(h: ResultHandlerView) -> Option<Seq<u8>> {
    if h.extras.contains_key(source_url_key()) && uri_parse(h.extras[source_url_key()]) is Some
        && uri_host(uri_parse(h.extras[source_url_key()])->0.source) == Some(comic_naver_host()) {
        Some(encode_utf8(h.extras[source_url_key()]))
    } else {
        None
    }
}

/// Whether a procedure can make the request for `link`.
pub open spec fn requestable(name: ProcedureName, h: ResultHandlerView, link: Seq<char>) -> bool {
    h.can_resolve(link) && (name is NaverWebtoon ==> referer_readable(h))
}

/// The request that a procedure makes for `link`: for the resolved link,
/// with the cookies of the handler echoed, and with the referer that the
/// webtoon procedure names.
pub open spec fn request_for(name: ProcedureName, h: ResultHandlerView, link: Seq<char>) -> RequestView {
    RequestView {
        method: Method::Get,
        uri: h.resolve(link),
        set_cookie: h.raw_cookies,
        referer: if name is NaverWebtoon {
            referer_of(h)
        } else {
            None
        },
    }
}

/// The procedure for `comic.naver.com`, which wants to be told where a
/// request comes from.
pub struct NaverWebtoonProcedure<'a> {
    handler: &'a ResultHandler,
}

impl<'a> NaverWebtoonProcedure<'a> {
    pub closed spec fn spec_handler(&self) -> ResultHandlerView {
        self.handler@
    }

    pub fn new(handler: &'a ResultHandler) -> (procedure: NaverWebtoonProcedure<'a>)
        ensures
            procedure.spec_handler() == handler@,
    {
        NaverWebtoonProcedure { handler: handler }
    }

    /// Whether the host of the handler's source URL can be read.
    pub fn can_add_domain_specific_headers(result_handler: &ResultHandler) -> (ok: bool)
        ensures
            ok == referer_readable(result_handler@),
    {
        let source_url = match result_handler.get_extra_inform(ExtraInformKey::SourceUrl) {
            Some(source_url) => source_url,
            None => {
                return true;
            },
        };
        match Uri::parse(source_url.as_str()) {
            Some(url) => url.host_is_defined(),
            None => true,
        }
    }

    /// Names the source URL of the handler as referer of `request`, where
    /// that URL is on `comic.naver.com`.
    pub fn add_domain_specific_headers(result_handler: &ResultHandler, request: &mut Request)
        requires
            referer_readable(result_handler@),
        ensures
            final(request)@ == (RequestView {
                referer: match referer_of(result_handler@) {
                    Some(referer) => Some(referer),
                    None => old(request)@.referer,
                },
                ..old(request)@
            }),
    {
        let source_url = match result_handler.get_extra_inform(ExtraInformKey::SourceUrl) {
            Some(source_url) => source_url,
            None => {
                return ;
            },
        };
        let parsed_source_url: Uri = match Uri::parse(source_url.as_str()) {
            Some(url) => url,
            None => {
                return ;
            },
        };
        let domain = match parsed_source_url.host() {
            Some(domain) => domain,
            None => {
                return ;
            },
        };
        proof {
            reveal_strlit("comic.naver.com");
            assert("comic.naver.com"@ =~= comic_naver_host());
        }
        if str_eq(domain.as_str(), "comic.naver.com") {
            let source_url_bytes = source_url.as_str().as_bytes_vec();
            assert(source_url_bytes.deep_view() =~= encode_utf8(source_url@));
            request.referer = Some(source_url_bytes);
        }
    }

    /// The request for `link`: cookies echoed, referer named.
    pub fn get_request(&self, link: &str) -> (request: Request)
        requires
            requestable(ProcedureName::NaverWebtoon, self.spec_handler(), link@),
        ensures
            request@ == request_for(ProcedureName::NaverWebtoon, self.spec_handler(), link@),
    {
        let link = self.handler.make_requestable_uri(link);
        let mut request = Request::new(Method::Get, link);
        request.set_cookie = self.handler.get_raw_cookies();
        NaverWebtoonProcedure::add_domain_specific_headers(self.handler, &mut request);
        request
    }
}

/// The procedure of a site that asks for nothing special.
pub struct DefaultProcedure<'a> {
    handler: &'a ResultHandler,
}

impl<'a> DefaultProcedure<'a> {
    pub closed spec fn spec_handler(&self) -> ResultHandlerView {
        self.handler@
    }

    pub fn new(handler: &'a ResultHandler) -> (procedure: DefaultProcedure<'a>)
        ensures
            procedure.spec_handler() == handler@,
    {
        DefaultProcedure { handler: handler }
    }

    /// The request for `link`, with the cookies of the handler echoed.
    pub fn get_request(&self, link: &str) -> (request: Request)
        requires
            requestable(ProcedureName::Default, self.spec_handler(), link@),
        ensures
            request@ == request_for(ProcedureName::Default, self.spec_handler(), link@),
    {
        let link = self.handler.make_requestable_uri(link);
        let mut request = Request::new(Method::Get, link);
        request.set_cookie = self.handler.get_raw_cookies();
        request
    }
}

/// The procedure of an extraction, chosen by the name in the rule.
pub enum Procedure<'a> {
    NaverWebtoon(NaverWebtoonProcedure<'a>),
    Default(DefaultProcedure<'a>),
}

impl<'a> Procedure<'a> {
    /// The name by which the procedure was chosen.
    pub open spec fn name(&self) -> ProcedureName {
        match self {
            Procedure::NaverWebtoon(_) => ProcedureName::NaverWebtoon,
            Procedure::Default(_) => ProcedureName::Default,
        }
    }

    /// The handler whose links the procedure requests.
    pub open spec fn spec_handler(&self) -> ResultHandlerView {
        match self {
            Procedure::NaverWebtoon(procedure) => procedure.spec_handler(),
            Procedure::Default(procedure) => procedure.spec_handler(),
        }
    }

    /// The handler whose links the procedure requests.
    pub fn handler(&self) -> (handler: &'a ResultHandler)
        ensures
            handler@ == self.spec_handler(),
    {
        match self {
            Procedure::NaverWebtoon(procedure) => procedure.handler,
            Procedure::Default(procedure) => procedure.handler,
        }
    }

    /// Whether the procedure can make the request for `link`.
    pub fn can_get_request(&self, link: &str) -> (ok: bool)
        ensures
            ok == requestable(self.name(), self.spec_handler(), link@),
    {
        let handler = self.handler();
        if !handler.can_make_requestable_uri(link) {
            return false;
        }
        match self {
            Procedure::NaverWebtoon(_) => NaverWebtoonProcedure::can_add_domain_specific_headers(
                handler,
            ),
            Procedure::Default(_) => true,
        }
    }

    /// The request for `link`.
    pub fn get_request(&self, link: &str) -> (request: Request)
        requires
            requestable(self.name(), self.spec_handler(), link@),
        ensures
            request@ == request_for(self.name(), self.spec_handler(), link@),
    {
        match self {
            Procedure::NaverWebtoon(procedure) => procedure.get_request(link),
            Procedure::Default(procedure) => procedure.get_request(link),
        }
    }

    /// The request for `link`, where the procedure can make it.
    pub fn try_get_request(&self, link: &str) -> (request: Option<Request>)
        ensures
            request is Some <==> requestable(self.name(), self.spec_handler(), link@),
            request matches Some(r) ==> r@ == request_for(
                self.name(),
                self.spec_handler(),
                link@,
            ),
    {
        if self.can_get_request(link) {
            Some(self.get_request(link))
        } else {
            None
        }
    }
}

} // verus!
