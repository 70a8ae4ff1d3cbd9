//! Plain-value models of what travels over HTTP: request targets, raw header
//! values, planned requests and received responses.
//!
//! Request targets are parsed by `hyper`; everything else here is data that
//! the crawler reads and writes itself.

use crate::text::{
    chars_of, contains_char, find_char, find_first, matches_at, occurs_at, split, split_char,
};
use vstd::prelude::*;

verus! {

/// The parts of a request target, as texts.
pub ghost struct UriView {
    pub source: Seq<char>,
    pub scheme: Option<Seq<char>>,
    pub authority: Option<Seq<char>>,
    pub path: Seq<char>,
    pub query: Option<Seq<char>>,
    pub port: Option<u16>,
}

/// What `hyper::Uri::from_str` makes of a text: `None` where it rejects the
/// text, else the accepted target with the results of its accessors
/// `as_ref`, `scheme`, `authority`, `path`, `query` and `port`.
pub uninterp spec fn hyper_parse(text: Seq<char>) -> Option<UriView>;

/// The characters that UTF-8 writes in one byte.
pub open spec fn one_byte(c: char) -> bool {
    c <= '\u{7f}'
}

/// The characters that UTF-8 writes in two bytes.
pub open spec fn two_bytes(c: char) -> bool {
    '\u{80}' <= c && c <= '\u{7ff}'
}

/// The mark behind which the authority of an absolute URL begins.
pub open spec fn scheme_mark() -> Seq<char> {
    seq![':', '/', '/']
}

/// Whether `text` holds `://` somewhere.
pub open spec fn has_scheme_mark(text: Seq<char>) -> bool {
    exists|i: int| occurs_at(text, i, scheme_mark())
}

/// The texts that hyper can take apart. hyper reads a text with `://` that
/// does not begin with `/` as an absolute URL: the scheme ends at the first
/// `:` of the text, and the authority is cut out from three bytes behind
/// that `:`. Where the first `:` is not the one of `://`, those three bytes
/// must end on a character: the `:` is followed by one character of two
/// bytes, or by two characters of one byte each.
pub open spec fn sliceable(text: Seq<char>) -> bool {
    text.len() > 0 && text[0] != '/' && has_scheme_mark(text) ==> {
        let colon = find_char(text, ':');
        &&& colon + 2 < text.len()
        &&& two_bytes(text[colon + 1]) || (one_byte(text[colon + 1]) && one_byte(
            text[colon + 2],
        ))
    }
}

/// The request target that a text stands for: what hyper makes of it, and
/// none where hyper cannot take it apart.
pub open spec fn uri_parse(text: Seq<char>) -> Option<UriView> {
    if sliceable(text) {
        hyper_parse(text)
    } else {
        None
    }
}

/// The host that an authority names: of what follows its last `@`, the text
/// between `[` and the first `]` where it begins with `[`, else the text
/// before the first `:`.
pub open spec fn host_in(authority: Seq<char>) -> Seq<char> {
    let hp = host_port(authority);
    if hp.len() > 0 && hp[0] == '[' {
        hp.subrange(1, find_char(hp, ']'))
    } else {
        split(hp, ':')[0]
    }
}

/// The host of the target that `text` stands for, where it has an
/// authority.
pub open spec fn uri_host(text: Seq<char>) -> Option<Seq<char>> {
    match uri_parse(text) {
        Some(u) => match u.authority {
            Some(authority) => Some(host_in(authority)),
            None => None,
        },
        None => None,
    }
}

/// The part of an authority that names host and port: what follows its last
/// `@`.
pub open spec fn host_port(authority: Seq<char>) -> Seq<char> {
    split(authority, '@').last()
}

/// The authorities from which a host can be read: the host part is not
/// empty, and an opening bracket at its start is closed somewhere after.
pub open spec fn host_defined(authority: Option<Seq<char>>) -> bool {
    authority matches Some(a) ==> {
        let hp = host_port(a);
        hp.len() > 0 && (hp[0] == '[' ==> hp.contains(']'))
    }
}

/// A text that is no request target.
#[derive(Debug)]
pub struct UriError {}

/// A request target in one of the forms HTTP knows: `*`, a path with an
/// optional query, an absolute URL, or a bare authority.
#[derive(Debug)]
pub struct Uri {
    source: String,
    scheme: Option<String>,
    authority: Option<String>,
    path: String,
    query: Option<String>,
    port: Option<u16>,
}

impl View for Uri {
    type V = UriView;

    closed spec fn view(&self) -> UriView {
        UriView {
            source: self.source@,
            scheme: self.scheme.deep_view(),
            authority: self.authority.deep_view(),
            path: self.path@,
            query: self.query.deep_view(),
            port: self.port,
        }
    }
}

/// `hyper::Uri::from_str`, with the accepted target taken apart by hyper's
/// accessors `as_ref`, `scheme`, `authority`, `path`, `query` and `port`.
/// Texts that hyper cannot slice are left out. Parsing the text that `as_ref`
/// hands back gives the same target again: hyper only ever adds the `/` that
/// an absolute URL without a path lacks, behind the authority.
#[verifier::external_body]
fn parse_uri(text: &str) -> (parsed: Option<Uri>)
    requires
        sliceable(text@),
    ensures
        parsed matches Some(u) ==> hyper_parse(text@) == Some(u@) && sliceable(u@.source)
            && hyper_parse(u@.source) == Some(u@),
        parsed is None ==> hyper_parse(text@) is None,
{
    match text.parse::<hyper::Uri>() {
        Ok(u) => Some(
            Uri {
                source: u.as_ref().to_owned(),
                scheme: u.scheme().map(|s| s.to_owned()),
                authority: u.authority().map(|s| s.to_owned()),
                path: u.path().to_owned(),
                query: u.query().map(|s| s.to_owned()),
                port: u.port(),
            },
        ),
        Err(_) => None,
    }
}

/// `hyper::Uri::host` on the target that `source` parses to: of what follows
/// the last `@` of the authority, the text between `[` and the first `]`, or
/// else the text before the first `:`; none where there is no authority.
/// hyper indexes into the host part, so authorities without one are left
/// out.
#[verifier::external_body]
fn host_of(source: &str) -> (host: Option<String>)
    requires
        uri_parse(source@) is Some,
        host_defined(uri_parse(source@)->0.authority),
    ensures
        host.deep_view() == uri_host(source@),
{
    source.parse::<hyper::Uri>().ok().and_then(|u| u.host().map(|h| h.to_owned()))
}

/// Whether `mark` stands somewhere in `chars`.
fn holds_mark(chars: &Vec<char>, mark: &Vec<char>) -> (found: bool)
    ensures
        found == exists|i: int| occurs_at(chars@, i, mark@),
{
    let mut i: usize = 0;
    while i < chars.len()
        invariant
            i <= chars.len(),
            forall|j: int| 0 <= j < i ==> !occurs_at(chars@, j, mark@),
        decreases chars.len() - i,
    {
        if matches_at(chars, i, mark) {
            return true;
        }
        i += 1;
    }
    matches_at(chars, i, mark)
}

/// Whether hyper can take `text` apart.
pub fn is_sliceable(text: &str) -> (ok: bool)
    ensures
        ok == sliceable(text@),
{
    let chars = chars_of(text);
    if chars.len() == 0 || chars[0] == '/' {
        return true;
    }
    let mut mark: Vec<char> = Vec::new();
    mark.push(':');
    mark.push('/');
    mark.push('/');
    assert(mark@ =~= scheme_mark());
    if !holds_mark(&chars, &mark) {
        return true;
    }
    let colon = find_first(&chars, ':');
    if chars.len() < 3 || colon >= chars.len() - 2 {
        return false;
    }
    let next = chars[colon + 1];
    let after = chars[colon + 2];
    (next >= '\u{80}' && next <= '\u{7ff}') || (next <= '\u{7f}' && after <= '\u{7f}')
}

fn clone_text(s: &Option<String>) -> (r: Option<String>)
    ensures
        r == *s,
{
    match s {
        Some(t) => Some(t.clone()),
        None => None,
    }
}

impl Uri {
    #[verifier::type_invariant]
    spec fn is_parsed(self) -> bool {
        uri_parse(self.source@) == Some(self@)
    }

    /// Parses a request target.
    pub fn parse(text: &str) -> (parsed: Option<Uri>)
        ensures
            parsed matches Some(u) ==> uri_parse(text@) == Some(u@),
            parsed is None ==> uri_parse(text@) is None,
    {
        if is_sliceable(text) {
            parse_uri(text)
        } else {
            None
        }
    }

    /// The text of the target. Parsing it gives this target again.
    pub fn as_str(&self) -> (s: &str)
        ensures
            s@ == self@.source,
            uri_parse(s@) == Some(self@),
    {
        proof {
            use_type_invariant(self);
        }
        self.source.as_str()
    }

    pub fn scheme(&self) -> (s: Option<&String>)
        ensures
            s.deep_view() == self@.scheme,
    {
        self.scheme.as_ref()
    }

    pub fn authority(&self) -> (s: Option<&String>)
        ensures
            s.deep_view() == self@.authority,
    {
        self.authority.as_ref()
    }

    pub fn path(&self) -> (s: &str)
        ensures
            s@ == self@.path,
    {
        self.path.as_str()
    }

    pub fn query(&self) -> (s: Option<&String>)
        ensures
            s.deep_view() == self@.query,
    {
        self.query.as_ref()
    }

    pub fn port(&self) -> (p: Option<u16>)
        ensures
            p == self@.port,
    {
        self.port
    }

    /// Whether the target is an absolute URL, that is, has a scheme.
    pub fn is_absolute(&self) -> (b: bool)
        ensures
            b == self@.scheme.is_some(),
    {
        self.scheme.is_some()
    }

    /// Whether a host can be read from the target's authority.
    pub fn host_is_defined(&self) -> (ok: bool)
        ensures
            ok == host_defined(self@.authority),
    {
        match &self.authority {
            None => true,
            Some(a) => {
                let parts = split_char(a.as_str(), '@');
                proof {
                    crate::text::lemma_split_nonempty(a@, '@');
                }
                let hp = chars_of(parts[parts.len() - 1].as_str());
                assert(hp@ == host_port(a@));
                if hp.len() == 0 {
                    false
                } else if hp[0] != '[' {
                    true
                } else {
                    contains_char(&hp, ']')
                }
            },
        }
    }

    /// The host named by the authority, if the target has one.
    pub fn host(&self) -> (host: Option<String>)
        requires
            host_defined(self@.authority),
        ensures
            host.deep_view() == uri_host(self@.source),
            host is Some <==> self@.authority is Some,
            host.deep_view() == match self@.authority {
                Some(authority) => Some(host_in(authority)),
                None => None,
            },
    {
        proof {
            use_type_invariant(self);
        }
        host_of(self.source.as_str())
    }
}

impl Clone for Uri {
    fn clone(&self) -> (r: Self)
        ensures
            r == *self,
    {
        proof {
            use_type_invariant(self);
        }
        Uri {
            source: self.source.clone(),
            scheme: clone_text(&self.scheme),
            authority: clone_text(&self.authority),
            path: self.path.clone(),
            query: clone_text(&self.query),
            port: self.port,
        }
    }
}

impl core::str::FromStr for Uri {
    type Err = UriError;

    /// Parses a request target; a text that is none is an error.
    fn from_str(text: &str) -> (r: Result<Uri, UriError>)
        ensures
            r matches Ok(u) ==> uri_parse(text@) == Some(u@),
            r is Err ==> uri_parse(text@) is None,
    {
        match Uri::parse(text) {
            Some(u) => Ok(u),
            None => Err(UriError {  }),
        }
    }
}

/// The request methods the crawler issues.
#[derive(Clone, Copy, Debug, PartialEq, Eq, Structural)]
pub enum Method {
    Get,
}

/// A raw header value: the lines of bytes that were sent under one name.
#[derive(Debug)]
pub struct Raw {
    pub lines: Vec<Vec<u8>>,
}

impl View for Raw {
    type V = Seq<Seq<u8>>;

    open spec fn view(&self) -> Seq<Seq<u8>> {
        self.lines.deep_view()
    }
}

/// A copy of `bytes`.
pub fn clone_bytes(bytes: &Vec<u8>) -> (copy: Vec<u8>)
    ensures
        copy@ == bytes@,
{
    let mut copy: Vec<u8> = Vec::new();
    let mut i: usize = 0;
    while i < bytes.len()
        invariant
            i <= bytes.len(),
            copy@ == bytes@.take(i as int),
        decreases bytes.len() - i,
    {
        copy.push(bytes[i]);
        assert(copy@ =~= bytes@.take(i + 1));
        i += 1;
    }
    assert(bytes@.take(bytes.len() as int) =~= bytes@);
    copy
}

impl Raw {
    /// A header value of the given lines.
    pub fn new(lines: Vec<Vec<u8>>) -> (raw: Raw)
        ensures
            raw@ == lines.deep_view(),
    {
        Raw { lines }
    }

    /// The number of lines.
    pub fn len(&self) -> (n: usize)
        ensures
            n == self@.len(),
    {
        self.lines.len()
    }

    /// The `i`-th line.
    pub fn line(&self, i: usize) -> (line: &Vec<u8>)
        requires
            i < self@.len(),
        ensures
            line@ == self@[i as int],
    {
        &self.lines[i]
    }
}

impl Clone for Raw {
    fn clone(&self) -> (copy: Raw)
        ensures
            copy@ == self@,
    {
        let mut lines: Vec<Vec<u8>> = Vec::new();
        let mut i: usize = 0;
        while i < self.lines.len()
            invariant
                i <= self.lines.len(),
                lines.deep_view() == self@.take(i as int),
            decreases self.lines.len() - i,
        {
            let ghost before = lines.deep_view();
            lines.push(clone_bytes(&self.lines[i]));
            assert(lines.deep_view() =~= before.push(self@[i as int]));
            assert(self@.take(i + 1) =~= self@.take(i as int).push(self@[i as int]));
            i += 1;
        }
        assert(self@.take(self.lines.len() as int) =~= self@);
        Raw { lines }
    }
}

/// A copy of an optional header value.
pub fn clone_raw(raw: &Option<Raw>) -> (copy: Option<Raw>)
    ensures
        copy.deep_view() == raw.deep_view(),
{
    match raw {
        Some(r) => Some(r.clone()),
        None => None,
    }
}

impl DeepView for Raw {
    type V = Seq<Seq<u8>>;

    open spec fn deep_view(&self) -> Seq<Seq<u8>> {
        self@
    }
}

/// A planned request, as plain values.
pub ghost struct RequestView {
    pub method: Method,
    pub uri: UriView,
    pub set_cookie: Option<Seq<Seq<u8>>>,
    pub referer: Option<Seq<u8>>,
}

/// A request that the crawler has planned and a driver still has to send:
/// the target and the two headers that the procedures decide on.
#[derive(Debug)]
pub struct Request {
    pub method: Method,
    pub uri: Uri,
    /// The cookies to echo under `Set-Cookie`, if any.
    pub set_cookie: Option<Raw>,
    /// The line to send under `Referer`, if any.
    pub referer: Option<Vec<u8>>,
}

impl View for Request {
    type V = RequestView;

    open spec fn view(&self) -> RequestView {
        RequestView {
            method: self.method,
            uri: self.uri@,
            set_cookie: self.set_cookie.deep_view(),
            referer: self.referer.deep_view(),
        }
    }
}

impl DeepView for Request {
    type V = RequestView;

    open spec fn deep_view(&self) -> RequestView {
        self@
    }
}

impl Request {
    /// A request for `uri` that carries no headers.
    pub fn new(method: Method, uri: Uri) -> (request: Request)
        ensures
            request@ == (RequestView { method, uri: uri@, set_cookie: None, referer: None }),
    {
        Request { method, uri, set_cookie: None, referer: None }
    }

    /// The target of the request.
    pub fn uri(&self) -> (uri: &Uri)
        ensures
            uri@ == self@.uri,
    {
        &self.uri
    }
}

/// What the crawler reads of a response: two raw headers and the body.
#[derive(Debug)]
pub struct Response {
    /// The value of `Content-Type`, if the header was sent.
    pub content_type: Option<Raw>,
    /// The value of `Set-Cookie`, if the header was sent.
    pub set_cookie: Option<Raw>,
    pub body: Vec<u8>,
}

} // verus!
