//! What one matched document yields: the values captured under each label,
//! where the document came from, and how its links resolve against that.
//!
//! A relative link is appended as it stands behind the scheme, host and port
//! of the source URL, also where the link begins with `/` and the source URL
//! has a path of its own.

use crate::collections::StringMap;
use crate::http::{clone_raw, host_defined, uri_host, uri_parse, Raw, Uri, UriView};
use crate::text::{decimal, lowercase_of, push_char, push_decimal, str_eq, to_lowercase};
use vstd::prelude::*;

verus! {

/// The key under which a handler keeps a piece of extra information.
#[derive(Debug)]
pub enum ExtraInformKey {
    SourceUrl,
    Reserved(String),
}

/// The name of the key that holds the URL a document was fetched from.
pub open spec fn source_url_key() -> Seq<char> {
    seq!['S', 'o', 'u', 'r', 'c', 'e', 'U', 'r', 'l']
}

impl ExtraInformKey {
    /// The text under which the key is stored.
    pub open spec fn text(&self) -> Seq<char> {
        match self {
            ExtraInformKey::SourceUrl => source_url_key(),
            ExtraInformKey::Reserved(name) => name@,
        }
    }

    /// The key that `key` names: `SourceUrl` in any spelling of upper and
    /// lower case, else a reserved key of that very name.
    pub fn new(key: &str) -> (k: ExtraInformKey)
        ensures
            lowercase_of(key@) == lowercase_of(source_url_key()) ==> k is SourceUrl,
            lowercase_of(key@) != lowercase_of(source_url_key()) ==> k is Reserved && k.text()
                == key@,
    {
        proof {
            reveal_strlit("SourceUrl");
            assert("SourceUrl"@ =~= source_url_key());
        }
        let lower = to_lowercase(key);
        let wanted = to_lowercase("SourceUrl");
        if str_eq(lower.as_str(), wanted.as_str()) {
            ExtraInformKey::SourceUrl
        } else {
            ExtraInformKey::Reserved(key.to_owned())
        }
    }

    /// The text under which the key is stored.
    pub fn to_string(&self) -> (s: String)
        ensures
            s@ == self.text(),
    {
        match self {
            ExtraInformKey::SourceUrl => {
                proof {
                    reveal_strlit("SourceUrl");
                    assert("SourceUrl"@ =~= source_url_key());
                }
                "SourceUrl".to_owned()
            },
            ExtraInformKey::Reserved(name) => name.clone(),
        }
    }
}

impl core::str::FromStr for ExtraInformKey {
    type Err = String;

    /// Reads a key; every text names one.
    fn from_str(key: &str) -> (r: Result<ExtraInformKey, String>)
        ensures
            r is Ok,
            lowercase_of(key@) == lowercase_of(source_url_key()) ==> r->Ok_0 is SourceUrl,
            lowercase_of(key@) != lowercase_of(source_url_key()) ==> r->Ok_0 is Reserved
                && r->Ok_0.text() == key@,
    {
        Ok(ExtraInformKey::new(key))
    }
}

/// The labels that the crawler itself gives a meaning to.
#[derive(Clone, Copy, Debug, PartialEq, Eq, Structural)]
pub enum ReservedLabel {
    /// Subdocuments handed to the next narrowing stage.
    Part,
    /// URLs of artifacts to download.
    Store,
    /// URLs that navigation collects.
    Collect,
    /// URLs of further pages.
    Link,
    /// The kind of a link; `next` says that more pages follow.
    Type,
}

pub open spec fn part_label() -> Seq<char> {
    seq!['p', 'a', 'r', 't']
}

pub open spec fn store_label() -> Seq<char> {
    seq!['s', 't', 'o', 'r', 'e']
}

pub open spec fn collect_label() -> Seq<char> {
    seq!['c', 'o', 'l', 'l', 'e', 'c', 't']
}

pub open spec fn link_label() -> Seq<char> {
    seq!['l', 'i', 'n', 'k']
}

pub open spec fn type_label() -> Seq<char> {
    seq!['t', 'y', 'p', 'e']
}

/// What is said of a text that names no reserved label.
pub open spec fn label_error() -> Seq<char> {
    seq![
        'R',
        'e',
        's',
        'e',
        'r',
        'v',
        'e',
        'd',
        'L',
        'a',
        'b',
        'e',
        'l',
        ' ',
        'e',
        'r',
        'r',
        'o',
        'r',
    ]
}

impl ReservedLabel {
    /// The name of the label, in lower case.
    pub open spec fn text(&self) -> Seq<char> {
        match self {
            ReservedLabel::Part => part_label(),
            ReservedLabel::Store => store_label(),
            ReservedLabel::Collect => collect_label(),
            ReservedLabel::Link => link_label(),
            ReservedLabel::Type => type_label(),
        }
    }

    /// The reserved label whose name is `lower`, if there is one.
    pub open spec fn named(lower: Seq<char>) -> Option<ReservedLabel> {
        if lower == part_label() {
            Some(ReservedLabel::Part)
        } else if lower == store_label() {
            Some(ReservedLabel::Store)
        } else if lower == collect_label() {
            Some(ReservedLabel::Collect)
        } else if lower == link_label() {
            Some(ReservedLabel::Link)
        } else if lower == type_label() {
            Some(ReservedLabel::Type)
        } else {
            None
        }
    }

    /// Reads a reserved label, whatever the case of its letters.
    pub fn parse(s: &str) -> (label: Option<ReservedLabel>)
        ensures
            label == Self::named(lowercase_of(s@)),
    {
        proof {
            reveal_strlit("part");
            reveal_strlit("store");
            reveal_strlit("collect");
            reveal_strlit("link");
            reveal_strlit("type");
            assert("part"@ =~= part_label());
            assert("store"@ =~= store_label());
            assert("collect"@ =~= collect_label());
            assert("link"@ =~= link_label());
            assert("type"@ =~= type_label());
        }
        let lowercase = to_lowercase(s);
        let lowercase = lowercase.as_str();
        if str_eq(lowercase, "part") {
            Some(ReservedLabel::Part)
        } else if str_eq(lowercase, "store") {
            Some(ReservedLabel::Store)
        } else if str_eq(lowercase, "collect") {
            Some(ReservedLabel::Collect)
        } else if str_eq(lowercase, "link") {
            Some(ReservedLabel::Link)
        } else if str_eq(lowercase, "type") {
            Some(ReservedLabel::Type)
        } else {
            None
        }
    }

    /// The name of the label, in lower case.
    pub fn to_string(&self) -> (s: String)
        ensures
            s@ == self.text(),
    {
        proof {
            reveal_strlit("part");
            reveal_strlit("store");
            reveal_strlit("collect");
            reveal_strlit("link");
            reveal_strlit("type");
            assert("part"@ =~= part_label());
            assert("store"@ =~= store_label());
            assert("collect"@ =~= collect_label());
            assert("link"@ =~= link_label());
            assert("type"@ =~= type_label());
        }
        match self {
            ReservedLabel::Part => "part".to_owned(),
            ReservedLabel::Store => "store".to_owned(),
            ReservedLabel::Collect => "collect".to_owned(),
            ReservedLabel::Link => "link".to_owned(),
            ReservedLabel::Type => "type".to_owned(),
        }
    }
}

impl core::str::FromStr for ReservedLabel {
    type Err = String;

    /// Reads a reserved label, whatever the case of its letters; any other
    /// text is an error.
    fn from_str(s: &str) -> (r: Result<ReservedLabel, String>)
        ensures
            r is Ok <==> Self::named(lowercase_of(s@)) is Some,
            r matches Ok(label) ==> Self::named(lowercase_of(s@)) == Some(label),
            r matches Err(message) ==> message@ == label_error(),
    {
        match ReservedLabel::parse(s) {
            Some(label) => Ok(label),
            None => {
                proof {
                    reveal_strlit("ReservedLabel error");
                    assert("ReservedLabel error"@ =~= label_error());
                }
                Err("ReservedLabel error".to_owned())
            },
        }
    }
}

/// `"{prefix?}{name}/{index}/"`: the directory that holds what request
/// number `index` of the rule `name` yields.
pub open spec fn abs_root_path(prefix: Option<Seq<char>>, name: Seq<char>, index: nat) -> Seq<
    char,
> {
    let head = match prefix {
        Some(p) => p,
        None => Seq::<char>::empty(),
    };
    head + name + seq!['/'] + decimal(index) + seq!['/']
}

/// The URL that a relative `link` stands for: scheme and host of the source,
/// the port of the link or else of the source where either has one, and the
/// link as it was written.
pub open spec fn joined_url(link_uri: UriView, source_uri: UriView, link: Seq<char>) -> Seq<char> {
    let scheme = source_uri.scheme->0;
    let host = match uri_host(link_uri.source) {
        Some(h) => h,
        None => uri_host(source_uri.source)->0,
    };
    let port = match link_uri.port {
        Some(p) => seq![':'] + decimal(p as nat),
        None => match source_uri.port {
            Some(p) => seq![':'] + decimal(p as nat),
            None => Seq::<char>::empty(),
        },
    };
    scheme + seq![':', '/', '/'] + host + port + link
}

/// Whether a relative link, parsed to `link_uri`, can be joined to the
/// source: the source is an absolute URL, and a host can be read from the
/// link or else from the source.
pub open spec fn joinable(link_uri: UriView, source_uri: UriView) -> bool {
    &&& source_uri.scheme is Some
    &&& host_defined(link_uri.authority)
    &&& link_uri.authority is None ==> host_defined(source_uri.authority)
        && source_uri.authority is Some
}

/// The values of a handler.
pub ghost struct ResultHandlerView {
    pub root_path: Option<Seq<char>>,
    pub raw_cookies: Option<Seq<Seq<u8>>>,
    /// The labels that have results, in the order in which they first came.
    pub labels: Seq<Seq<char>>,
    pub results: Map<Seq<char>, Seq<Seq<char>>>,
    pub extras: Map<Seq<char>, Seq<char>>,
}

impl ResultHandlerView {
    /// The values captured under `label`; none where the label has no entry.
    pub open spec fn values_of(self, label: Seq<char>) -> Seq<Seq<char>> {
        if self.results.contains_key(label) {
            self.results[label]
        } else {
            Seq::empty()
        }
    }

    /// Whether each link of `links` can be turned into a request target.
    pub open spec fn all_resolve(self, links: Seq<Seq<char>>) -> bool {
        forall|j: int| 0 <= j < links.len() ==> self.can_resolve(#[trigger] links[j])
    }

    /// Whether `link` can be turned into a request target: it parses, and
    /// where it is relative, the handler knows an absolute source URL to which
    /// it can be joined, and the joined text parses too.
    pub open spec fn can_resolve(self, link: Seq<char>) -> bool {
        match uri_parse(link) {
            None => false,
            Some(l) => l.scheme is Some || {
                &&& self.extras.contains_key(source_url_key())
                &&& uri_parse(self.extras[source_url_key()]) matches Some(src)
                &&& joinable(l, src)
                &&& uri_parse(joined_url(l, src, link)) is Some
            },
        }
    }

    /// The request target that `link` stands for.
    pub open spec fn resolve(self, link: Seq<char>) -> UriView
        recommends
            self.can_resolve(link),
    {
        let l = uri_parse(link)->0;
        if l.scheme is Some {
            l
        } else {
            let src = uri_parse(self.extras[source_url_key()])->0;
            uri_parse(joined_url(l, src, link))->0
        }
    }
}

/// An absolute link stands for itself, whatever the handler knows of its
/// source.
pub proof fn lemma_absolute_link_is_kept(h: ResultHandlerView, link: Seq<char>)
    requires
        uri_parse(link) is Some,
        uri_parse(link)->0.scheme is Some,
    ensures
        h.can_resolve(link),
        h.resolve(link) == uri_parse(link)->0,
{
}

/// The captures of one matched document with what is known of its origin.
pub struct ResultHandler {
    root_path: Option<String>,
    raw_cookies: Option<Raw>,
    result_map: StringMap<Vec<String>>,
    extra_informs: StringMap<String>,
}

impl View for ResultHandler {
    type V = ResultHandlerView;

    closed spec fn view(&self) -> ResultHandlerView {
        ResultHandlerView {
            root_path: self.root_path.deep_view(),
            raw_cookies: self.raw_cookies.deep_view(),
            labels: self.result_map.spec_keys(),
            results: Map::new(
                |k: Seq<char>| self.result_map@.contains_key(k),
                |k: Seq<char>| self.result_map@[k].deep_view(),
            ),
            extras: Map::new(
                |k: Seq<char>| self.extra_informs@.contains_key(k),
                |k: Seq<char>| self.extra_informs@[k]@,
            ),
        }
    }
}

impl DeepView for ResultHandler {
    type V = ResultHandlerView;

    open spec fn deep_view(&self) -> ResultHandlerView {
        self@
    }
}

impl ResultHandler {
    /// A handler without results or extra information.
    pub fn new(root_path: Option<String>, raw_cookies: Option<Raw>) -> (handler: ResultHandler)
        ensures
            handler@ == (ResultHandlerView {
                root_path: root_path.deep_view(),
                raw_cookies: raw_cookies.deep_view(),
                labels: Seq::empty(),
                results: Map::empty(),
                extras: Map::empty(),
            }),
    {
        let handler = ResultHandler {
            root_path: root_path,
            raw_cookies: raw_cookies,
            result_map: StringMap::new(),
            extra_informs: StringMap::new(),
        };
        assert(handler@.results =~= Map::empty());
        assert(handler@.extras =~= Map::empty());
        handler
    }

    pub fn get_root_path(&self) -> (path: Option<&String>)
        ensures
            path.deep_view() == self@.root_path,
    {
        self.root_path.as_ref()
    }

    /// Stores `value` under `key`, in place of what was there.
    pub fn insert_extra_inform(&mut self, key: ExtraInformKey, value: String)
        ensures
            final(self)@ == (ResultHandlerView {
                extras: old(self)@.extras.insert(key.text(), value@),
                ..old(self)@
            }),
    {
        let name = key.to_string();
        self.extra_informs.insert(name, value);
        assert(self@.extras =~= old(self)@.extras.insert(key.text(), value@));
    }

    pub fn get_extra_inform(&self, key: ExtraInformKey) -> (value: Option<&String>)
        ensures
            value matches Some(v) ==> self@.extras.contains_key(key.text()) && v@
                == self@.extras[key.text()],
            value is None ==> !self@.extras.contains_key(key.text()),
    {
        let name = key.to_string();
        self.extra_informs.get(name.as_str())
    }

    /// A copy of the cookies that came with the document.
    pub fn get_raw_cookies(&self) -> (cookies: Option<Raw>)
        ensures
            cookies.deep_view() == self@.raw_cookies,
    {
        clone_raw(&self.raw_cookies)
    }

    /// The labels that have results, in the order in which they first came.
    /// No label occurs twice.
    pub fn get_label_names(&self) -> (names: Vec<String>)
        ensures
            names.deep_view() == self@.labels,
            self@.labels.no_duplicates(),
            self@.labels.to_set() == self@.results.dom(),
    {
        let n = self.result_map.len();
        let mut label_names: Vec<String> = Vec::new();
        let mut i: usize = 0;
        while i < n
            invariant
                i <= n,
                n == self.result_map.spec_keys().len(),
                label_names.deep_view() == self.result_map.spec_keys().take(i as int),
            decreases n - i,
        {
            let ghost before = label_names.deep_view();
            label_names.push(self.result_map.key_at(i).clone());
            assert(label_names.deep_view() =~= before.push(self.result_map.spec_keys()[i as int]));
            assert(self.result_map.spec_keys().take(i + 1) =~= before.push(
                self.result_map.spec_keys()[i as int],
            ));
            i += 1;
        }
        assert(self.result_map.spec_keys().take(n as int) =~= self.result_map.spec_keys());
        assert(self@.results.dom() =~= self.result_map@.dom());
        label_names
    }

    /// The values captured under `label_name`, if the label has any entry.
    pub fn get_result(&self, label_name: &str) -> (values: Option<&Vec<String>>)
        ensures
            values matches Some(v) ==> self@.results.contains_key(label_name@) && v.deep_view()
                == self@.results[label_name@],
            values is None ==> !self@.results.contains_key(label_name@),
    {
        self.result_map.get(label_name)
    }

    /// Stores `value` under the label `key`, in place of what was there. A
    /// new label goes behind those that are there.
    pub fn insert_result(&mut self, key: &str, value: Vec<String>)
        ensures
            final(self)@ == (ResultHandlerView {
                labels: if old(self)@.results.contains_key(key@) {
                    old(self)@.labels
                } else {
                    old(self)@.labels.push(key@)
                },
                results: old(self)@.results.insert(key@, value.deep_view()),
                ..old(self)@
            }),
    {
        self.result_map.insert(key.to_owned(), value);
        assert(self@.results =~= old(self)@.results.insert(key@, value.deep_view()));
    }

    /// `"{abs_path?}{name}/{req_index}/"`.
    pub fn get_abs_root_path(abs_path: Option<&String>, name: &str, req_index: usize) -> (path:
        String)
        ensures
            path@ == abs_root_path(abs_path.deep_view(), name@, req_index as nat),
    {
        let mut built_path = String::new();
        match abs_path {
            Some(path) => built_path.append(path.as_str()),
            None => {},
        }
        built_path.append(name);
        push_char(&mut built_path, '/');
        push_decimal(&mut built_path, req_index);
        push_char(&mut built_path, '/');
        assert(built_path@ =~= abs_root_path(abs_path.deep_view(), name@, req_index as nat));
        built_path
    }

    /// The text that joins a relative link to the source URL.
    fn join_with_source(link_uri: &Uri, source_uri: &Uri, link: &str) -> (url: String)
        requires
            joinable(link_uri@, source_uri@),
        ensures
            url@ == joined_url(link_uri@, source_uri@, link@),
    {
        let link_scheme = source_uri.scheme().unwrap();
        let link_host = match link_uri.host() {
            Some(host) => host,
            None => source_uri.host().unwrap(),
        };
        let mut requestable_url = String::new();
        requestable_url.append(link_scheme.as_str());
        push_char(&mut requestable_url, ':');
        push_char(&mut requestable_url, '/');
        push_char(&mut requestable_url, '/');
        requestable_url.append(link_host.as_str());
        let port = match link_uri.port() {
            Some(port) => Some(port),
            None => source_uri.port(),
        };
        match port {
            Some(link_port) => {
                push_char(&mut requestable_url, ':');
                push_decimal(&mut requestable_url, link_port as usize);
            },
            None => {},
        }
        requestable_url.append(link);
        assert(requestable_url@ =~= joined_url(link_uri@, source_uri@, link@));
        requestable_url
    }

    /// Whether `link` can be turned into a request target.
    pub fn can_make_requestable_uri(&self, link: &str) -> (ok: bool)
        ensures
            ok == self@.can_resolve(link@),
    {
        let link_uri = match Uri::parse(link) {
            Some(uri) => uri,
            None => {
                return false;
            },
        };
        if link_uri.is_absolute() {
            return true;
        }
        let source_url = match self.get_extra_inform(ExtraInformKey::SourceUrl) {
            Some(source_url) => source_url,
            None => {
                return false;
            },
        };
        let source_uri = match Uri::parse(source_url.as_str()) {
            Some(uri) => uri,
            None => {
                return false;
            },
        };
        if !source_uri.is_absolute() || !link_uri.host_is_defined() {
            return false;
        }
        if link_uri.authority().is_none() && (!source_uri.host_is_defined()
            || source_uri.authority().is_none()) {
            return false;
        }
        let url = Self::join_with_source(&link_uri, &source_uri, link);
        Uri::parse(url.as_str()).is_some()
    }

    /// Whether each link of `links` can be turned into a request target.
    pub fn can_resolve_all(&self, links: &Vec<String>) -> (ok: bool)
        ensures
            ok == self@.all_resolve(links.deep_view()),
    {
        let mut j: usize = 0;
        while j < links.len()
            invariant
                j <= links.len(),
                forall|k: int| 0 <= k < j ==> self@.can_resolve(#[trigger] links.deep_view()[k]),
            decreases links.len() - j,
        {
            if !self.can_make_requestable_uri(links[j].as_str()) {
                assert(!self@.can_resolve(links.deep_view()[j as int]));
                return false;
            }
            j += 1;
        }
        true
    }

    /// The request target that `link` stands for, where it stands for one.
    pub fn try_make_requestable_uri(&self, link: &str) -> (uri: Option<Uri>)
        ensures
            uri is Some <==> self@.can_resolve(link@),
            uri matches Some(u) ==> u@ == self@.resolve(link@),
    {
        if self.can_make_requestable_uri(link) {
            Some(self.make_requestable_uri(link))
        } else {
            None
        }
    }

    /// The request target that `link` stands for: the link itself where it is
    /// an absolute URL, else the link joined to the source URL.
    pub fn make_requestable_uri(&self, link: &str) -> (uri: Uri)
        requires
            self@.can_resolve(link@),
        ensures
            uri@ == self@.resolve(link@),
    {
        let link_uri = Uri::parse(link).unwrap();
        if link_uri.is_absolute() {
            return link_uri;
        }
        let source_url = self.get_extra_inform(ExtraInformKey::SourceUrl).unwrap();
        let source_uri = Uri::parse(source_url.as_str()).unwrap();
        let requestable_url = Self::join_with_source(&link_uri, &source_uri, link);
        Uri::parse(requestable_url.as_str()).unwrap()
    }
}

} // verus!
