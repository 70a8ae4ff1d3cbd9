//! Query strings, and URLs put together from their parts.
//!
//! A query is held as its `key=value` pairs in the order in which the keys
//! first came; a key that comes again keeps its place and takes the new value.

use crate::collections::{lemma_position_of, position_of, StringMap};
use crate::http::{uri_parse, Uri, UriView};
use crate::text::{joined, lemma_join_split, push_char, split, split_char};
use vstd::prelude::*;

verus! {

/// The pairs of a map, in the order of its keys.
pub open spec fn entries(m: &StringMap<String>) -> Seq<(Seq<char>, Seq<char>)> {
    Seq::new(m.spec_keys().len(), |i: int| (m.spec_keys()[i], m.spec_values()[i]@))
}

/// The keys of `e`, in order.
pub open spec fn keys_of(e: Seq<(Seq<char>, Seq<char>)>) -> Seq<Seq<char>> {
    Seq::new(e.len(), |i: int| e[i].0)
}

/// `e` with `key` bound to `value`: in place where the key is there, else at
/// the end.
pub open spec fn put(e: Seq<(Seq<char>, Seq<char>)>, key: Seq<char>, value: Seq<char>) -> Seq<
    (Seq<char>, Seq<char>),
> {
    let at = position_of(keys_of(e), key);
    if at < e.len() {
        e.update(at, (key, value))
    } else {
        e.push((key, value))
    }
}

/// `e` with the pairs of `more` put in, one after the other.
pub open spec fn put_all(e: Seq<(Seq<char>, Seq<char>)>, more: Seq<(Seq<char>, Seq<char>)>) -> Seq<
    (Seq<char>, Seq<char>),
>
    decreases more.len(),
{
    if more.len() == 0 {
        e
    } else {
        put(put_all(e, more.drop_last()), more.last().0, more.last().1)
    }
}

/// The value that `e` holds for `key`, if any.
pub open spec fn value_in(e: Seq<(Seq<char>, Seq<char>)>, key: Seq<char>) -> Option<Seq<char>> {
    let at = position_of(keys_of(e), key);
    if at < e.len() {
        Some(e[at].1)
    } else {
        None
    }
}

/// Whether a piece of a query holds a `=`, and so a key and a value.
pub open spec fn has_pair(segment: Seq<char>) -> bool {
    split(segment, '=').len() >= 2
}

/// Key and value of a piece of a query: what stands before the first `=`, and
/// what stands between it and the next.
pub open spec fn pair_of(segment: Seq<char>) -> (Seq<char>, Seq<char>) {
    (split(segment, '=')[0], split(segment, '=')[1])
}

/// Whether every piece of the query between two `&` holds a `=`.
pub open spec fn well_formed_query(raw: Seq<char>) -> bool {
    forall|i: int| 0 <= i < split(raw, '&').len() ==> has_pair(#[trigger] split(raw, '&')[i])
}

/// The pairs that the pieces of `segments` name, in order.
pub open spec fn pairs_of(segments: Seq<Seq<char>>) -> Seq<(Seq<char>, Seq<char>)> {
    Seq::new(segments.len(), |i: int| pair_of(segments[i]))
}

/// The pairs of a raw query.
pub open spec fn query_entries(raw: Seq<char>) -> Seq<(Seq<char>, Seq<char>)> {
    put_all(Seq::empty(), pairs_of(split(raw, '&')))
}

/// The raw query that holds the pairs of `e`: `key=value`, joined by `&`.
pub open spec fn raw_query_of(e: Seq<(Seq<char>, Seq<char>)>) -> Seq<char>
    decreases e.len(),
{
    if e.len() == 0 {
        Seq::empty()
    } else {
        let last = e.last().0 + seq!['='] + e.last().1;
        if e.len() == 1 {
            last
        } else {
            raw_query_of(e.drop_last()) + seq!['&'] + last
        }
    }
}

/// The text of a URL with the given parts: `scheme://`, the authority, the
/// path, `?query` and `#fragment`, each only where it is there.
pub open spec fn uri_text(
    scheme: Option<Seq<char>>,
    authority: Option<Seq<char>>,
    path: Seq<char>,
    query: Option<Seq<char>>,
    fragment: Option<Seq<char>>,
) -> Seq<char> {
    let s = match scheme {
        Some(scheme) => scheme + seq![':', '/', '/'],
        None => Seq::empty(),
    };
    let a = match authority {
        Some(authority) => authority,
        None => Seq::empty(),
    };
    let q = match query {
        Some(query) => seq!['?'] + query,
        None => Seq::empty(),
    };
    let f = match fragment {
        Some(fragment) => seq!['#'] + fragment,
        None => Seq::empty(),
    };
    s + a + path + q + f
}

/// The pairs of the query that a URL gets when `add` is put into it: those
/// that the URL had, with those of `add` put in.
pub open spec fn merged_query(org: UriView, add: Seq<(Seq<char>, Seq<char>)>) -> Seq<
    (Seq<char>, Seq<char>),
> {
    match org.query {
        Some(query) => put_all(query_entries(query), add),
        None => add,
    }
}

/// The text of `org` with the pairs of `add` put into its query. A fragment
/// is not kept.
pub open spec fn rebuilt_text(org: UriView, add: Seq<(Seq<char>, Seq<char>)>) -> Seq<char> {
    uri_text(org.scheme, org.authority, org.path, Some(raw_query_of(merged_query(org, add))), None)
}

/// Putting the pairs of a map into pairs, one by one in the order of their
/// keys, is `put_all` taken up to that key.
proof fn lemma_put_all_step(
    e: Seq<(Seq<char>, Seq<char>)>,
    more: Seq<(Seq<char>, Seq<char>)>,
    i: int,
)
    requires
        0 <= i < more.len(),
    ensures
        put_all(e, more.take(i + 1)) == put(put_all(e, more.take(i)), more[i].0, more[i].1),
{
    assert(more.take(i + 1).drop_last() =~= more.take(i));
}

/// Pairs whose keys all differ are kept as they are when they are put into
/// an empty query one after the other.
pub proof fn lemma_put_all_distinct(pairs: Seq<(Seq<char>, Seq<char>)>)
    requires
        forall|i: int, j: int|
            0 <= i < j < pairs.len() ==> (#[trigger] pairs[i]).0 != (#[trigger] pairs[j]).0,
    ensures
        put_all(Seq::empty(), pairs) == pairs,
    decreases pairs.len(),
{
    if pairs.len() > 0 {
        let init = pairs.drop_last();
        let last = pairs.last();
        assert forall|i: int, j: int| 0 <= i < j < init.len() implies (#[trigger] init[i]).0 != (
        #[trigger] init[j]).0 by {
            assert(init[i] == pairs[i]);
            assert(init[j] == pairs[j]);
        }
        lemma_put_all_distinct(init);
        lemma_position_of(keys_of(init), last.0);
        if keys_of(init).contains(last.0) {
            let i = choose|i: int| 0 <= i < keys_of(init).len() && keys_of(init)[i] == last.0;
            assert(pairs[i].0 == init[i].0);
            assert(pairs[pairs.len() - 1].0 == last.0);
        }
        assert(init.push(last) =~= pairs);
    }
}

/// The raw query of the pairs that pieces with one `=` each name is those
/// pieces, joined by `&`.
pub proof fn lemma_raw_query_of_pairs(segments: Seq<Seq<char>>)
    requires
        forall|i: int| 0 <= i < segments.len() ==> split(#[trigger] segments[i], '=').len() == 2,
    ensures
        raw_query_of(pairs_of(segments)) == joined(segments, '&'),
    decreases segments.len(),
{
    if segments.len() > 0 {
        let e = pairs_of(segments);
        let segment = segments.last();
        let pieces = split(segment, '=');
        lemma_join_split(segment, '=');
        assert(pieces.drop_last().len() == 1);
        assert(joined(pieces.drop_last(), '=') == pieces.drop_last()[0]);
        assert(joined(pieces, '=') =~= pieces[0] + seq!['='] + pieces[1]);
        assert(e.last() == pair_of(segment));
        assert(e.last().0 + seq!['='] + e.last().1 =~= segment);
        if segments.len() > 1 {
            assert(e.drop_last() =~= pairs_of(segments.drop_last()));
            lemma_raw_query_of_pairs(segments.drop_last());
        }
    }
}

/// A query whose pieces hold one `=` each and whose keys all differ is the
/// raw query of its own pairs.
pub proof fn lemma_query_round_trip(raw: Seq<char>)
    requires
        forall|i: int|
            0 <= i < split(raw, '&').len() ==> split(#[trigger] split(raw, '&')[i], '=').len()
                == 2,
        forall|i: int, j: int|
            0 <= i < j < split(raw, '&').len() ==> pair_of(#[trigger] split(raw, '&')[i]).0
                != pair_of(#[trigger] split(raw, '&')[j]).0,
    ensures
        well_formed_query(raw),
        raw_query_of(query_entries(raw)) == raw,
{
    let segments = split(raw, '&');
    let pairs = pairs_of(segments);
    assert forall|i: int, j: int| 0 <= i < j < pairs.len() implies (#[trigger] pairs[i]).0 != (
    #[trigger] pairs[j]).0 by {
        assert(pairs[i] == pair_of(segments[i]));
        assert(pairs[j] == pair_of(segments[j]));
    }
    lemma_put_all_distinct(pairs);
    lemma_raw_query_of_pairs(segments);
    lemma_join_split(raw, '&');
}

/// Binds `key` to `value` in `m`.
fn put_entry(m: &mut StringMap<String>, key: String, value: String)
    ensures
        entries(final(m)) == put(entries(old(m)), key@, value@),
{
    let ghost before = entries(m);
    proof {
        assert(keys_of(before) =~= m.spec_keys());
        m.lemma_value_at_key(key@);
        lemma_position_of(m.spec_keys(), key@);
    }
    let _ = m.len();
    m.insert(key, value);
    proof {
        assert(entries(m) =~= put(before, key@, value@));
    }
}

impl ConnectorUtils {
    /// The value of `key` in the query of `uri`, if the URL has a query and
    /// the query binds the key.
    pub fn get_query_value(uri: &Uri, key: &str) -> (value: Option<String>)
        requires
            uri@.query matches Some(query) ==> well_formed_query(query),
        ensures
            value.deep_view() == match uri@.query {
                Some(query) => value_in(query_entries(query), key@),
                None => None,
            },
    {
        let query = uri.query();
        let query = match query {
            Some(query) => query,
            None => return None,
        };
        let query_map = ConnectorUtils::make_query_map(query.as_str());
        proof {
            assert(keys_of(entries(&query_map)) =~= query_map.spec_keys());
            query_map.lemma_value_at_key(key@);
            lemma_position_of(query_map.spec_keys(), key@);
        }
        let _ = query_map.len();
        match query_map.get(key) {
            Some(value) => Some(value.clone()),
            None => None,
        }
    }

    /// Whether every piece of `raw_query` between two `&` holds a `=`.
    pub fn is_well_formed_query(raw_query: &str) -> (ok: bool)
        ensures
            ok == well_formed_query(raw_query@),
    {
        let parsed_query = split_char(raw_query, '&');
        let mut i: usize = 0;
        while i < parsed_query.len()
            invariant
                i <= parsed_query.len(),
                parsed_query.deep_view() == split(raw_query@, '&'),
                forall|j: int| 0 <= j < i ==> has_pair(#[trigger] split(raw_query@, '&')[j]),
            decreases parsed_query.len() - i,
        {
            let pair = split_char(parsed_query[i].as_str(), '=');
            assert(parsed_query[i as int]@ == parsed_query.deep_view()[i as int]);
            if pair.len() < 2 {
                assert(!has_pair(split(raw_query@, '&')[i as int]));
                return false;
            }
            i += 1;
        }
        true
    }

    /// The pairs of a raw query such as `a=1&b=2`.
    pub fn make_query_map(raw_query: &str) -> (query_map: StringMap<String>)
        requires
            well_formed_query(raw_query@),
        ensures
            entries(&query_map) == query_entries(raw_query@),
    {
        let mut query_map: StringMap<String> = StringMap::new();
        let parsed_query = split_char(raw_query, '&');
        let ghost segments = split(raw_query@, '&');
        let ghost pairs = pairs_of(segments);
        let mut i: usize = 0;
        assert(entries(&query_map) =~= Seq::empty());
        assert(pairs.take(0) =~= Seq::empty());
        while i < parsed_query.len()
            invariant
                i <= parsed_query.len(),
                segments == split(raw_query@, '&'),
                pairs == pairs_of(segments),
                parsed_query.deep_view() == segments,
                well_formed_query(raw_query@),
                entries(&query_map) == put_all(Seq::empty(), pairs.take(i as int)),
            decreases parsed_query.len() - i,
        {
            let pair = split_char(parsed_query[i].as_str(), '=');
            proof {
                assert(parsed_query[i as int]@ == segments[i as int]);
                assert(has_pair(split(raw_query@, '&')[i as int]));
                lemma_put_all_step(Seq::empty(), pairs, i as int);
            }
            put_entry(&mut query_map, pair[0].clone(), pair[1].clone());
            i += 1;
        }
        assert(pairs.take(parsed_query.len() as int) =~= pairs);
        query_map
    }

    /// `org_uri` with the pairs of `add_query` put into its query.
    pub fn rebuild_uri_for_adding_query(org_uri: &Uri, add_query: StringMap<String>) -> (uri: Uri)
        requires
            org_uri@.query matches Some(query) ==> well_formed_query(query),
            uri_parse(rebuilt_text(org_uri@, entries(&add_query))) is Some,
        ensures
            uri_parse(rebuilt_text(org_uri@, entries(&add_query))) == Some(uri@),
    {
        let rebuilt = ConnectorUtils::rebuilt_uri_text(org_uri, add_query);
        Uri::parse(rebuilt.as_str()).unwrap()
    }

    /// The text of `org_uri` with the pairs of `add_query` put into its query.
    pub fn rebuilt_uri_text(org_uri: &Uri, add_query: StringMap<String>) -> (text: String)
        requires
            org_uri@.query matches Some(query) ==> well_formed_query(query),
        ensures
            text@ == rebuilt_text(org_uri@, entries(&add_query)),
    {
        let scheme = org_uri.scheme();
        let authority = org_uri.authority();
        let path = org_uri.path();
        let org_query = org_uri.query();
        let query_map = match org_query {
            Some(org_query) => {
                let mut query_map = ConnectorUtils::make_query_map(org_query.as_str());
                let n = add_query.len();
                let ghost add = entries(&add_query);
                let ghost base = entries(&query_map);
                let mut i: usize = 0;
                assert(add.take(0) =~= Seq::empty());
                while i < n
                    invariant
                        i <= n,
                        n == add_query.spec_keys().len(),
                        n == add_query.spec_values().len(),
                        add == entries(&add_query),
                        entries(&query_map) == put_all(base, add.take(i as int)),
                    decreases n - i,
                {
                    proof {
                        lemma_put_all_step(base, add, i as int);
                    }
                    put_entry(
                        &mut query_map,
                        add_query.key_at(i).clone(),
                        add_query.value_at(i).clone(),
                    );
                    i += 1;
                }
                assert(add.take(n as int) =~= add);
                query_map
            },
            None => add_query,
        };
        let rebuilt_raw_query = ConnectorUtils::make_raw_query_from_map(query_map);
        let scheme = match scheme {
            Some(scheme) => Some(scheme.as_str()),
            None => None,
        };
        let authority = match authority {
            Some(authority) => Some(authority.as_str()),
            None => None,
        };
        ConnectorUtils::uri_text(scheme, authority, path, Some(rebuilt_raw_query.as_str()), None)
    }

    /// The raw query of the pairs of `query_map`: `key=value`, joined by `&`,
    /// in the order of the keys.
    pub fn make_raw_query_from_map(query_map: StringMap<String>) -> (raw_query: String)
        ensures
            raw_query@ == raw_query_of(entries(&query_map)),
    {
        let mut raw_query = String::new();
        let n = query_map.len();
        let ghost e = entries(&query_map);
        let mut i: usize = 0;
        assert(e.take(0) =~= Seq::empty());
        while i < n
            invariant
                i <= n,
                n == query_map.spec_keys().len(),
                n == query_map.spec_values().len(),
                e == entries(&query_map),
                raw_query@ == raw_query_of(e.take(i as int)),
            decreases n - i,
        {
            let ghost before = raw_query@;
            if i > 0 {
                push_char(&mut raw_query, '&');
            }
            raw_query.append(query_map.key_at(i).as_str());
            push_char(&mut raw_query, '=');
            raw_query.append(query_map.value_at(i).as_str());
            proof {
                let t = e.take(i + 1);
                assert(t.drop_last() =~= e.take(i as int));
                assert(t.last() == e[i as int]);
                let last = t.last().0 + seq!['='] + t.last().1;
                if i > 0 {
                    assert(raw_query@ =~= before + seq!['&'] + last);
                } else {
                    assert(raw_query@ =~= last);
                }
            }
            i += 1;
        }
        assert(e.take(n as int) =~= e);
        raw_query
    }

    /// The text of a URL with the given parts.
    pub fn uri_text(
        scheme: Option<&str>,
        authority: Option<&str>,
        path: &str,
        query: Option<&str>,
        fragment: Option<&str>,
    ) -> (text: String)
        ensures
            text@ == uri_text(
                scheme.deep_view(),
                authority.deep_view(),
                path@,
                query.deep_view(),
                fragment.deep_view(),
            ),
    {
        let mut built_uri = String::new();
        match scheme {
            Some(scheme) => {
                built_uri.append(scheme);
                push_char(&mut built_uri, ':');
                push_char(&mut built_uri, '/');
                push_char(&mut built_uri, '/');
            },
            None => {},
        }
        match authority {
            Some(authority) => {
                built_uri.append(authority);
            },
            None => {},
        }
        built_uri.append(path);
        match query {
            Some(query) => {
                push_char(&mut built_uri, '?');
                built_uri.append(query);
            },
            None => {},
        }
        match fragment {
            Some(fragment) => {
                push_char(&mut built_uri, '#');
                built_uri.append(fragment);
            },
            None => {},
        }
        assert(built_uri@ =~= uri_text(
            scheme.deep_view(),
            authority.deep_view(),
            path@,
            query.deep_view(),
            fragment.deep_view(),
        ));
        built_uri
    }

    /// The URL with the given parts.
    pub fn build_uri(
        scheme: Option<&str>,
        authority: Option<&str>,
        path: &str,
        query: Option<&str>,
        fragment: Option<&str>,
    ) -> (uri: Uri)
        requires
            uri_parse(
                uri_text(
                    scheme.deep_view(),
                    authority.deep_view(),
                    path@,
                    query.deep_view(),
                    fragment.deep_view(),
                ),
            ) is Some,
        ensures
            uri_parse(
                uri_text(
                    scheme.deep_view(),
                    authority.deep_view(),
                    path@,
                    query.deep_view(),
                    fragment.deep_view(),
                ),
            ) == Some(uri@),
    {
        let built_uri = ConnectorUtils::uri_text(scheme, authority, path, query, fragment);
        Uri::parse(built_uri.as_str()).unwrap()
    }

    /// The URL with the given parts, where their text is one.
    pub fn try_build_uri(
        scheme: Option<&str>,
        authority: Option<&str>,
        path: &str,
        query: Option<&str>,
        fragment: Option<&str>,
    ) -> (uri: Option<Uri>)
        ensures
            uri is Some <==> uri_parse(
                uri_text(
                    scheme.deep_view(),
                    authority.deep_view(),
                    path@,
                    query.deep_view(),
                    fragment.deep_view(),
                ),
            ) is Some,
            uri matches Some(u) ==> uri_parse(
                uri_text(
                    scheme.deep_view(),
                    authority.deep_view(),
                    path@,
                    query.deep_view(),
                    fragment.deep_view(),
                ),
            ) == Some(u@),
    {
        let built_uri = ConnectorUtils::uri_text(scheme, authority, path, query, fragment);
        if Uri::parse(built_uri.as_str()).is_some() {
            Some(ConnectorUtils::build_uri(scheme, authority, path, query, fragment))
        } else {
            None
        }
    }
}

pub struct ConnectorUtils {}

} // verus!
