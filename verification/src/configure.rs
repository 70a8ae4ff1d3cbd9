//! The rule engine and the settings of a run.
//!
//! Narrowing hands on only what the last document of a stage captured under
//! `part`: each document's captures replace those of the document before it.

use crate::http::{clone_raw, Raw};
use crate::pattern::{
    all_compile, captures_named, lemma_present_len, present, regex_captures, regex_compiles,
};
use crate::result::{part_label, source_url_key, ExtraInformKey, ResultHandler, ResultHandlerView};
use crate::text::{chars_of, contains_string, string_from};
use vstd::prelude::*;

verus! {

/// Why a rule file or a settings file could not be used.
#[derive(Debug)]
pub struct ConfigureError {
    msg: String,
}

impl ConfigureError {
    pub closed spec fn spec_msg(&self) -> Seq<char> {
        self.msg@
    }

    pub fn new(msg: &str) -> (error: ConfigureError)
        ensures
            error.spec_msg() == msg@,
    {
        ConfigureError { msg: msg.to_owned() }
    }

    pub fn msg(&self) -> (msg: &str)
        ensures
            msg@ == self.spec_msg(),
    {
        self.msg.as_str()
    }
}

/// What every kind of rule says about matching: the narrowing stages and the
/// pattern that extracts.
pub trait RuleConfigure {
    spec fn spec_parts(&self) -> Option<Seq<Seq<char>>>;

    spec fn spec_extract(&self) -> Option<Seq<char>>;

    fn parts(&self) -> (parts: Option<&Vec<String>>)
        ensures
            parts.deep_view() == self.spec_parts(),
    ;

    fn extract(&self) -> (extract: Option<&String>)
        ensures
            extract.deep_view() == self.spec_extract(),
    ;
}

/// The characters a label is made of: letters and the underscore.
pub open spec fn is_label_char(c: char) -> bool {
    ('a' <= c && c <= 'z') || ('A' <= c && c <= 'Z') || c == '_'
}

/// How many label characters stand in `s` from `from` on, without a gap.
pub open spec fn label_run(s: Seq<char>, from: int) -> nat
    decreases s.len() - from,
{
    if 0 <= from < s.len() && is_label_char(s[from]) {
        1 + label_run(s, from + 1)
    } else {
        0
    }
}

/// Whether a named group opens at `i`: `(?P<`, a name of at least one label
/// character, and `>`.
pub open spec fn opens_label(s: Seq<char>, i: int) -> bool {
    &&& 0 <= i
    &&& i + 4 < s.len()
    &&& s[i] == '('
    &&& s[i + 1] == '?'
    &&& s[i + 2] == 'P'
    &&& s[i + 3] == '<'
    &&& label_run(s, i + 4) > 0
    &&& i + 4 + label_run(s, i + 4) < s.len()
    &&& s[i + 4 + label_run(s, i + 4)] == '>'
}

/// The names of the groups that open in `s` at or after `i`, in order. The
/// search goes on behind the `>` of each group it finds.
pub open spec fn labels_from(s: Seq<char>, i: int) -> Seq<Seq<char>>
    decreases s.len() - i,
{
    if i < 0 || i >= s.len() {
        Seq::empty()
    } else if opens_label(s, i) {
        let n = label_run(s, i + 4);
        seq![s.subrange(i + 4, i + 4 + n)] + labels_from(s, i + 4 + n + 1)
    } else {
        labels_from(s, i + 1)
    }
}

/// `labels` without repeats: each label stands where it first occurs.
pub open spec fn distinct(labels: Seq<Seq<char>>) -> Seq<Seq<char>>
    decreases labels.len(),
{
    if labels.len() == 0 {
        Seq::empty()
    } else {
        let init = distinct(labels.drop_last());
        if init.contains(labels.last()) {
            init
        } else {
            init.push(labels.last())
        }
    }
}

/// What one narrowing stage hands on: what the last document captured under
/// `part`, or nothing where there is no document or the stage has no group of
/// that name.
pub open spec fn stage_output(docs: Seq<Seq<char>>, rule: Seq<char>) -> Seq<Seq<char>> {
    if docs.len() > 0 && labels_from(rule, 0).contains(part_label()) {
        present(regex_captures(rule, docs.last(), part_label()))
    } else {
        Seq::empty()
    }
}

/// The documents that are left after the stages `rules`, applied in order.
pub open spec fn narrowed(docs: Seq<Seq<char>>, rules: Seq<Seq<char>>) -> Seq<Seq<char>>
    decreases rules.len(),
{
    if rules.len() == 0 {
        docs
    } else {
        stage_output(narrowed(docs, rules.drop_last()), rules.last())
    }
}

/// The handler that `extract_rule` makes of one document: under each of the
/// rule's labels all that the group matched in the document, and the source
/// URL among the extras.
pub open spec fn extracted(
    doc: Seq<char>,
    extract_rule: Seq<char>,
    root_path: Option<Seq<char>>,
    source_url: Seq<char>,
    raw_cookies: Option<Seq<Seq<u8>>>,
) -> ResultHandlerView {
    let labels = labels_from(extract_rule, 0);
    ResultHandlerView {
        root_path,
        raw_cookies,
        labels: distinct(labels),
        results: Map::new(
            |k: Seq<char>| labels.contains(k),
            |k: Seq<char>| present(regex_captures(extract_rule, doc, k)),
        ),
        extras: Map::empty().insert(source_url_key(), source_url),
    }
}

/// Narrowing never multiplies documents: a stage hands on at most one
/// document for each match in the document it reads.
pub proof fn lemma_stage_narrows(docs: Seq<Seq<char>>, rule: Seq<char>)
    ensures
        docs.len() == 0 ==> stage_output(docs, rule).len() == 0,
        docs.len() > 0 ==> stage_output(docs, rule).len() <= regex_captures(
            rule,
            docs.last(),
            part_label(),
        ).len(),
{
    if docs.len() > 0 {
        lemma_present_len(regex_captures(rule, docs.last(), part_label()));
    }
}

/// `distinct` holds each label of `labels` once.
pub proof fn lemma_distinct(labels: Seq<Seq<char>>)
    ensures
        distinct(labels).no_duplicates(),
        forall|k: Seq<char>| distinct(labels).contains(k) <==> labels.contains(k),
    decreases labels.len(),
{
    if labels.len() > 0 {
        let init_labels = labels.drop_last();
        lemma_distinct(init_labels);
        let init = distinct(init_labels);
        let last = labels.last();
        assert forall|k: Seq<char>| distinct(labels).contains(k) <==> labels.contains(k) by {
            if labels.contains(k) {
                let i = choose|i: int| 0 <= i < labels.len() && labels[i] == k;
                if i < labels.len() - 1 {
                    assert(init_labels[i] == k);
                    assert(init_labels.contains(k));
                    assert(init.contains(k));
                    let j = choose|j: int| 0 <= j < init.len() && init[j] == k;
                    assert(distinct(labels)[j] == k);
                } else {
                    if init.contains(last) {
                    } else {
                        assert(distinct(labels)[init.len() as int] == k);
                    }
                }
            }
            if distinct(labels).contains(k) {
                let j = choose|j: int| 0 <= j < distinct(labels).len() && distinct(labels)[j] == k;
                if j < init.len() {
                    assert(init[j] == k);
                    assert(init.contains(k));
                    assert(init_labels.contains(k));
                    let i = choose|i: int| 0 <= i < init_labels.len() && init_labels[i] == k;
                    assert(labels[i] == k);
                } else {
                    assert(k == last);
                    assert(labels[labels.len() - 1] == k);
                }
            }
        }
    }
}

fn is_label(c: char) -> (b: bool)
    ensures
        b == is_label_char(c),
{
    (c >= 'a' && c <= 'z') || (c >= 'A' && c <= 'Z') || c == '_'
}

pub struct RuleUtils {}

impl RuleUtils {
    /// The names of the named groups `(?P<name>` of `pattern`, in the order
    /// in which they open.
    pub fn find_labels(pattern: &str) -> (labels: Vec<String>)
        ensures
            labels.deep_view() == labels_from(pattern@, 0),
    {
        let v = chars_of(pattern);
        let mut matched: Vec<String> = Vec::new();
        let mut i: usize = 0;
        assert(matched.deep_view() + labels_from(v@, 0) =~= labels_from(v@, 0));
        while i < v.len()
            invariant
                i <= v.len(),
                v@ == pattern@,
                matched.deep_view() + labels_from(v@, i as int) == labels_from(v@, 0),
            decreases v.len() - i,
        {
            let mut next: usize = i + 1;
            if v.len() - i > 4 && v[i] == '(' && v[i + 1] == '?' && v[i + 2] == 'P' && v[i + 3]
                == '<' {
                let start: usize = i + 4;
                let mut j: usize = start;
                while j < v.len() && is_label(v[j])
                    invariant
                        start <= j <= v.len(),
                        label_run(v@, start as int) == (j - start) + label_run(v@, j as int),
                    decreases v.len() - j,
                {
                    j += 1;
                }
                assert(label_run(v@, j as int) == 0);
                if j > start && j < v.len() && v[j] == '>' {
                    let ghost before = matched.deep_view();
                    let label = string_from(&v, start, j);
                    matched.push(label);
                    next = j + 1;
                    proof {
                        assert(opens_label(v@, i as int));
                        assert(matched.deep_view() =~= before.push(
                            v@.subrange(start as int, j as int),
                        ));
                        assert(before.push(v@.subrange(start as int, j as int)) + labels_from(
                            v@,
                            next as int,
                        ) =~= before + labels_from(v@, i as int));
                    }
                } else {
                    assert(!opens_label(v@, i as int));
                }
            } else {
                assert(!opens_label(v@, i as int));
            }
            i = next;
        }
        assert(matched.deep_view() + Seq::<Seq<char>>::empty() =~= matched.deep_view());
        matched
    }

    /// What the group `label_name` of `pattern` matched in `content`, match
    /// by match; a match in which the group took no part adds nothing.
    pub fn get_matched(content: &str, pattern: &str, label_name: &str) -> (matched: Vec<String>)
        requires
            regex_compiles(pattern@),
        ensures
            matched.deep_view() == present(regex_captures(pattern@, content@, label_name@)),
    {
        let found = captures_named(pattern, content, label_name);
        let mut matched: Vec<String> = Vec::new();
        let mut i: usize = 0;
        assert(found.deep_view().take(0) =~= Seq::empty());
        while i < found.len()
            invariant
                i <= found.len(),
                matched.deep_view() == present(found.deep_view().take(i as int)),
            decreases found.len() - i,
        {
            proof {
                let t = found.deep_view().take(i + 1);
                assert(t.drop_last() =~= found.deep_view().take(i as int));
                assert(t.last() == found.deep_view()[i as int]);
            }
            match &found[i] {
                Some(label) => {
                    let ghost before = matched.deep_view();
                    matched.push(label.clone());
                    assert(matched.deep_view() =~= before.push(label@));
                },
                None => {},
            }
            i += 1;
        }
        assert(found.deep_view().take(found.len() as int) =~= found.deep_view());
        matched
    }

    /// Narrows `content` stage by stage: each stage hands on what its
    /// pattern captured under `part`.
    pub fn make_part_contents(content: String, parts_rule: &Vec<String>) -> (part_contents: Vec<
        String,
    >)
        requires
            all_compile(parts_rule.deep_view()),
        ensures
            part_contents.deep_view() == narrowed(seq![content@], parts_rule.deep_view()),
    {
        let mut part_contents: Vec<String> = Vec::new();
        part_contents.push(content);
        assert(part_contents.deep_view() =~= seq![content@]);
        let ghost rules = parts_rule.deep_view();
        let mut k: usize = 0;
        assert(rules.take(0) =~= Seq::empty());
        while k < parts_rule.len()
            invariant
                k <= parts_rule.len(),
                rules == parts_rule.deep_view(),
                all_compile(rules),
                part_contents.deep_view() == narrowed(seq![content@], rules.take(k as int)),
            decreases parts_rule.len() - k,
        {
            let part_rule = &parts_rule[k];
            proof {
                let t = rules.take(k + 1);
                assert(t.drop_last() =~= rules.take(k as int));
                assert(t.last() == part_rule@);
                assert(regex_compiles(rules[k as int]));
            }
            let label_names = RuleUtils::find_labels(part_rule.as_str());
            let has_part = contains_string(&label_names, "part");
            let next = if part_contents.len() > 0 && has_part {
                let last = &part_contents[part_contents.len() - 1];
                assert(last@ == part_contents.deep_view().last());
                RuleUtils::get_matched(last.as_str(), part_rule.as_str(), "part")
            } else {
                Vec::new()
            };
            proof {
                reveal_strlit("part");
                assert("part"@ =~= part_label());
                assert(next.deep_view() =~= stage_output(part_contents.deep_view(), part_rule@));
            }
            part_contents = next;
            k += 1;
        }
        assert(rules.take(parts_rule.len() as int) =~= rules);
        part_contents
    }

    /// One handler for each document of `part_contents`, filled with what
    /// each group of `extract_rule` matched in the document.
    pub fn make_result_handlers(
        part_contents: Vec<String>,
        extract_rule: &String,
        root_path: Option<String>,
        source_url: String,
        raw_cookies: Option<Raw>,
    ) -> (handlers: Vec<ResultHandler>)
        requires
            regex_compiles(extract_rule@),
        ensures
            handlers.len() == part_contents.len(),
            forall|i: int|
                0 <= i < handlers.len() ==> (#[trigger] handlers[i])@ == extracted(
                    part_contents[i]@,
                    extract_rule@,
                    root_path.deep_view(),
                    source_url@,
                    raw_cookies.deep_view(),
                ),
    {
        let mut label_extract_vec: Vec<ResultHandler> = Vec::new();
        let label_names = RuleUtils::find_labels(extract_rule.as_str());
        let ghost labels = label_names.deep_view();
        let mut d: usize = 0;
        while d < part_contents.len()
            invariant
                d <= part_contents.len(),
                regex_compiles(extract_rule@),
                labels == label_names.deep_view(),
                labels == labels_from(extract_rule@, 0),
                label_extract_vec.len() == d,
                forall|i: int|
                    0 <= i < d ==> (#[trigger] label_extract_vec[i])@ == extracted(
                        part_contents[i]@,
                        extract_rule@,
                        root_path.deep_view(),
                        source_url@,
                        raw_cookies.deep_view(),
                    ),
            decreases part_contents.len() - d,
        {
            let part_content = &part_contents[d];
            let root = match &root_path {
                Some(path) => Some(path.clone()),
                None => None,
            };
            let mut result_handler = ResultHandler::new(root, clone_raw(&raw_cookies));
            let mut l: usize = 0;
            assert(labels.take(0) =~= Seq::empty());
            while l < label_names.len()
                invariant
                    l <= label_names.len(),
                    regex_compiles(extract_rule@),
                    labels == label_names.deep_view(),
                    result_handler@.root_path == root_path.deep_view(),
                    result_handler@.raw_cookies == raw_cookies.deep_view(),
                    result_handler@.extras == Map::<Seq<char>, Seq<char>>::empty(),
                    result_handler@.labels == distinct(labels.take(l as int)),
                    result_handler@.results == Map::new(
                        |k: Seq<char>| labels.take(l as int).contains(k),
                        |k: Seq<char>| present(regex_captures(extract_rule@, part_content@, k)),
                    ),
                decreases label_names.len() - l,
            {
                let label_name = &label_names[l];
                let extract_matched = RuleUtils::get_matched(
                    part_content.as_str(),
                    extract_rule.as_str(),
                    label_name.as_str(),
                );
                let ghost before = result_handler@;
                result_handler.insert_result(label_name.as_str(), extract_matched);
                proof {
                    let done = labels.take(l as int);
                    let now = labels.take(l + 1);
                    assert(now.drop_last() =~= done);
                    assert(now.last() == label_name@);
                    lemma_distinct(done);
                    assert(before.results.contains_key(label_name@) <==> done.contains(
                        label_name@,
                    ));
                    assert forall|k: Seq<char>| now.contains(k) <==> (done.contains(k) || k
                        == label_name@) by {
                        if done.contains(k) {
                            let i = choose|i: int| 0 <= i < done.len() && done[i] == k;
                            assert(now[i] == k);
                        }
                        if k == label_name@ {
                            assert(now[l as int] == k);
                        }
                        if now.contains(k) {
                            let i = choose|i: int| 0 <= i < now.len() && now[i] == k;
                            if i < l {
                                assert(done[i] == k);
                            }
                        }
                    }
                    assert(result_handler@.results =~= Map::new(
                        |k: Seq<char>| now.contains(k),
                        |k: Seq<char>| present(regex_captures(extract_rule@, part_content@, k)),
                    ));
                }
                l += 1;
            }
            assert(labels.take(label_names.len() as int) =~= labels);
            result_handler.insert_extra_inform(ExtraInformKey::SourceUrl, source_url.clone());
            assert(result_handler@ == extracted(
                part_content@,
                extract_rule@,
                root_path.deep_view(),
                source_url@,
                raw_cookies.deep_view(),
            ));
            label_extract_vec.push(result_handler);
            d += 1;
        }
        label_extract_vec
    }
}

/// Settings of the navigator. There are none yet.
#[derive(Clone, Copy, Debug)]
pub struct NavigatorConfigure {}

/// Settings of the extractor.
#[derive(Clone, Copy, Debug)]
pub struct ExtractorConfigure {
    connection_pool_size: Option<i64>,
}

impl ExtractorConfigure {
    pub closed spec fn spec_connection_pool_size(&self) -> Option<i64> {
        self.connection_pool_size
    }

    pub fn new(connection_pool_size: Option<i64>) -> (configure: ExtractorConfigure)
        ensures
            configure.spec_connection_pool_size() == connection_pool_size,
    {
        ExtractorConfigure { connection_pool_size }
    }

    /// How many connections the operator would like the pool to hold.
    pub fn get_connection_pool_size(&self) -> (size: Option<i64>)
        ensures
            size == self.spec_connection_pool_size(),
    {
        self.connection_pool_size
    }
}

/// Settings of result handling. There are none yet.
#[derive(Clone, Copy, Debug)]
pub struct ResultConfigure {}

/// The settings of a run, section by section.
#[derive(Debug)]
pub struct Configure {
    navigator: Option<NavigatorConfigure>,
    extractor: Option<ExtractorConfigure>,
    result: Option<ResultConfigure>,
}

impl Configure {
    pub closed spec fn spec_navigator(&self) -> Option<NavigatorConfigure> {
        self.navigator
    }

    pub closed spec fn spec_extractor(&self) -> Option<ExtractorConfigure> {
        self.extractor
    }

    pub closed spec fn spec_result(&self) -> Option<ResultConfigure> {
        self.result
    }

    /// The settings made of the sections that a settings file held.
    pub fn new(
        navigator: Option<NavigatorConfigure>,
        extractor: Option<ExtractorConfigure>,
        result: Option<ResultConfigure>,
    ) -> (configure: Configure)
        ensures
            configure.spec_navigator() == navigator,
            configure.spec_extractor() == extractor,
            configure.spec_result() == result,
    {
        Configure { navigator, extractor, result }
    }

    pub fn get_navigator_configure(&self) -> (section: Option<&NavigatorConfigure>)
        ensures
            section matches Some(s) ==> self.spec_navigator() == Some(*s),
            section is None ==> self.spec_navigator() is None,
    {
        self.navigator.as_ref()
    }

    pub fn get_extractor_configure(&self) -> (section: Option<&ExtractorConfigure>)
        ensures
            section matches Some(s) ==> self.spec_extractor() == Some(*s),
            section is None ==> self.spec_extractor() is None,
    {
        self.extractor.as_ref()
    }

    pub fn get_result_configure(&self) -> (section: Option<&ResultConfigure>)
        ensures
            section matches Some(s) ==> self.spec_result() == Some(*s),
            section is None ==> self.spec_result() is None,
    {
        self.result.as_ref()
    }
}

} // verus!
