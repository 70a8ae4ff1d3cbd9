//! Rules that say what to fetch and what to store of it.

use crate::configure::RuleConfigure;
use crate::connector::navigator::navigation_rules::{check_patterns, patterns_usable};
use crate::connector::navigator::naver_webtoon_name;
use crate::text::{clone_opt_string, clone_opt_strings, str_eq};
use vstd::prelude::*;

verus! {

/// The extraction rules of a run.
pub struct ExtractionRules {
    extraction: Vec<UnitExtractionRule>,
}

impl View for ExtractionRules {
    type V = Seq<UnitExtractionRule>;

    closed spec fn view(&self) -> Seq<UnitExtractionRule> {
        self.extraction@
    }
}

impl ExtractionRules {
    /// The rules that a rule file held, in its order.
    pub fn new(extraction: Vec<UnitExtractionRule>) -> (rules: ExtractionRules)
        ensures
            rules@ == extraction@,
    {
        ExtractionRules { extraction }
    }

    pub fn extraction(&self) -> (extraction: &Vec<UnitExtractionRule>)
        ensures
            extraction@ == self@,
    {
        &self.extraction
    }
}

/// The procedures that can shape the requests for artifacts.
#[derive(Clone, Copy, Debug, PartialEq, Eq, Structural)]
pub enum ProcedureName {
    NaverWebtoon,
    /// No procedure of its own: the plain request.
    Default,
}

/// How the requests of a rule are shaped.
pub struct ProcedureRule {
    parts: Option<Vec<String>>,
    extract: Option<String>,
    pattern: Option<String>,
    pre_procedure: Option<String>,
    post_procedure: Option<String>,
}

pub ghost struct ProcedureRuleView {
    pub parts: Option<Seq<Seq<char>>>,
    pub extract: Option<Seq<char>>,
    pub pattern: Option<Seq<char>>,
    pub pre_procedure: Option<Seq<char>>,
    pub post_procedure: Option<Seq<char>>,
}

impl View for ProcedureRule {
    type V = ProcedureRuleView;

    closed spec fn view(&self) -> ProcedureRuleView {
        ProcedureRuleView {
            parts: self.parts.deep_view(),
            extract: self.extract.deep_view(),
            pattern: self.pattern.deep_view(),
            pre_procedure: self.pre_procedure.deep_view(),
            post_procedure: self.post_procedure.deep_view(),
        }
    }
}

impl DeepView for ProcedureRule {
    type V = ProcedureRuleView;

    open spec fn deep_view(&self) -> ProcedureRuleView {
        self@
    }
}

/// The procedure that `name` names; none where the name is not known.
pub open spec fn procedure_named(name: Seq<char>) -> ProcedureName {
    if name == naver_webtoon_name() {
        ProcedureName::NaverWebtoon
    } else {
        ProcedureName::Default
    }
}

impl ProcedureRule {
    pub fn new(
        parts: Option<Vec<String>>,
        extract: Option<String>,
        pattern: Option<String>,
        pre_procedure: Option<String>,
        post_procedure: Option<String>,
    ) -> (rule: ProcedureRule)
        ensures
            rule@ == (ProcedureRuleView {
                parts: parts.deep_view(),
                extract: extract.deep_view(),
                pattern: pattern.deep_view(),
                pre_procedure: pre_procedure.deep_view(),
                post_procedure: post_procedure.deep_view(),
            }),
    {
        ProcedureRule { parts, extract, pattern, pre_procedure, post_procedure }
    }

    pub fn pattern(&self) -> (pattern: Option<&String>)
        ensures
            pattern.deep_view() == self@.pattern,
    {
        self.pattern.as_ref()
    }

    pub fn pre_procedure(&self) -> (name: Option<&String>)
        ensures
            name.deep_view() == self@.pre_procedure,
    {
        self.pre_procedure.as_ref()
    }

    pub fn post_procedure(&self) -> (name: Option<&String>)
        ensures
            name.deep_view() == self@.post_procedure,
    {
        self.post_procedure.as_ref()
    }

    /// The procedure that `name` names, by exact match.
    pub fn procedure_name(name: &str) -> (procedure_name: ProcedureName)
        ensures
            procedure_name == procedure_named(name@),
    {
        proof {
            reveal_strlit("naver-webtoon");
            assert("naver-webtoon"@ =~= naver_webtoon_name());
        }
        if str_eq(name, "naver-webtoon") {
            ProcedureName::NaverWebtoon
        } else {
            ProcedureName::Default
        }
    }
}

impl RuleConfigure for ProcedureRule {
    open spec fn spec_parts(&self) -> Option<Seq<Seq<char>>> {
        self@.parts
    }

    open spec fn spec_extract(&self) -> Option<Seq<char>> {
        self@.extract
    }

    fn parts(&self) -> (parts: Option<&Vec<String>>) {
        self.parts.as_ref()
    }

    fn extract(&self) -> (extract: Option<&String>) {
        self.extract.as_ref()
    }
}

impl Clone for ProcedureRule {
    fn clone(&self) -> (copy: Self)
        ensures
            copy@ == self@,
    {
        let parts = clone_opt_strings(self.parts());
        let extract = clone_opt_string(self.extract());
        let pattern = clone_opt_string(self.pattern());
        let pre_procedure = clone_opt_string(self.pre_procedure());
        let post_procedure = clone_opt_string(self.post_procedure());
        ProcedureRule {
            parts: parts,
            extract: extract,
            pattern: pattern,
            pre_procedure: pre_procedure,
            post_procedure: post_procedure,
        }
    }
}

/// One extraction rule.
pub struct UnitExtractionRule {
    name: String,
    links: Option<Vec<String>>,
    local_path: Option<String>,
    parts: Option<Vec<String>>,
    extract: Option<String>,
    procedure: Option<ProcedureRule>,
}

pub ghost struct UnitExtractionRuleView {
    pub name: Seq<char>,
    pub links: Option<Seq<Seq<char>>>,
    pub local_path: Option<Seq<char>>,
    pub parts: Option<Seq<Seq<char>>>,
    pub extract: Option<Seq<char>>,
    pub procedure: Option<ProcedureRuleView>,
}

impl UnitExtractionRuleView {
    /// Whether every pattern of the rule compiles.
    pub open spec fn usable(self) -> bool {
        patterns_usable(self.parts, self.extract)
    }

    /// The procedure that shapes the requests for artifacts: the one that
    /// the rule names to run after extraction, if it names one that is known.
    pub open spec fn post_procedure_name(self) -> ProcedureName {
        match self.procedure {
            Some(procedure) => match procedure.post_procedure {
                Some(name) => procedure_named(name),
                None => ProcedureName::Default,
            },
            None => ProcedureName::Default,
        }
    }
}

impl View for UnitExtractionRule {
    type V = UnitExtractionRuleView;

    closed spec fn view(&self) -> UnitExtractionRuleView {
        UnitExtractionRuleView {
            name: self.name@,
            links: self.links.deep_view(),
            local_path: self.local_path.deep_view(),
            parts: self.parts.deep_view(),
            extract: self.extract.deep_view(),
            procedure: self.procedure.deep_view(),
        }
    }
}

impl UnitExtractionRule {
    pub fn new(
        name: String,
        links: Option<Vec<String>>,
        local_path: Option<String>,
        parts: Option<Vec<String>>,
        extract: Option<String>,
        procedure: Option<ProcedureRule>,
    ) -> (rule: UnitExtractionRule)
        ensures
            rule@ == (UnitExtractionRuleView {
                name: name@,
                links: links.deep_view(),
                local_path: local_path.deep_view(),
                parts: parts.deep_view(),
                extract: extract.deep_view(),
                procedure: procedure.deep_view(),
            }),
    {
        UnitExtractionRule { name, links, local_path, parts, extract, procedure }
    }

    /// The name of the rule; it names the navigation that finds its links
    /// and the directory of what it stores.
    pub fn name(&self) -> (name: &String)
        ensures
            name@ == self@.name,
    {
        &self.name
    }

    /// The URLs to fetch, where the rule gives them itself.
    pub fn links(&self) -> (links: Option<&Vec<String>>)
        ensures
            links.deep_view() == self@.links,
    {
        self.links.as_ref()
    }

    /// The path in front of what the rule stores.
    pub fn local_path(&self) -> (path: Option<&String>)
        ensures
            path.deep_view() == self@.local_path,
    {
        self.local_path.as_ref()
    }

    pub fn procedure(&self) -> (procedure: Option<&ProcedureRule>)
        ensures
            procedure.deep_view() == self@.procedure,
    {
        self.procedure.as_ref()
    }

    /// Whether every pattern of the rule compiles.
    pub fn is_usable(&self) -> (ok: bool)
        ensures
            ok == self@.usable(),
    {
        check_patterns(self.parts(), self.extract())
    }
}

impl RuleConfigure for UnitExtractionRule {
    open spec fn spec_parts(&self) -> Option<Seq<Seq<char>>> {
        self@.parts
    }

    open spec fn spec_extract(&self) -> Option<Seq<char>> {
        self@.extract
    }

    fn parts(&self) -> (parts: Option<&Vec<String>>) {
        self.parts.as_ref()
    }

    fn extract(&self) -> (extract: Option<&String>) {
        self.extract.as_ref()
    }
}

impl Clone for UnitExtractionRule {
    fn clone(&self) -> (copy: Self)
        ensures
            copy@ == self@,
    {
        let name = self.name.clone();
        let links = clone_opt_strings(self.links());
        let local_path = clone_opt_string(self.local_path());
        let parts = clone_opt_strings(self.parts());
        let extract = clone_opt_string(self.extract());
        let procedure = match self.procedure() {
            Some(ref_procedure) => Some(ref_procedure.clone()),
            None => None,
        };
        UnitExtractionRule {
            name: name,
            links: links,
            local_path: local_path,
            parts: parts,
            extract: extract,
            procedure: procedure,
        }
    }
}

} // verus!
