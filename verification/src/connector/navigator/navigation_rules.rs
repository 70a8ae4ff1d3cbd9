//! Rules that say how to walk a site: where to enter, what to collect, and
//! how its pager is read.

use crate::configure::RuleConfigure;
use crate::pattern::{all_compile, compiles, patterns_compile, regex_compiles};
use crate::text::{clone_opt_string, clone_opt_strings};
use vstd::prelude::*;

verus! {

/// The navigation rules of a run.
pub struct NavigationRules {
    navigation: Vec<UnitNavigationRule>,
}

impl View for NavigationRules {
    type V = Seq<UnitNavigationRule>;

    closed spec fn view(&self) -> Seq<UnitNavigationRule> {
        self.navigation@
    }
}

impl NavigationRules {
    /// The rules that a rule file held, in its order.
    pub fn new(navigation: Vec<UnitNavigationRule>) -> (rules: NavigationRules)
        ensures
            rules@ == navigation@,
    {
        NavigationRules { navigation }
    }

    pub fn navigation(&self) -> (navigation: &Vec<UnitNavigationRule>)
        ensures
            navigation@ == self@,
    {
        &self.navigation
    }
}

/// The names of procedures that run before and after a request.
pub struct ProcedureRule {
    pre_procedure: Option<String>,
    post_procedure: Option<String>,
}

pub ghost struct ProcedureRuleView {
    pub pre_procedure: Option<Seq<char>>,
    pub post_procedure: Option<Seq<char>>,
}

impl View for ProcedureRule {
    type V = ProcedureRuleView;

    closed spec fn view(&self) -> ProcedureRuleView {
        ProcedureRuleView {
            pre_procedure: self.pre_procedure.deep_view(),
            post_procedure: self.post_procedure.deep_view(),
        }
    }
}

impl DeepView for ProcedureRule {
    type V = ProcedureRuleView;

    open spec fn deep_view(&self) -> ProcedureRuleView {
        self@
    }
}

impl ProcedureRule {
    pub fn new(pre_procedure: Option<String>, post_procedure: Option<String>) -> (rule:
        ProcedureRule)
        ensures
            rule@ == (ProcedureRuleView {
                pre_procedure: pre_procedure.deep_view(),
                post_procedure: post_procedure.deep_view(),
            }),
    {
        ProcedureRule { pre_procedure, post_procedure }
    }

    pub fn pre_procedure(&self) -> (name: Option<&String>)
        ensures
            name.deep_view() == self@.pre_procedure,
    {
        self.pre_procedure.as_ref()
    }

    pub fn post_procedure(&self) -> (name: Option<&String>)
        ensures
            name.deep_view() == self@.post_procedure,
    {
        self.post_procedure.as_ref()
    }
}

impl Clone for ProcedureRule {
    fn clone(&self) -> (copy: Self)
        ensures
            copy@ == self@,
    {
        let pre_procedure = clone_opt_string(self.pre_procedure());
        let post_procedure = clone_opt_string(self.post_procedure());
        ProcedureRule { pre_procedure: pre_procedure, post_procedure: post_procedure }
    }
}

/// How the pager of a site is read: which pager plug-in drives it, and the
/// patterns that find the links to further pages.
pub struct PagerRule {
    pager: String,
    parts: Option<Vec<String>>,
    extract: Option<String>,
}

pub ghost struct PagerRuleView {
    pub pager: Seq<char>,
    pub parts: Option<Seq<Seq<char>>>,
    pub extract: Option<Seq<char>>,
}

impl View for PagerRule {
    type V = PagerRuleView;

    closed spec fn view(&self) -> PagerRuleView {
        PagerRuleView {
            pager: self.pager@,
            parts: self.parts.deep_view(),
            extract: self.extract.deep_view(),
        }
    }
}

impl DeepView for PagerRule {
    type V = PagerRuleView;

    open spec fn deep_view(&self) -> PagerRuleView {
        self@
    }
}

/// Whether the patterns of a rule compile, as far as it has any.
pub open spec fn patterns_usable(parts: Option<Seq<Seq<char>>>, extract: Option<Seq<char>>) -> bool {
    &&& parts matches Some(stages) ==> all_compile(stages)
    &&& extract matches Some(pattern) ==> regex_compiles(pattern)
}

/// Whether the patterns of a rule compile, as far as it has any.
pub fn check_patterns(parts: Option<&Vec<String>>, extract: Option<&String>) -> (ok: bool)
    ensures
        ok == patterns_usable(parts.deep_view(), extract.deep_view()),
{
    let parts_ok = match parts {
        Some(stages) => patterns_compile(stages),
        None => true,
    };
    let extract_ok = match extract {
        Some(pattern) => compiles(pattern.as_str()),
        None => true,
    };
    parts_ok && extract_ok
}

impl PagerRule {
    pub fn new(pager: String, parts: Option<Vec<String>>, extract: Option<String>) -> (rule:
        PagerRule)
        ensures
            rule@ == (PagerRuleView {
                pager: pager@,
                parts: parts.deep_view(),
                extract: extract.deep_view(),
            }),
    {
        PagerRule { pager, parts, extract }
    }

    /// The name of the pager plug-in.
    pub fn pager(&self) -> (name: &String)
        ensures
            name@ == self@.pager,
    {
        &self.pager
    }
}

impl RuleConfigure for PagerRule {
    open spec fn spec_parts(&self) -> Option<Seq<Seq<char>>> {
        self@.parts
    }

    open spec fn spec_extract(&self) -> Option<Seq<char>> {
        self@.extract
    }

    fn parts(&self) -> (parts: Option<&Vec<String>>) {
        self.parts.as_ref()
    }

    fn extract(&self) -> (extract: Option<&String>) {
        self.extract.as_ref()
    }
}

impl Clone for PagerRule {
    fn clone(&self) -> (copy: Self)
        ensures
            copy@ == self@,
    {
        let pager = self.pager.clone();
        let parts = clone_opt_strings(self.parts());
        let extract = clone_opt_string(self.extract());
        PagerRule { pager: pager, parts: parts, extract: extract }
    }
}

/// One navigation rule.
pub struct UnitNavigationRule {
    name: String,
    entry: String,
    parts: Option<Vec<String>>,
    extract: Option<String>,
    procedure: Option<ProcedureRule>,
    pager: Option<PagerRule>,
}

pub ghost struct UnitNavigationRuleView {
    pub name: Seq<char>,
    pub entry: Seq<char>,
    pub parts: Option<Seq<Seq<char>>>,
    pub extract: Option<Seq<char>>,
    pub procedure: Option<ProcedureRuleView>,
    pub pager: Option<PagerRuleView>,
}

impl UnitNavigationRuleView {
    /// Whether every pattern of the rule and of its pager compiles.
    pub open spec fn usable(self) -> bool {
        &&& patterns_usable(self.parts, self.extract)
        &&& self.pager matches Some(pager) ==> patterns_usable(pager.parts, pager.extract)
    }
}

impl View for UnitNavigationRule {
    type V = UnitNavigationRuleView;

    closed spec fn view(&self) -> UnitNavigationRuleView {
        UnitNavigationRuleView {
            name: self.name@,
            entry: self.entry@,
            parts: self.parts.deep_view(),
            extract: self.extract.deep_view(),
            procedure: self.procedure.deep_view(),
            pager: self.pager.deep_view(),
        }
    }
}

impl UnitNavigationRule {
    pub fn new(
        name: String,
        entry: String,
        parts: Option<Vec<String>>,
        extract: Option<String>,
        procedure: Option<ProcedureRule>,
        pager: Option<PagerRule>,
    ) -> (rule: UnitNavigationRule)
        ensures
            rule@ == (UnitNavigationRuleView {
                name: name@,
                entry: entry@,
                parts: parts.deep_view(),
                extract: extract.deep_view(),
                procedure: procedure.deep_view(),
                pager: pager.deep_view(),
            }),
    {
        UnitNavigationRule { name, entry, parts, extract, procedure, pager }
    }

    /// The name of the rule, by which it is looked up.
    pub fn name(&self) -> (name: &String)
        ensures
            name@ == self@.name,
    {
        &self.name
    }

    /// The URL at which navigation sets out.
    pub fn entry(&self) -> (entry: &String)
        ensures
            entry@ == self@.entry,
    {
        &self.entry
    }

    pub fn procedure(&self) -> (procedure: Option<&ProcedureRule>)
        ensures
            procedure.deep_view() == self@.procedure,
    {
        self.procedure.as_ref()
    }

    pub fn pager(&self) -> (pager: Option<&PagerRule>)
        ensures
            pager.deep_view() == self@.pager,
    {
        self.pager.as_ref()
    }

    /// Whether every pattern of the rule and of its pager compiles.
    pub fn is_usable(&self) -> (ok: bool)
        ensures
            ok == self@.usable(),
    {
        let own = check_patterns(self.parts(), self.extract());
        let pager = match self.pager() {
            Some(pager) => check_patterns(pager.parts(), pager.extract()),
            None => true,
        };
        own && pager
    }
}

impl RuleConfigure for UnitNavigationRule {
    open spec fn spec_parts(&self) -> Option<Seq<Seq<char>>> {
        self@.parts
    }

    open spec fn spec_extract(&self) -> Option<Seq<char>> {
        self@.extract
    }

    fn parts(&self) -> (parts: Option<&Vec<String>>) {
        self.parts.as_ref()
    }

    fn extract(&self) -> (extract: Option<&String>) {
        self.extract.as_ref()
    }
}

impl Clone for UnitNavigationRule {
    fn clone(&self) -> (copy: Self)
        ensures
            copy@ == self@,
    {
        let name = self.name.clone();
        let entry = self.entry.clone();
        let parts = clone_opt_strings(self.parts());
        let extract = clone_opt_string(self.extract());
        let procedure = match self.procedure() {
            Some(ref_procedure) => Some(ref_procedure.clone()),
            None => None,
        };
        let pager = match self.pager() {
            Some(ref_pager) => Some(ref_pager.clone()),
            None => None,
        };
        UnitNavigationRule {
            name: name,
            entry: entry,
            parts: parts,
            extract: extract,
            procedure: procedure,
            pager: pager,
        }
    }
}

} // verus!
