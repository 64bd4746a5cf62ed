//! Platform rule evaluation: default deny unless a matching rule allows
//! (or no rule is given), and a matching `disallow` always wins.

use vstd::prelude::*;
use crate::models::{Library, Rule};
use crate::platform::{os_key, OsKind, matches_os_name};
use crate::text::str_eq;

verus! {

/// Whether `r` applies on `os`: it names no OS, or names this one.
pub open spec fn rule_applies(r: Rule, os: OsKind) -> bool {
    match r.os {
        Some(o) => match o.name {
            Some(n) => n@ == os_key(os),
            None => true,
        },
        None => true,
    }
}

/// What `rules` decide on `os`.
pub open spec fn rules_allow_spec(rules: Seq<Rule>, os: OsKind) -> bool {
    &&& forall|i: int|
        0 <= i < rules.len() && rule_applies(#[trigger] rules[i], os) ==> rules[i].action@
            != "disallow"@
    &&& (rules.len() == 0 || exists|i: int|
        0 <= i < rules.len() && rule_applies(#[trigger] rules[i], os) && rules[i].action@
            == "allow"@)
}

/// Whether `r` applies on `os`.
pub fn rule_applies_exec(r: &Rule, os: OsKind) -> (b: bool)
    ensures
        b == rule_applies(*r, os),
{
    match &r.os {
        Some(o) => match &o.name {
            Some(n) => matches_os_name(n.as_str(), os),
            None => true,
        },
        None => true,
    }
}

/// Evaluates `rules` in order on `os`.
pub fn rules_allow(rules: &[Rule], os: OsKind) -> (b: bool)
    ensures
        b == rules_allow_spec(rules@, os),
{
    let mut matched_allow = false;
    let mut i: usize = 0;
    while i < rules.len()
        invariant
            i <= rules.len(),
            forall|j: int|
                0 <= j < i && rule_applies(#[trigger] rules@[j], os) ==> rules@[j].action@
                    != "disallow"@,
            matched_allow == exists|j: int|
                0 <= j < i && rule_applies(#[trigger] rules@[j], os) && rules@[j].action@
                    == "allow"@,
        decreases rules.len() - i,
    {
        let r = &rules[i];
        if rule_applies_exec(r, os) {
            if str_eq(r.action.as_str(), "disallow") {
                return false;
            }
            if str_eq(r.action.as_str(), "allow") {
                matched_allow = true;
            }
        }
        i += 1;
    }
    matched_allow || rules.len() == 0
}

/// Whether a library applies on `os` by its own rules.
pub fn library_rules_allow(lib: &Library, os: OsKind) -> (b: bool)
    ensures
        b == rules_allow_spec(lib.rules@, os),
{
    rules_allow(lib.rules.as_slice(), os)
}

/// An empty rule list allows.
pub proof fn lemma_no_rules_allow(rules: Seq<Rule>, os: OsKind)
    requires
        rules.len() == 0,
    ensures
        rules_allow_spec(rules, os),
{
}

/// A `disallow` rule that applies on `os` denies, wherever it stands in
/// the list and whatever the other rules say.
pub proof fn lemma_matching_disallow_denies(rules: Seq<Rule>, os: OsKind, i: int)
    requires
        0 <= i < rules.len(),
        rule_applies(rules[i], os),
        rules[i].action@ == "disallow"@,
    ensures
        !rules_allow_spec(rules, os),
{
}

/// Whether the last rule that applies on `os` allows.
pub open spec fn last_match_allows(rules: Seq<Rule>, os: OsKind) -> bool
    decreases rules.len(),
{
    if rules.len() == 0 {
        false
    } else if rule_applies(rules.last(), os) {
        rules.last().action@ == "allow"@
    } else {
        last_match_allows(rules.drop_last(), os)
    }
}

/// The engine installer's library filter: no rules allow; otherwise the
/// last applicable rule decides, and none applicable denies.
pub open spec fn engine_rules_allow(rules: Seq<Rule>, os: OsKind) -> bool {
    rules.len() == 0 || last_match_allows(rules, os)
}

pub fn check_library_rules(lib: &Library, os: OsKind) -> (b: bool)
    ensures
        b == engine_rules_allow(lib.rules@, os),
{
    let rules = &lib.rules;
    if rules.len() == 0 {
        return true;
    }
    let mut allowed = false;
    let mut i: usize = 0;
    while i < rules.len()
        invariant
            i <= rules.len(),
            allowed == last_match_allows(rules@.subrange(0, i as int), os),
        decreases rules.len() - i,
    {
        proof {
            assert(rules@.subrange(0, i + 1).drop_last() =~= rules@.subrange(0, i as int));
        }
        if rule_applies_exec(&rules[i], os) {
            allowed = str_eq(rules[i].action.as_str(), "allow");
        }
        i += 1;
    }
    proof {
        assert(rules@.subrange(0, rules@.len() as int) =~= rules@);
    }
    allowed
}

} // verus!
