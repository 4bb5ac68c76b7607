//! Platform and feature rules that gate libraries and arguments.
use vstd::prelude::*;

verus! {

/// What a matching rule decides.
#[derive(Clone, Copy, Debug, PartialEq, Eq, Structural)]
pub enum RuleAction {
    Allow,
    Disallow,
}

/// The operating-system condition of a rule; an absent field matches any host.
#[derive(Clone, Debug)]
pub struct Os {
    pub name: Option<String>,
    pub arch: Option<String>,
}

/// One rule: it applies when its OS condition and every feature condition hold.
#[derive(Clone, Debug)]
pub struct Rule {
    pub action: RuleAction,
    pub os: Option<Os>,
    pub features: Vec<(String, bool)>,
}

/// The host a rule list is evaluated for: OS name (`windows`, `osx`, `linux`),
/// architecture (`x86`, `x64`) and the feature flags that are set.
#[derive(Clone, Debug)]
pub struct RuleContext {
    pub os: String,
    pub arch: String,
    pub features: Vec<(String, bool)>,
}

/// The value of flag `k` in `fs`: the first entry for it, or false.
pub open spec fn flag_value(fs: Seq<(String, bool)>, k: Seq<char>) -> bool
    decreases fs.len(),
{
    if fs.len() == 0 {
        false
    } else if fs[0].0@ == k {
        fs[0].1
    } else {
        flag_value(fs.subrange(1, fs.len() as int), k)
    }
}

/// Whether the OS condition holds on the host.
pub open spec fn os_matches(os: Option<Os>, ctx: RuleContext) -> bool {
    match os {
        None => true,
        Some(o) => (o.name.is_none() || o.name.unwrap()@ == ctx.os@) && (o.arch.is_none()
            || o.arch.unwrap()@ == ctx.arch@),
    }
}

/// Whether every feature condition holds on the host.
pub open spec fn features_match(req: Seq<(String, bool)>, ctx: RuleContext) -> bool {
    forall|i: int| 0 <= i < req.len() ==> flag_value(ctx.features@, #[trigger] req[i].0@) == req[i].1
}

/// Whether the rule applies on the host.
pub open spec fn rule_matches(r: Rule, ctx: RuleContext) -> bool {
    os_matches(r.os, ctx) && features_match(r.features@, ctx)
}

/// The action of the last rule in the list that applies, if any does.
pub open spec fn last_match(rules: Seq<Rule>, ctx: RuleContext) -> Option<RuleAction>
    decreases rules.len(),
{
    if rules.len() == 0 {
        None
    } else if rule_matches(rules.last(), ctx) {
        Some(rules.last().action)
    } else {
        last_match(rules.drop_last(), ctx)
    }
}

/// A present rule list allows exactly when its last applying rule says allow.
pub open spec fn rules_allow(rules: Seq<Rule>, ctx: RuleContext) -> bool {
    last_match(rules, ctx) == Some(RuleAction::Allow)
}

/// An absent rule list allows; a present one as `rules_allow` says.
pub open spec fn gate_allows(rules: Option<Vec<Rule>>, ctx: RuleContext) -> bool {
    match rules {
        None => true,
        Some(v) => rules_allow(v@, ctx),
    }
}

fn same(a: &String, b: &String) -> (r: bool)
    ensures
        r == (a@ == b@),
{
    a.eq(b)
}

/// Looks up a feature flag; flags that are not listed are off.
pub fn flag_lookup(fs: &Vec<(String, bool)>, k: &String) -> (r: bool)
    ensures
        r == flag_value(fs@, k@),
{
    let mut i: usize = 0;
    assert(fs@.subrange(0, fs@.len() as int) =~= fs@);
    while i < fs.len()
        invariant
            i <= fs@.len(),
            flag_value(fs@, k@) == flag_value(fs@.subrange(i as int, fs@.len() as int), k@),
        decreases fs@.len() - i,
    {
        let ghost rest = fs@.subrange(i as int, fs@.len() as int);
        assert(rest[0] == fs@[i as int]);
        if same(&fs[i].0, k) {
            return fs[i].1;
        }
        assert(rest.subrange(1, rest.len() as int) =~= fs@.subrange(i + 1, fs@.len() as int));
        i += 1;
    }
    assert(fs@.subrange(i as int, fs@.len() as int).len() == 0);
    false
}

/// Whether one rule applies on the host.
pub fn rule_applies(r: &Rule, ctx: &RuleContext) -> (b: bool)
    ensures
        b == rule_matches(*r, *ctx),
{
    let os_ok = match &r.os {
        None => true,
        Some(o) => {
            let name_ok = match &o.name {
                None => true,
                Some(n) => same(n, &ctx.os),
            };
            let arch_ok = match &o.arch {
                None => true,
                Some(a) => same(a, &ctx.arch),
            };
            name_ok && arch_ok
        },
    };
    if !os_ok {
        return false;
    }
    let mut i: usize = 0;
    while i < r.features.len()
        invariant
            i <= r.features@.len(),
            forall|j: int|
                0 <= j < i ==> flag_value(ctx.features@, #[trigger] r.features@[j].0@)
                    == r.features@[j].1,
        decreases r.features@.len() - i,
    {
        if flag_lookup(&ctx.features, &r.features[i].0) != r.features[i].1 {
            return false;
        }
        i += 1;
    }
    true
}

/// Evaluates a rule list by last-match-wins: no list allows, and a list allows
/// only when the last rule that applies on the host says allow.
pub fn check_rules(rules: &Option<Vec<Rule>>, ctx: &RuleContext) -> (r: bool)
    ensures
        r == gate_allows(*rules, *ctx),
{
    match rules {
        None => true,
        Some(list) => {
            let mut allowed = false;
            let mut i: usize = 0;
            while i < list.len()
                invariant
                    i <= list@.len(),
                    allowed == rules_allow(list@.subrange(0, i as int), *ctx),
                decreases list@.len() - i,
            {
                let ghost next = list@.subrange(0, i + 1);
                assert(next.drop_last() =~= list@.subrange(0, i as int));
                if rule_applies(&list[i], ctx) {
                    allowed = list[i].action == RuleAction::Allow;
                }
                i += 1;
            }
            assert(list@.subrange(0, list@.len() as int) =~= list@);
            allowed
        },
    }
}

/// Last match wins: appending a rule that applies decides the list by that
/// rule's action alone, whatever came before it.
pub proof fn lemma_last_match_wins(rules: Seq<Rule>, r: Rule, ctx: RuleContext)
    requires
        rule_matches(r, ctx),
    ensures
        rules_allow(rules.push(r), ctx) == (r.action == RuleAction::Allow),
{
    assert(rules.push(r).last() == r);
}

/// A rule that does not apply on the host leaves the list's outcome unchanged.
pub proof fn lemma_unmatched_rule_ignored(rules: Seq<Rule>, r: Rule, ctx: RuleContext)
    requires
        !rule_matches(r, ctx),
    ensures
        rules_allow(rules.push(r), ctx) == rules_allow(rules, ctx),
{
    assert(rules.push(r).last() == r);
    assert(rules.push(r).drop_last() =~= rules);
}

} // verus!
