//! The rule engine: condition trees evaluated against a fact bag, and the
//! additive score of a rule set.

use vstd::prelude::*;
use crate::decimal::{
    Decimal, NumView, Reading, num_gt, read_number, reading_greater_than, reading_gt, reading_wf, text_num,
};
use crate::json::{JsonValue, json_eq, json_equal, resolve_path};
use crate::text::{copy_opt, opt_text};
use crate::graph::IngestError;

verus! {

/// A condition over the fact bag. Paths are dot-separated keys.
#[derive(Debug)]
pub enum Cond {
    /// The value at the path equals the given value.
    Eq { eq: (String, JsonValue) },
    /// The value at the path, read as a number, exceeds the threshold.
    Gt { gt: (String, Decimal) },
    /// The value at the path is a string in which the pattern matches.
    Regex { regex: (String, String) },
    /// Every child holds.
    All { all: Vec<Cond> },
    /// Some child holds.
    Any { any: Vec<Cond> },
}

/// The tagged form of a condition, as rule documents may also write it.
#[derive(Debug)]
pub enum Op {
    Eq(String, JsonValue),
    Gt(String, Decimal),
    Regex(String, String),
    All(Vec<Cond>),
    Any(Vec<Cond>),
}

impl Op {
    /// The condition this tagged form stands for.
    pub fn into_cond(self) -> (r: Cond)
        ensures
            r == match self {
                Op::Eq(p, v) => Cond::Eq { eq: (p, v) },
                Op::Gt(p, t) => Cond::Gt { gt: (p, t) },
                Op::Regex(p, re) => Cond::Regex { regex: (p, re) },
                Op::All(cs) => Cond::All { all: cs },
                Op::Any(cs) => Cond::Any { any: cs },
            },
    {
        match self {
            Op::Eq(p, v) => Cond::Eq { eq: (p, v) },
            Op::Gt(p, t) => Cond::Gt { gt: (p, t) },
            Op::Regex(p, re) => Cond::Regex { regex: (p, re) },
            Op::All(cs) => Cond::All { all: cs },
            Op::Any(cs) => Cond::Any { any: cs },
        }
    }
}

#[derive(Debug)]
pub struct Rule {
    pub id: String,
    pub when: Cond,
    pub score: i64,
    pub desc: Option<String>,
}

#[derive(Debug)]
pub struct RuleSet {
    pub version: u32,
    pub default: i64,
    pub rules: Vec<Rule>,
}

/// The outcome of scoring: the total and, in declaration order, the id, score
/// and description of each rule that matched.
#[derive(Debug)]
pub struct ScoreBreakdown {
    pub total: i64,
    pub matched: Vec<(String, i64, Option<String>)>,
}

/// Whether the regex engine accepts `pattern`.
pub uninterp spec fn pattern_valid(pattern: Seq<char>) -> bool;

/// Whether the compiled `pattern` matches somewhere in `text`.
pub uninterp spec fn pattern_finds(pattern: Seq<char>, text: Seq<char>) -> bool;

/// Relies on `regex::Regex::new`, which succeeds exactly on the patterns it
/// accepts, and on `Regex::is_match`, which tells whether the pattern matches
/// anywhere in the text.
#[verifier::external_body]
fn regex_search(pattern: &str, text: &str) -> (r: Option<bool>)
    ensures
        r is Some <==> pattern_valid(pattern@),
        r matches Some(b) ==> b == pattern_finds(pattern@, text@),
{
    match regex::Regex::new(pattern) {
        Ok(re) => Some(re.is_match(text)),
        Err(_) => None,
    }
}

/// A regex condition holds when the pattern compiled and matched; a pattern
/// that does not compile makes it false.
pub fn regex_verdict(search: Option<bool>) -> (r: bool)
    ensures
        r == (search == Some(true)),
{
    match search {
        Some(found) => found,
        None => false,
    }
}

/// A value read as a number: numbers as they are, `true` as 1 and `false` as 0,
/// strings as Rust reads float text (so `"10"`, `"1e3"`, `"1."`, `".5"`,
/// `"1e-300"` and `"inf"` are numbers, `"nan"` and `"abc"` are not); nothing
/// for anything else. Comparisons are then exact in decimal.
pub open spec fn numeric_value(v: JsonValue) -> Option<NumView> {
    match v {
        JsonValue::Number(d) => Some(NumView::Dec(d)),
        JsonValue::Bool(b) => Some(NumView::Dec(Decimal { mantissa: if b { 1 } else { 0 }, scale: 0 })),
        JsonValue::Str(s) => text_num(s@),
        _ => None,
    }
}

pub open spec fn cond_holds(bag: JsonValue, c: Cond) -> bool
    decreases c,
{
    match c {
        Cond::Eq { eq } => match resolve_path(bag, eq.0@) {
            Some(v) => json_eq(v, eq.1),
            None => false,
        },
        Cond::Gt { gt } => match resolve_path(bag, gt.0@) {
            Some(v) => match numeric_value(v) {
                Some(n) => num_gt(n, gt.1),
                None => false,
            },
            None => false,
        },
        Cond::Regex { regex } => match resolve_path(bag, regex.0@) {
            Some(JsonValue::Str(s)) => pattern_valid(regex.1@) && pattern_finds(regex.1@, s@),
            _ => false,
        },
        Cond::All { all } => forall|i: int| 0 <= i < all.len() ==> cond_holds(bag, #[trigger] all[i]),
        Cond::Any { any } => exists|i: int| 0 <= i < any.len() && cond_holds(bag, #[trigger] any[i]),
    }
}

/// Reads a value as a number: a reading exactly when the value is a number,
/// and one that compares with every decimal as the value does.
pub fn as_number(v: &JsonValue) -> (r: Option<Reading>)
    ensures
        r is Some <==> numeric_value(*v) is Some,
        r matches Some(x) ==> reading_wf(x) && forall|t: Decimal| #[trigger]
            reading_gt(x, t) == num_gt(numeric_value(*v)->Some_0, t),
{
    match v {
        JsonValue::Number(d) => Some(Reading::Finite(*d)),
        JsonValue::Bool(b) => Some(Reading::Finite(Decimal { mantissa: if *b { 1 } else { 0 }, scale: 0 })),
        JsonValue::Str(s) => read_number(s.as_str()),
        _ => None,
    }
}

/// Evaluates a condition against the fact bag. A missing path or a value of the
/// wrong kind makes a leaf condition false.
pub fn matches_cond(bag: &JsonValue, c: &Cond) -> (r: bool)
    ensures
        r == cond_holds(*bag, *c),
    decreases c,
{
    match c {
        Cond::Eq { eq } => match bag.get_path(eq.0.as_str()) {
            Some(v) => json_equal(v, &eq.1),
            None => false,
        },
        Cond::Gt { gt } => match bag.get_path(gt.0.as_str()) {
            Some(v) => match as_number(v) {
                Some(n) => reading_greater_than(&n, gt.1),
                None => false,
            },
            None => false,
        },
        Cond::Regex { regex } => match bag.get_path(regex.0.as_str()) {
            Some(v) => match v {
                JsonValue::Str(s) => regex_verdict(regex_search(regex.1.as_str(), s.as_str())),
                _ => false,
            },
            None => false,
        },
        Cond::All { all } => {
            let mut i: usize = 0;
            while i < all.len()
                invariant
                    *c == (Cond::All { all: *all }),
                    i <= all@.len(),
                    forall|j: int| 0 <= j < i ==> cond_holds(*bag, #[trigger] all@[j]),
                decreases all.len() - i,
            {
                proof {
                    assert(decreases_to!(*c => (*c)->All_all));
                    assert(decreases_to!(*all => all[i as int]));
                }
                if !matches_cond(bag, &all[i]) {
                    return false;
                }
                i = i + 1;
            }
            true
        },
        Cond::Any { any } => {
            let mut i: usize = 0;
            while i < any.len()
                invariant
                    *c == (Cond::Any { any: *any }),
                    i <= any@.len(),
                    forall|j: int| 0 <= j < i ==> !cond_holds(*bag, #[trigger] any@[j]),
                decreases any.len() - i,
            {
                proof {
                    assert(decreases_to!(*c => (*c)->Any_any));
                    assert(decreases_to!(*any => any[i as int]));
                }
                if matches_cond(bag, &any[i]) {
                    return true;
                }
                i = i + 1;
            }
            false
        },
    }
}

/// The rules whose condition holds, in declaration order.
pub open spec fn matched_rules(bag: JsonValue, rs: Seq<Rule>) -> Seq<Rule>
    decreases rs.len(),
{
    if rs.len() == 0 {
        Seq::empty()
    } else {
        let m = matched_rules(bag, rs.drop_last());
        if cond_holds(bag, rs.last().when) {
            m.push(rs.last())
        } else {
            m
        }
    }
}

pub open spec fn score_sum(rs: Seq<Rule>) -> int
    decreases rs.len(),
{
    if rs.len() == 0 {
        0
    } else {
        score_sum(rs.drop_last()) + rs.last().score
    }
}

/// The sum of the positive rule scores.
pub open spec fn gain_sum(rs: Seq<Rule>) -> int
    decreases rs.len(),
{
    if rs.len() == 0 {
        0
    } else {
        gain_sum(rs.drop_last()) + if rs.last().score > 0 {
            rs.last().score as int
        } else {
            0
        }
    }
}

/// The sum of the negative rule scores.
pub open spec fn loss_sum(rs: Seq<Rule>) -> int
    decreases rs.len(),
{
    if rs.len() == 0 {
        0
    } else {
        loss_sum(rs.drop_last()) + if rs.last().score < 0 {
            rs.last().score as int
        } else {
            0
        }
    }
}

/// The default plus any choice of rule scores stays within `i64`: the highest
/// such sum (all positive scores) and the lowest (all negative ones) fit.
pub open spec fn scores_fit(set: RuleSet) -> bool {
    set.default + gain_sum(set.rules@) <= i64::MAX && set.default + loss_sum(set.rules@) >= i64::MIN
}

/// What the breakdown lists for a matched rule.
pub open spec fn rule_entry(r: Rule) -> (Seq<char>, i64, Option<Seq<char>>) {
    (r.id@, r.score, opt_text(r.desc))
}

pub open spec fn entry_view(e: (String, i64, Option<String>)) -> (Seq<char>, i64, Option<Seq<char>>) {
    (e.0@, e.1, opt_text(e.2))
}

proof fn lemma_matched_sum_bounded(bag: JsonValue, rs: Seq<Rule>)
    ensures
        loss_sum(rs) <= score_sum(matched_rules(bag, rs)) <= gain_sum(rs),
        loss_sum(rs) <= 0 <= gain_sum(rs),
    decreases rs.len(),
{
    if rs.len() > 0 {
        lemma_matched_sum_bounded(bag, rs.drop_last());
        let m = matched_rules(bag, rs.drop_last());
        if cond_holds(bag, rs.last().when) {
            assert(m.push(rs.last()).drop_last() =~= m);
        }
    }
}

proof fn lemma_sums_prefix(rs: Seq<Rule>, i: int)
    requires
        0 <= i <= rs.len(),
    ensures
        gain_sum(rs.subrange(0, i)) <= gain_sum(rs),
        loss_sum(rs.subrange(0, i)) >= loss_sum(rs),
    decreases rs.len(),
{
    if i == rs.len() {
        assert(rs.subrange(0, i) =~= rs);
    } else {
        assert(rs.drop_last().subrange(0, i) =~= rs.subrange(0, i));
        lemma_sums_prefix(rs.drop_last(), i);
    }
}

impl RuleSet {
    /// Whether every running total of a scoring stays within `i64`; a rule set
    /// that fails this is refused when the configuration is loaded.
    pub fn scores_fit(&self) -> (r: bool)
        ensures
            r == scores_fit(*self),
    {
        let hi_limit: i128 = i64::MAX as i128;
        let lo_limit: i128 = i64::MIN as i128;
        let mut hi: i128 = self.default as i128;
        let mut lo: i128 = self.default as i128;
        let mut i: usize = 0;
        proof {
            assert(self.rules@.subrange(0, 0) =~= Seq::<Rule>::empty());
        }
        while i < self.rules.len()
            invariant
                i <= self.rules@.len(),
                hi == self.default + gain_sum(self.rules@.subrange(0, i as int)),
                lo == self.default + loss_sum(self.rules@.subrange(0, i as int)),
                lo_limit <= lo <= hi <= hi_limit,
                hi_limit == i64::MAX,
                lo_limit == i64::MIN,
            decreases self.rules.len() - i,
        {
            let s = self.rules[i].score;
            proof {
                let pre = self.rules@.subrange(0, i as int + 1);
                assert(pre.drop_last() =~= self.rules@.subrange(0, i as int));
                lemma_sums_prefix(self.rules@, i as int + 1);
            }
            if s > 0 {
                hi = hi + s as i128;
            } else {
                lo = lo + s as i128;
            }
            if hi > hi_limit || lo < lo_limit {
                return false;
            }
            i = i + 1;
        }
        proof {
            assert(self.rules@.subrange(0, i as int) =~= self.rules@);
        }
        true
    }
}

/// Load-time check of a rule set: one for which some choice of matched rules
/// would overflow a running total is a configuration error, even if no bag
/// ever matches that choice.
pub fn validate_rule_set(rules: &RuleSet) -> (r: Result<(), IngestError>)
    ensures
        r is Ok <==> scores_fit(*rules),
        r matches Err(e) ==> e == IngestError::ConfigurationError,
{
    if rules.scores_fit() {
        Ok(())
    } else {
        Err(IngestError::ConfigurationError)
    }
}

/// Every running total of scoring this bag fits `i64`: the default plus the
/// scores of the rules matched among the first `i`, for each `i`.
pub open spec fn running_totals_fit(bag: JsonValue, set: RuleSet) -> bool {
    forall|i: int|
        0 <= i <= set.rules@.len() ==> i64::MIN <= set.default + score_sum(
            #[trigger] matched_rules(bag, set.rules@.subrange(0, i)),
        ) <= i64::MAX
}

/// A rule set that passes the load-time check scores every bag without
/// overflow. The check is stronger on purpose: it does not depend on the bag.
pub proof fn lemma_fit_rules_fit_every_bag(bag: JsonValue, set: RuleSet)
    requires
        scores_fit(set),
    ensures
        running_totals_fit(bag, set),
{
    assert forall|i: int| 0 <= i <= set.rules@.len() implies i64::MIN <= set.default + score_sum(
        #[trigger] matched_rules(bag, set.rules@.subrange(0, i)),
    ) <= i64::MAX by {
        lemma_matched_sum_bounded(bag, set.rules@.subrange(0, i));
        lemma_sums_prefix(set.rules@, i);
    }
}

/// Scores the bag: the default plus the score of every rule whose condition
/// holds, with those rules listed in declaration order.
pub fn eval_score(bag: &JsonValue, rules: &RuleSet) -> (r: ScoreBreakdown)
    requires
        running_totals_fit(*bag, *rules),
    ensures
        r.total == rules.default + score_sum(matched_rules(*bag, rules.rules@)),
        r.matched@.map_values(|e: (String, i64, Option<String>)| entry_view(e)) == matched_rules(
            *bag,
            rules.rules@,
        ).map_values(|x: Rule| rule_entry(x)),
{
    let mut total: i64 = rules.default;
    let mut matched: Vec<(String, i64, Option<String>)> = Vec::new();
    let mut i: usize = 0;
    proof {
        assert(rules.rules@.subrange(0, 0) =~= Seq::<Rule>::empty());
        assert(matched@.map_values(|e: (String, i64, Option<String>)| entry_view(e)) =~= Seq::<
            (Seq<char>, i64, Option<Seq<char>>),
        >::empty());
    }
    while i < rules.rules.len()
        invariant
            running_totals_fit(*bag, *rules),
            i <= rules.rules@.len(),
            total == rules.default + score_sum(
                matched_rules(*bag, rules.rules@.subrange(0, i as int)),
            ),
            matched@.map_values(|e: (String, i64, Option<String>)| entry_view(e)) == matched_rules(
                *bag,
                rules.rules@.subrange(0, i as int),
            ).map_values(|x: Rule| rule_entry(x)),
        decreases rules.rules.len() - i,
    {
        let r = &rules.rules[i];
        let ghost pre = rules.rules@.subrange(0, i as int + 1);
        let ghost m = matched_rules(*bag, rules.rules@.subrange(0, i as int));
        proof {
            assert(pre.drop_last() =~= rules.rules@.subrange(0, i as int));
            assert(pre.last() == *r);
        }
        if matches_cond(bag, &r.when) {
            proof {
                assert(i64::MIN <= rules.default + score_sum(matched_rules(*bag, pre)) <= i64::MAX);
                assert(m.push(*r).drop_last() =~= m);
                assert(score_sum(matched_rules(*bag, pre)) == score_sum(m) + r.score);
            }
            total = total + r.score;
            let ghost before = matched@;
            let entry = (r.id.clone(), r.score, copy_opt(&r.desc));
            assert(entry_view(entry) == rule_entry(*r));
            matched.push(entry);
            proof {
                assert(matched@ == before.push(entry));
                let lhs = matched@.map_values(|e: (String, i64, Option<String>)| entry_view(e));
                let old_l = before.map_values(|e: (String, i64, Option<String>)| entry_view(e));
                let old_r = m.map_values(|x: Rule| rule_entry(x));
                let rhs = m.push(*r).map_values(|x: Rule| rule_entry(x));
                assert(old_l == old_r);
                assert(old_l.len() == before.len());
                assert(old_r.len() == m.len());
                assert(lhs.len() == matched@.len());
                assert(rhs.len() == m.len() + 1);
                assert(lhs.len() == rhs.len());
                assert forall|j: int| 0 <= j < lhs.len() implies lhs[j] == rhs[j] by {
                    if j < before.len() {
                        assert(lhs[j] == old_l[j]);
                        assert(rhs[j] == old_r[j]);
                    }
                }
                assert(matched@.map_values(|e: (String, i64, Option<String>)| entry_view(e)) =~= m.push(
                    *r,
                ).map_values(|x: Rule| rule_entry(x)));
            }
        }
        i = i + 1;
    }
    proof {
        assert(rules.rules@.subrange(0, i as int) =~= rules.rules@);
    }
    ScoreBreakdown { total, matched }
}

/// An empty `All` holds and an empty `Any` does not, whatever the bag.
pub proof fn lemma_empty_all_any(bag: JsonValue, children: Vec<Cond>)
    requires
        children@.len() == 0,
    ensures
        cond_holds(bag, Cond::All { all: children }),
        !cond_holds(bag, Cond::Any { any: children }),
{
}

} // verus!
