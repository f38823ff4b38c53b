//! How the violations of a message add up to its verdict.

use crate::kinds::{ModerationSuggestion, Severity, ViolationType};
use crate::moderation::{
    lemma_violations_push, points_fit, total_points, verdict, verdict_on, violations_against,
    ViolationView,
};
use crate::moderation_laws::verdict_adds_up_over_the_rules;
use crate::rules::{matches_among, rule_table, RuleView};
use crate::table_laws::{lemma_reported_iff_hit, reports};
use crate::text::{joined, lowered, occurs_in};
use vstd::prelude::*;

verus! {

/// How many of the violations are of the given severity.
pub open spec fn of_severity(violations: Seq<ViolationView>, severity: Severity) -> nat {
    violations.filter(|v: ViolationView| v.severity == severity).len()
}

/// The violations weighed: 10 for each of low, 25 for each of medium, 40 for each of high and
/// 100 for each of critical severity.
pub open spec fn weight(violations: Seq<ViolationView>) -> nat {
    10 * of_severity(violations, Severity::Low) + 25 * of_severity(violations, Severity::Medium)
        + 40 * of_severity(violations, Severity::High) + 100 * of_severity(
        violations,
        Severity::Critical,
    )
}

proof fn lemma_points_are_the_weight(violations: Seq<ViolationView>)
    ensures
        total_points(violations) == weight(violations),
    decreases violations.len(),
{
    reveal(Seq::filter);
    if violations.len() > 0 {
        lemma_points_are_the_weight(violations.drop_last());
    }
}

/// The risk score is the weight of the violations, or 100 where that is more.
pub proof fn score_weighs_the_severities(violations: Seq<ViolationView>)
    ensures
        weight(violations) <= 100 ==> verdict_on(violations).risk_score == weight(violations),
        weight(violations) > 100 ==> verdict_on(violations).risk_score == 100,
{
    lemma_points_are_the_weight(violations);
}

/// The points of a text can be added up in eight bits exactly when its violations weigh at most
/// 255.
pub proof fn points_fit_by_weight(text: Seq<char>)
    ensures
        points_fit(text) <==> weight(verdict(text).violations) <= 255,
{
    lemma_points_are_the_weight(verdict(text).violations);
}

/// One more violation raises the risk score by the points of its severity, up to 100.
pub proof fn score_rises_with_each_violation(
    violations: Seq<ViolationView>,
    violation: ViolationView,
)
    ensures
        ({
            let before = verdict_on(violations).risk_score;
            let after = verdict_on(violations.push(violation)).risk_score;
            &&& violation.severity == Severity::Low ==> after == if before < 90 {
                before + 10
            } else {
                100
            }
            &&& violation.severity == Severity::Medium ==> after == if before < 75 {
                before + 25
            } else {
                100
            }
            &&& violation.severity == Severity::High ==> after == if before < 60 {
                before + 40
            } else {
                100
            }
            &&& violation.severity == Severity::Critical ==> after == 100
        }),
{
    assert(violations.push(violation).drop_last() =~= violations);
}

/// The order of the violations has no say in the risk score.
pub proof fn score_disregards_the_order(a: Seq<ViolationView>, b: Seq<ViolationView>)
    ensures
        verdict_on(a + b).risk_score == verdict_on(b + a).risk_score,
{
    lemma_points_of_both(a, b);
    lemma_points_of_both(b, a);
}

proof fn lemma_points_of_both(a: Seq<ViolationView>, b: Seq<ViolationView>)
    ensures
        total_points(a + b) == total_points(a) + total_points(b),
    decreases b.len(),
{
    if b.len() == 0 {
        assert(a + b =~= a);
    } else {
        lemma_points_of_both(a, b.drop_last());
        assert((a + b).drop_last() =~= a + b.drop_last());
    }
}

/// A message is blocked exactly for a critical violation, or for a high one where the risk score
/// is at least 60. It is reviewed exactly where there is a high violation and the score is below
/// 60, or none higher than medium and the score is at least 40. Everything else passes.
pub proof fn suggestion_follows_severity_and_score(violations: Seq<ViolationView>)
    ensures
        ({
            let result = verdict_on(violations);
            let critical = exists|k: int|
                0 <= k < violations.len() && (#[trigger] violations[k]).severity
                    == Severity::Critical;
            let high = exists|k: int|
                0 <= k < violations.len() && (#[trigger] violations[k]).severity == Severity::High;
            &&& result.suggestion == ModerationSuggestion::Block <==> critical || (high
                && result.risk_score >= 60)
            &&& result.suggestion == ModerationSuggestion::Review <==> !critical && ((high
                && result.risk_score < 60) || (!high && result.risk_score >= 40))
            &&& result.suggestion == ModerationSuggestion::Pass <==> !critical && !high
                && result.risk_score < 40
        }),
{
    lemma_points_are_the_weight(violations);
    if violations.len() == 0 {
        assert(total_points(violations) == 0);
    }
}

/// A verdict carries the violations it is passed on, all of them and in order, and says that
/// there is a violation exactly when there is one.
pub proof fn verdict_carries_the_violations(violations: Seq<ViolationView>)
    ensures
        verdict_on(violations).violations == violations,
        verdict_on(violations).is_violation <==> violations != Seq::<ViolationView>::empty(),
{
    assert(violations.len() == 0 ==> violations =~= Seq::empty());
}

/// The verdict on a text depends on its violations alone: its score is their weight, at most 100,
/// and the suggestion follows from the severities and the score.
pub proof fn verdict_on_a_text_weighs_its_violations(text: Seq<char>)
    ensures
        ({
            let result = verdict(text);
            let critical = exists|k: int|
                0 <= k < result.violations.len() && (#[trigger] result.violations[k]).severity
                    == Severity::Critical;
            let high = exists|k: int|
                0 <= k < result.violations.len() && (#[trigger] result.violations[k]).severity
                    == Severity::High;
            &&& result.is_violation <==> result.violations.len() > 0
            &&& weight(result.violations) <= 100 ==> result.risk_score == weight(result.violations)
            &&& weight(result.violations) > 100 ==> result.risk_score == 100
            &&& result.suggestion == ModerationSuggestion::Block <==> critical || (high
                && result.risk_score >= 60)
            &&& result.suggestion == ModerationSuggestion::Review <==> !critical && ((high
                && result.risk_score < 60) || (!high && result.risk_score >= 40))
            &&& result.suggestion == ModerationSuggestion::Pass <==> !critical && !high
                && result.risk_score < 40
        }),
{
    score_weighs_the_severities(verdict(text).violations);
    suggestion_follows_severity_and_score(verdict(text).violations);
}

/// 1 where the text is reported for the kind, otherwise 0.
pub open spec fn times_reported(text: Seq<char>, kind: ViolationType) -> int {
    if reports(verdict(text), kind) {
        1
    } else {
        0
    }
}

/// How many of the four grave kinds a text is reported for: pornography, violence, gambling and
/// fraud.
pub open spec fn grave_reports(text: Seq<char>) -> int {
    times_reported(text, ViolationType::Pornography) + times_reported(text, ViolationType::Violence)
        + times_reported(text, ViolationType::Gambling) + times_reported(
        text,
        ViolationType::Fraud,
    )
}

/// The score and the suggestion by the kinds reported. Politics adds 100, each grave kind 40,
/// abuse 25 and advertising 10. Politics, two grave kinds, or a grave kind with abuse is blocked;
/// a grave kind without them is reviewed; all else passes.
pub proof fn verdict_follows_the_kinds_reported(text: Seq<char>)
    ensures
        ({
            let result = verdict(text);
            let politics = reports(result, ViolationType::Politics);
            let abuse = reports(result, ViolationType::Abuse);
            let grave = grave_reports(text);
            let sum = 100 * times_reported(text, ViolationType::Politics) + 40 * grave + 25
                * times_reported(text, ViolationType::Abuse) + 10 * times_reported(
                text,
                ViolationType::Advertising,
            );
            &&& sum <= 100 ==> result.risk_score == sum
            &&& sum > 100 ==> result.risk_score == 100
            &&& points_fit(text) <==> sum <= 255
            &&& result.is_violation <==> sum > 0
            &&& result.suggestion == ModerationSuggestion::Block <==> politics || grave >= 2 || (
            grave == 1 && abuse)
            &&& result.suggestion == ModerationSuggestion::Review <==> grave == 1 && !politics
                && !abuse
            &&& result.suggestion == ModerationSuggestion::Pass <==> grave == 0 && !politics
        }),
{
    verdict_adds_up_over_the_rules(text);
    let table = rule_table();
    assert(table[0] == RuleView::pornography());
    assert(table[1] == RuleView::violence());
    assert(table[2] == RuleView::politics());
    assert(table[3] == RuleView::advertising());
    assert(table[4] == RuleView::abuse());
    assert(table[5] == RuleView::gambling());
    assert(table[6] == RuleView::fraud());
    lemma_reported_iff_hit(text, 0);
    lemma_reported_iff_hit(text, 1);
    lemma_reported_iff_hit(text, 2);
    lemma_reported_iff_hit(text, 3);
    lemma_reported_iff_hit(text, 4);
    lemma_reported_iff_hit(text, 5);
    lemma_reported_iff_hit(text, 6);
}

/// Where a kind of violation stands in the order of checking.
pub open spec fn place(kind: ViolationType) -> int {
    match kind {
        ViolationType::Pornography => 0,
        ViolationType::Violence => 1,
        ViolationType::Politics => 2,
        ViolationType::Advertising => 3,
        ViolationType::Abuse => 4,
        ViolationType::Gambling => 5,
        ViolationType::Fraud => 6,
        ViolationType::Other => 7,
    }
}

/// The violations of a text are reported in the order of their kinds, each kind at most once.
pub proof fn violations_are_reported_in_order(text: Seq<char>, i: int, j: int)
    requires
        0 <= i < j < verdict(text).violations.len(),
    ensures
        place(verdict(text).violations[i].violation_type) < place(
            verdict(text).violations[j].violation_type,
        ),
{
    lemma_places_rise(rule_table(), text, i, j);
}

proof fn lemma_places_rise(rules: Seq<RuleView>, text: Seq<char>, i: int, j: int)
    requires
        forall|a: int, b: int|
            0 <= a < b < rules.len() ==> place((#[trigger] rules[a]).violation_type) < place(
                (#[trigger] rules[b]).violation_type,
            ),
        0 <= i < j < violations_against(rules, text).len(),
    ensures
        place(violations_against(rules, text)[i].violation_type) < place(
            violations_against(rules, text)[j].violation_type,
        ),
    decreases rules.len(),
{
    reveal(Seq::filter);
    let hit = |r: RuleView| r.is_hit(text);
    if rules.len() > 0 {
        let front = rules.drop_last();
        assert(front.push(rules.last()) =~= rules);
        lemma_violations_push(front, rules.last(), text);
        let found = violations_against(front, text);
        if j < found.len() {
            lemma_places_rise(front, text, i, j);
        } else {
            let rule = front.filter(hit)[i];
            assert(front.filter(hit).contains(rule));
            front.lemma_filter_contains_rev(hit, rule);
            let a = choose|a: int| 0 <= a < front.len() && front[a] == rule;
            assert(place(rules[a].violation_type) < place(rules[rules.len() - 1].violation_type));
        }
    }
}

/// The violations against two lists of rules are those against the one and then those against
/// the other.
pub proof fn rules_are_checked_one_by_one(a: Seq<RuleView>, b: Seq<RuleView>, text: Seq<char>)
    ensures
        violations_against(a + b, text) == violations_against(a, text) + violations_against(
            b,
            text,
        ),
{
    let hit = |r: RuleView| r.is_hit(text);
    Seq::filter_distributes_over_add(a, b, hit);
    assert(violations_against(a + b, text) =~= violations_against(a, text) + violations_against(
        b,
        text,
    ));
}

/// A single rule leads to one violation where one of its patterns occurs, which has the kind,
/// the severity and the description of the rule, and otherwise to none.
pub proof fn one_rule_gives_at_most_one_violation(rule: RuleView, text: Seq<char>)
    ensures
        ({
            let found = violations_against(seq![rule], text);
            let occurs = exists|k: int|
                0 <= k < rule.patterns.len() && occurs_in(
                    lowered(#[trigger] rule.patterns[k]),
                    text,
                );
            &&& occurs ==> found.len() == 1 && found[0].violation_type == rule.violation_type
                && found[0].severity == rule.severity && found[0].description == rule.description
                && found[0].matched_text == Some(
                joined(matches_among(rule.patterns, text), ", "@),
            )
            &&& !occurs ==> found.len() == 0
        }),
{
    lemma_violations_push(Seq::empty(), rule, text);
    assert(Seq::<RuleView>::empty().push(rule) =~= seq![rule]);
    reveal(Seq::filter);
    assert(violations_against(Seq::empty(), text).len() == 0);
}

/// Patterns are matched one by one: those of two lists are those of the one and then those of
/// the other, and a single pattern matches where its lowercase form occurs.
pub proof fn patterns_are_matched_one_by_one(
    a: Seq<Seq<char>>,
    b: Seq<Seq<char>>,
    pattern: Seq<char>,
    text: Seq<char>,
)
    ensures
        matches_among(a + b, text) == matches_among(a, text) + matches_among(b, text),
        occurs_in(lowered(pattern), text) ==> matches_among(seq![pattern], text) == seq![pattern],
        !occurs_in(lowered(pattern), text) ==> matches_among(seq![pattern], text).len() == 0,
{
    let pred = |p: Seq<char>| occurs_in(lowered(p), text);
    Seq::filter_distributes_over_add(a, b, pred);
    reveal(Seq::filter);
    assert(seq![pattern].drop_last() =~= Seq::empty());
    assert(seq![pattern].last() == pattern);
    assert(Seq::<Seq<char>>::empty().filter(pred) =~= Seq::empty());
    if occurs_in(lowered(pattern), text) {
        assert(matches_among(seq![pattern], text) =~= seq![pattern]);
    }
}

} // verus!
