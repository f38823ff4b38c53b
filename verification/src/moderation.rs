//! Judging a message: which rules it breaks, how risky it is, and what to do with it.

use crate::moderation_laws::sigmas_are_judged_alike;
use crate::rules::{get_rules, rule_table, Rule, RuleView};
use crate::text::{join, joined, lower, lowered, lowered_by_char};
use vstd::prelude::*;

pub use crate::kinds::{severity_score, ModerationSuggestion, Severity, ViolationType};

verus! {

/// A violation found in a message.
#[derive(Debug, Clone)]
pub struct Violation {
    pub violation_type: ViolationType,
    pub description: String,
    pub matched_text: Option<String>,
    pub severity: Severity,
}

/// The mathematical content of a [`Violation`].
pub struct ViolationView {
    pub violation_type: ViolationType,
    pub description: Seq<char>,
    pub matched_text: Option<Seq<char>>,
    pub severity: Severity,
}

/// The characters of an optional string.
pub open spec fn opt_text(text: Option<String>) -> Option<Seq<char>> {
    match text {
        Some(s) => Some(s@),
        None => None,
    }
}

impl View for Violation {
    type V = ViolationView;

    open spec fn view(&self) -> ViolationView {
        ViolationView {
            violation_type: self.violation_type,
            description: self.description@,
            matched_text: opt_text(self.matched_text),
            severity: self.severity,
        }
    }
}

impl DeepView for Violation {
    type V = ViolationView;

    open spec fn deep_view(&self) -> ViolationView {
        self@
    }
}

/// The verdict on a message.
#[derive(Debug, Clone)]
pub struct ModerationResult {
    pub is_violation: bool,
    pub violations: Vec<Violation>,
    pub risk_score: u8,
    pub suggestion: ModerationSuggestion,
}

/// The mathematical content of a [`ModerationResult`].
pub struct ModerationResultView {
    pub is_violation: bool,
    pub violations: Seq<ViolationView>,
    pub risk_score: int,
    pub suggestion: ModerationSuggestion,
}

impl View for ModerationResult {
    type V = ModerationResultView;

    open spec fn view(&self) -> ModerationResultView {
        ModerationResultView {
            is_violation: self.is_violation,
            violations: self.violations.deep_view(),
            risk_score: self.risk_score as int,
            suggestion: self.suggestion,
        }
    }
}

impl RuleView {
    /// The violation that a text hit by this rule commits.
    pub open spec fn violation(self, lowered: Seq<char>) -> ViolationView {
        ViolationView {
            violation_type: self.violation_type,
            description: self.description,
            matched_text: Some(joined(self.matches(lowered), ", "@)),
            severity: self.severity,
        }
    }
}

/// The violations of a lowercased text against some rules: one for each rule that is hit, in
/// the order of the rules.
pub open spec fn violations_against(rules: Seq<RuleView>, lowered: Seq<char>) -> Seq<
    ViolationView,
> {
    rules.filter(|r: RuleView| r.is_hit(lowered)).map_values(
        |r: RuleView| r.violation(lowered),
    )
}

/// The violations of a lowercased text against the rules in force.
pub open spec fn violations_in(lowered: Seq<char>) -> Seq<ViolationView> {
    violations_against(rule_table(), lowered)
}

/// The points of all violations together.
pub open spec fn total_points(violations: Seq<ViolationView>) -> nat
    decreases violations.len(),
{
    if violations.len() == 0 {
        0
    } else {
        total_points(violations.drop_last()) + violations.last().severity.points()
    }
}

/// The risk score: the total of the points, but at most 100.
pub open spec fn risk_of(violations: Seq<ViolationView>) -> int {
    if total_points(violations) <= 100 {
        total_points(violations) as int
    } else {
        100
    }
}

/// Whether some violation is of the given severity.
pub open spec fn has_severity(violations: Seq<ViolationView>, severity: Severity) -> bool {
    exists|k: int| 0 <= k < violations.len() && (#[trigger] violations[k]).severity == severity
}

/// What to do with a message that commits the given violations.
pub open spec fn suggestion_for(violations: Seq<ViolationView>) -> ModerationSuggestion {
    if violations.len() == 0 {
        ModerationSuggestion::Pass
    } else if has_severity(violations, Severity::Critical) {
        ModerationSuggestion::Block
    } else if has_severity(violations, Severity::High) {
        if risk_of(violations) >= 60 {
            ModerationSuggestion::Block
        } else {
            ModerationSuggestion::Review
        }
    } else if risk_of(violations) >= 40 {
        ModerationSuggestion::Review
    } else {
        ModerationSuggestion::Pass
    }
}

/// The verdict on a message that commits the given violations.
pub open spec fn verdict_on(violations: Seq<ViolationView>) -> ModerationResultView {
    ModerationResultView {
        is_violation: violations.len() > 0,
        violations,
        risk_score: risk_of(violations),
        suggestion: suggestion_for(violations),
    }
}

/// The verdict on a lowercased text.
pub open spec fn verdict(lowered: Seq<char>) -> ModerationResultView {
    verdict_on(violations_in(lowered))
}

/// Whether the points of a lowercased text can be added up in eight bits.
pub open spec fn points_fit(lowered: Seq<char>) -> bool {
    total_points(violations_in(lowered)) <= u8::MAX
}

/// Leading violations have no more points than all of them.
pub proof fn lemma_points_prefix(violations: Seq<ViolationView>, n: int)
    requires
        0 <= n <= violations.len(),
    ensures
        total_points(violations.take(n)) <= total_points(violations),
    decreases violations.len() - n,
{
    if n < violations.len() {
        lemma_points_prefix(violations, n + 1);
        assert(violations.take(n + 1).drop_last() =~= violations.take(n));
    } else {
        assert(violations.take(n) =~= violations);
    }
}

/// Appending a rule appends its violation where it is hit.
pub proof fn lemma_violations_push(rules: Seq<RuleView>, rule: RuleView, lowered: Seq<char>)
    ensures
        violations_against(rules.push(rule), lowered) == if rule.is_hit(lowered) {
            violations_against(rules, lowered).push(rule.violation(lowered))
        } else {
            violations_against(rules, lowered)
        },
{
    reveal(Seq::filter);
    assert(rules.push(rule).drop_last() =~= rules);
    if rule.is_hit(lowered) {
        assert(violations_against(rules.push(rule), lowered) =~= violations_against(
            rules,
            lowered,
        ).push(rule.violation(lowered)));
    }
}

/// Finds the violations in a lowercased text.
pub fn find_violations(lowered: &str) -> (violations: Vec<Violation>)
    ensures
        violations.deep_view() == violations_in(lowered@),
{
    let rules: Vec<Rule> = get_rules();
    let mut violations: Vec<Violation> = Vec::new();
    let n: usize = rules.len();
    let mut i: usize = 0;
    let ghost table = rules.deep_view();
    proof {
        reveal(Seq::filter);
        assert(violations.deep_view() =~= violations_against(table.take(0), lowered@));
    }
    while i < n
        invariant
            n == rules@.len(),
            i <= n,
            table == rules.deep_view(),
            violations.deep_view() == violations_against(table.take(i as int), lowered@),
        decreases n - i,
    {
        let rule: &Rule = &rules[i];
        let matched = rule.matched_patterns(lowered);
        let ghost before = violations.deep_view();
        proof {
            assert(table[i as int] == rule@);
            assert(table.take(i + 1) =~= table.take(i as int).push(rule@));
            lemma_violations_push(table.take(i as int), rule@, lowered@);
        }
        if !matched.is_empty() {
            let violation = Violation {
                violation_type: rule.violation_type,
                description: rule.description.to_owned(),
                matched_text: Some(join(&matched, ", ")),
                severity: rule.severity,
            };
            assert(violation@ == rule@.violation(lowered@));
            violations.push(violation);
            assert(violations.deep_view() =~= before.push(rule@.violation(lowered@)));
        }
        i += 1;
    }
    proof {
        assert(table.take(n as int) =~= table);
    }
    violations
}

/// Whether the points of the violations can be added up in eight bits.
pub fn check_points(violations: &Vec<Violation>) -> (fit: bool)
    ensures
        fit == (total_points(violations.deep_view()) <= u8::MAX),
{
    let ghost all = violations.deep_view();
    let n: usize = violations.len();
    let mut total: u8 = 0;
    let mut i: usize = 0;
    while i < n
        invariant
            n == violations@.len(),
            i <= n,
            all == violations.deep_view(),
            total == total_points(all.take(i as int)),
        decreases n - i,
    {
        let points: u8 = severity_score(violations[i].severity);
        proof {
            assert(all.take(i + 1).drop_last() =~= all.take(i as int));
            assert(all[i as int] == violations@[i as int]@);
            lemma_points_prefix(all, i + 1);
        }
        if points > u8::MAX - total {
            return false;
        }
        total += points;
        i += 1;
    }
    proof {
        assert(all.take(n as int) =~= all);
    }
    true
}

/// The risk score of the violations.
pub fn risk_score_of(violations: &Vec<Violation>) -> (score: u8)
    requires
        total_points(violations.deep_view()) <= u8::MAX,
    ensures
        score == risk_of(violations.deep_view()),
{
    let ghost all = violations.deep_view();
    let n: usize = violations.len();
    let mut total: u8 = 0;
    let mut i: usize = 0;
    while i < n
        invariant
            n == violations@.len(),
            i <= n,
            all == violations.deep_view(),
            total_points(all) <= u8::MAX,
            total == total_points(all.take(i as int)),
        decreases n - i,
    {
        proof {
            assert(all.take(i + 1).drop_last() =~= all.take(i as int));
            assert(all[i as int] == violations@[i as int]@);
            lemma_points_prefix(all, i + 1);
        }
        total += severity_score(violations[i].severity);
        i += 1;
    }
    proof {
        assert(all.take(n as int) =~= all);
    }
    if total < 100 {
        total
    } else {
        100
    }
}

/// Whether some violation is of the given severity.
pub fn any_with_severity(violations: &Vec<Violation>, severity: Severity) -> (found: bool)
    ensures
        found == has_severity(violations.deep_view(), severity),
{
    let n: usize = violations.len();
    let mut i: usize = 0;
    while i < n
        invariant
            n == violations@.len(),
            i <= n,
            forall|k: int| 0 <= k < i ==> (#[trigger] violations@[k]).severity != severity,
        decreases n - i,
    {
        if violations[i].severity == severity {
            assert(violations.deep_view()[i as int].severity == severity);
            return true;
        }
        i += 1;
    }
    assert(forall|k: int|
        0 <= k < n ==> #[trigger] violations.deep_view()[k] == violations@[k]@);
    false
}

/// The verdict on a message that commits the given violations.
pub fn judge(violations: Vec<Violation>) -> (result: ModerationResult)
    requires
        total_points(violations.deep_view()) <= u8::MAX,
    ensures
        result@ == verdict_on(violations.deep_view()),
{
    let is_violation = !violations.is_empty();
    let risk_score: u8 = risk_score_of(&violations);
    let suggestion = if !is_violation {
        ModerationSuggestion::Pass
    } else if any_with_severity(&violations, Severity::Critical) {
        ModerationSuggestion::Block
    } else if any_with_severity(&violations, Severity::High) {
        if risk_score >= 60 {
            ModerationSuggestion::Block
        } else {
            ModerationSuggestion::Review
        }
    } else if risk_score >= 40 {
        ModerationSuggestion::Review
    } else {
        ModerationSuggestion::Pass
    };
    ModerationResult { is_violation, violations, risk_score, suggestion }
}

/// Judges a text that is already in lowercase.
pub fn moderate_lowered(lowered: &str) -> (result: ModerationResult)
    requires
        points_fit(lowered@),
    ensures
        result@ == verdict(lowered@),
{
    judge(find_violations(lowered))
}

/// Judges a message, without regard to letter case. Lowering each character by itself leads to
/// the same verdict.
pub fn moderate_message(text: &str) -> (result: ModerationResult)
    requires
        points_fit(lowered(text@)),
    ensures
        result@ == verdict(lowered(text@)),
        result@ == verdict(lowered(lowered(text@))),
        result@ == verdict(lowered_by_char(text@)),
{
    let folded = lower(text);
    proof {
        sigmas_are_judged_alike(folded@);
    }
    moderate_lowered(folded.as_str())
}

/// Whether there is a verdict on a message: its points can be added up in eight bits.
pub fn has_verdict(text: &str) -> (judged: bool)
    ensures
        judged == points_fit(lowered(text@)),
        judged == points_fit(lowered(lowered(text@))),
        judged == points_fit(lowered_by_char(text@)),
{
    let folded = lower(text);
    proof {
        sigmas_are_judged_alike(folded@);
    }
    let violations = find_violations(folded.as_str());
    check_points(&violations)
}

/// Judges a message, without regard to letter case, if there is a verdict on it.
pub fn checked_moderate_message(text: &str) -> (result: Option<ModerationResult>)
    ensures
        match result {
            Some(r) => {
                &&& points_fit(lowered(text@))
                &&& r@ == verdict(lowered(text@))
                &&& r@ == verdict(lowered_by_char(text@))
            },
            None => !points_fit(lowered(text@)),
        },
        result is Some <==> points_fit(lowered_by_char(text@)),
{
    if has_verdict(text) {
        Some(moderate_message(text))
    } else {
        None
    }
}

} // verus!
