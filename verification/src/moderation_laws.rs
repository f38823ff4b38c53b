//! What holds of every verdict.

use crate::kinds::{ModerationSuggestion, Severity, ViolationType};
use crate::moderation::{
    has_severity, lemma_violations_push, points_fit, total_points, verdict, violations_against,
    violations_in, ViolationView,
};
use crate::rules::{
    is_folded, lemma_folded_is_lowered, lemma_hit_iff_matches, lemma_matches_push,
    lemma_table_is_folded, matches_among, patterns_are_spelled_in_lowercase, rule_table, RuleView,
};
use crate::seqs::lemma_filter_keeps;
use crate::text::{
    ascii_lower_text, char_lowered, is_plain, is_plain_text, joined, lowered, lowered_by_char,
    merge_sigmas, occurs_at, occurs_in,
};
use vstd::prelude::*;
use vstd::seq_lib::lemma_flatten_concat;

verus! {

/// The points that a rule adds to the score of a lowercased text.
pub open spec fn rule_points(rule: RuleView, text: Seq<char>) -> nat {
    if rule.is_hit(text) {
        rule.severity.points()
    } else {
        0
    }
}

/// The points that the rules of severity `High` add to the score of a lowercased text.
pub open spec fn high_points(text: Seq<char>) -> nat {
    rule_points(RuleView::pornography(), text) + rule_points(RuleView::violence(), text)
        + rule_points(RuleView::gambling(), text) + rule_points(RuleView::fraud(), text)
}

/// What one more rule adds to the violations.
proof fn lemma_one_more_rule(rules: Seq<RuleView>, rule: RuleView, text: Seq<char>)
    ensures
        total_points(violations_against(rules.push(rule), text)) == total_points(
            violations_against(rules, text),
        ) + rule_points(rule, text),
        violations_against(rules.push(rule), text).len() == violations_against(
            rules,
            text,
        ).len() + if rule.is_hit(text) {
            1int
        } else {
            0
        },
        forall|severity: Severity|
            #![trigger has_severity(violations_against(rules.push(rule), text), severity)]
            has_severity(violations_against(rules.push(rule), text), severity) <==> (
            has_severity(violations_against(rules, text), severity) || (rule.is_hit(text)
                && rule.severity == severity)),
{
    lemma_violations_push(rules, rule, text);
    let before = violations_against(rules, text);
    let after = violations_against(rules.push(rule), text);
    if rule.is_hit(text) {
        assert(after.drop_last() =~= before);
        assert(after.last() == rule.violation(text));
        assert forall|severity: Severity| has_severity(after, severity) <==> (has_severity(
            before,
            severity,
        ) || rule.severity == severity) by {
            if has_severity(before, severity) {
                let k = choose|k: int|
                    0 <= k < before.len() && (#[trigger] before[k]).severity == severity;
                assert(after[k].severity == severity);
            }
            if rule.severity == severity {
                assert(after[before.len() as int].severity == severity);
            }
            if has_severity(after, severity) && rule.severity != severity {
                let k = choose|k: int|
                    0 <= k < after.len() && (#[trigger] after[k]).severity == severity;
                assert(before[k].severity == severity);
            }
        }
    }
}

/// The score, the number of violations and the severities, rule by rule.
pub proof fn verdict_adds_up_over_the_rules(text: Seq<char>)
    ensures
        total_points(violations_in(text)) == high_points(text) + rule_points(
            RuleView::politics(),
            text,
        ) + rule_points(RuleView::advertising(), text) + rule_points(
            RuleView::abuse(),
            text,
        ),
        violations_in(text).len() <= rule_table().len(),
        violations_in(text).len() > 0 <==> total_points(violations_in(text)) > 0,
        has_severity(violations_in(text), Severity::Critical) <==> RuleView::politics().is_hit(
            text,
        ),
        has_severity(violations_in(text), Severity::High) <==> high_points(text) > 0,
{
    reveal(Seq::filter);
    let r0 = Seq::<RuleView>::empty();
    let r1 = r0.push(RuleView::pornography());
    let r2 = r1.push(RuleView::violence());
    let r3 = r2.push(RuleView::politics());
    let r4 = r3.push(RuleView::advertising());
    let r5 = r4.push(RuleView::abuse());
    let r6 = r5.push(RuleView::gambling());
    let r7 = r6.push(RuleView::fraud());
    assert(r7 =~= rule_table());
    assert(violations_against(r0, text).len() == 0);
    lemma_one_more_rule(r0, RuleView::pornography(), text);
    lemma_one_more_rule(r1, RuleView::violence(), text);
    lemma_one_more_rule(r2, RuleView::politics(), text);
    lemma_one_more_rule(r3, RuleView::advertising(), text);
    lemma_one_more_rule(r4, RuleView::abuse(), text);
    lemma_one_more_rule(r5, RuleView::gambling(), text);
    lemma_one_more_rule(r6, RuleView::fraud(), text);
}

/// A message commits a violation exactly when some pattern of some rule occurs in its
/// lowercase form.
pub proof fn violation_iff_a_pattern_occurs(text: Seq<char>)
    ensures
        verdict(text).is_violation <==> exists|r: int, k: int|
            0 <= r < rule_table().len() && 0 <= k < rule_table()[r].patterns.len() && occurs_in(
                #[trigger] rule_table()[r].patterns[k],
                text,
            ),
{
    let hit = |r: RuleView| r.is_hit(text);
    let table = rule_table();
    patterns_are_spelled_in_lowercase();
    lemma_filter_keeps(table, hit);
    if verdict(text).is_violation {
        let rule = table.filter(hit)[0];
        assert(hit(rule));
        table.lemma_filter_contains_rev(hit, rule);
        let r = choose|r: int| 0 <= r < table.len() && table[r] == rule;
        let k = choose|k: int|
            0 <= k < rule.patterns.len() && occurs_in(lowered(#[trigger] rule.patterns[k]), text);
        assert(occurs_in(table[r].patterns[k], text));
    }
    if exists|r: int, k: int|
        0 <= r < table.len() && 0 <= k < table[r].patterns.len() && occurs_in(
            #[trigger] table[r].patterns[k],
            text,
        ) {
        let (r, k) = choose|r: int, k: int|
            0 <= r < table.len() && 0 <= k < table[r].patterns.len() && occurs_in(
                #[trigger] table[r].patterns[k],
                text,
            );
        assert(occurs_in(lowered(table[r].patterns[k]), text));
        assert(hit(table[r]));
        assert(table.filter(hit).contains(table[r]));
    }
}

/// A message without a violation carries no risk and passes.
pub proof fn clean_message_passes(text: Seq<char>)
    requires
        !verdict(text).is_violation,
    ensures
        verdict(text).violations == Seq::<ViolationView>::empty(),
        verdict(text).risk_score == 0,
        verdict(text).suggestion == ModerationSuggestion::Pass,
{
}

/// The risk score lies between 0 and 100, and is positive exactly for a violation.
pub proof fn risk_score_is_bounded(text: Seq<char>)
    ensures
        0 <= verdict(text).risk_score <= 100,
        verdict(text).risk_score > 0 <==> verdict(text).is_violation,
{
    verdict_adds_up_over_the_rules(text);
}

/// A critical violation has the highest risk score, and is blocked.
pub proof fn critical_violation_is_blocked(text: Seq<char>)
    requires
        RuleView::politics().is_hit(text),
    ensures
        verdict(text).is_violation,
        verdict(text).risk_score == 100,
        verdict(text).suggestion == ModerationSuggestion::Block,
{
    verdict_adds_up_over_the_rules(text);
}

/// Which messages are blocked, which reviewed and which passed. A message is blocked for a
/// political pattern, for two grave violations, or for a grave one with abuse; it is reviewed
/// for a single grave violation; anything milder passes.
pub proof fn suggestion_follows_the_rules_hit(text: Seq<char>)
    ensures
        verdict(text).suggestion == if RuleView::politics().is_hit(text) || high_points(
            text,
        ) >= 80 || (high_points(text) > 0 && RuleView::abuse().is_hit(text)) {
            ModerationSuggestion::Block
        } else if high_points(text) > 0 {
            ModerationSuggestion::Review
        } else {
            ModerationSuggestion::Pass
        },
{
    verdict_adds_up_over_the_rules(text);
}

/// The points exceed eight bits exactly for a text that hits the critical rule and all four
/// rules of severity `High`.
pub proof fn points_fit_unless_all_grave_rules_are_hit(text: Seq<char>)
    ensures
        points_fit(text) <==> !(RuleView::politics().is_hit(text)
            && RuleView::pornography().is_hit(text) && RuleView::violence().is_hit(text)
            && RuleView::gambling().is_hit(text) && RuleView::fraud().is_hit(text)),
{
    verdict_adds_up_over_the_rules(text);
}

/// Each violation is that of a rule that is hit, and names the patterns that occur.
pub proof fn violations_are_those_of_rules_hit(text: Seq<char>, k: int)
    requires
        0 <= k < verdict(text).violations.len(),
    ensures
        exists|r: int|
            0 <= r < rule_table().len() && (#[trigger] rule_table()[r]).is_hit(text)
                && verdict(text).violations[k] == rule_table()[r].violation(text),
{
    let hit = |r: RuleView| r.is_hit(text);
    let table = rule_table();
    lemma_filter_keeps(table, hit);
    let rule = table.filter(hit)[k];
    assert(hit(rule));
    table.lemma_filter_contains_rev(hit, rule);
    let r = choose|r: int| 0 <= r < table.len() && table[r] == rule;
    assert(table[r].is_hit(text));
}

/// Every rule that is hit is reported.
pub proof fn every_rule_hit_is_reported(text: Seq<char>, r: int)
    requires
        0 <= r < rule_table().len(),
        rule_table()[r].is_hit(text),
    ensures
        verdict(text).violations.contains(rule_table()[r].violation(text)),
{
    let hit = |rule: RuleView| rule.is_hit(text);
    let table = rule_table();
    lemma_filter_keeps(table, hit);
    assert(hit(table[r]));
    assert(table.filter(hit).contains(table[r]));
    let k = choose|k: int| 0 <= k < table.filter(hit).len() && table.filter(hit)[k] == table[r];
    assert(verdict(text).violations[k] == table[r].violation(text));
}

/// A pattern that occurs in a part of a text occurs in the text.
pub proof fn lemma_occurs_in_whole(needle: Seq<char>, part: Seq<char>, whole: Seq<char>)
    requires
        occurs_in(needle, part),
        occurs_in(part, whole),
    ensures
        occurs_in(needle, whole),
{
    let i = choose|i: int| #[trigger] occurs_at(needle, part, i);
    let j = choose|j: int| #[trigger] occurs_at(part, whole, j);
    assert(whole.subrange(i + j, i + j + needle.len()) =~= part.subrange(i, i + needle.len()));
    assert(occurs_at(needle, whole, i + j));
}

/// A rule that a part of a text hits is hit by the text.
pub proof fn lemma_hit_in_whole(rule: RuleView, part: Seq<char>, whole: Seq<char>)
    requires
        occurs_in(part, whole),
    ensures
        rule.is_hit(part) ==> rule.is_hit(whole),
{
    if rule.is_hit(part) {
        let k = choose|k: int|
            0 <= k < rule.patterns.len() && occurs_in(lowered(#[trigger] rule.patterns[k]), part);
        lemma_occurs_in_whole(lowered(rule.patterns[k]), part, whole);
    }
}

/// Adding to a lowercased text never makes its verdict milder: whatever is found in a part is
/// found in the whole, the risk score does not fall, and the suggestion is at least as strict.
pub proof fn more_lowered_text_is_never_judged_milder(part: Seq<char>, whole: Seq<char>)
    requires
        occurs_in(part, whole),
    ensures
        forall|r: int|
            0 <= r < rule_table().len() && (#[trigger] rule_table()[r]).is_hit(part)
                ==> rule_table()[r].is_hit(whole),
        verdict(part).is_violation ==> verdict(whole).is_violation,
        verdict(part).risk_score <= verdict(whole).risk_score,
        verdict(part).suggestion.rank() <= verdict(whole).suggestion.rank(),
{
    assert forall|r: int|
        0 <= r < rule_table().len() && (#[trigger] rule_table()[r]).is_hit(
            part,
        ) implies rule_table()[r].is_hit(whole) by {
        lemma_hit_in_whole(rule_table()[r], part, whole);
    }
    lemma_hit_in_whole(RuleView::pornography(), part, whole);
    lemma_hit_in_whole(RuleView::violence(), part, whole);
    lemma_hit_in_whole(RuleView::politics(), part, whole);
    lemma_hit_in_whole(RuleView::advertising(), part, whole);
    lemma_hit_in_whole(RuleView::abuse(), part, whole);
    lemma_hit_in_whole(RuleView::gambling(), part, whole);
    lemma_hit_in_whole(RuleView::fraud(), part, whole);
    verdict_adds_up_over_the_rules(part);
    verdict_adds_up_over_the_rules(whole);
}

/// No verdict reports the same kind of violation twice.
pub proof fn violation_types_are_distinct(text: Seq<char>, i: int, j: int)
    requires
        0 <= i < j < verdict(text).violations.len(),
    ensures
        verdict(text).violations[i].violation_type
            != verdict(text).violations[j].violation_type,
{
    lemma_types_distinct(rule_table(), text, i, j);
}

proof fn lemma_types_distinct(rules: Seq<RuleView>, text: Seq<char>, i: int, j: int)
    requires
        forall|a: int, b: int|
            0 <= a < b < rules.len() ==> (#[trigger] rules[a]).violation_type != (
            #[trigger] rules[b]).violation_type,
        0 <= i < j < violations_against(rules, text).len(),
    ensures
        violations_against(rules, text)[i].violation_type != violations_against(
            rules,
            text,
        )[j].violation_type,
    decreases rules.len(),
{
    reveal(Seq::filter);
    let hit = |r: RuleView| r.is_hit(text);
    if rules.len() > 0 {
        let front = rules.drop_last();
        assert(front.push(rules.last()) =~= rules);
        lemma_violations_push(front, rules.last(), text);
        let found = violations_against(front, text);
        if j < found.len() {
            lemma_types_distinct(front, text, i, j);
        } else {
            let rule = front.filter(hit)[i];
            assert(front.filter(hit).contains(rule));
            front.lemma_filter_contains_rev(hit, rule);
            let a = choose|a: int| 0 <= a < front.len() && front[a] == rule;
            assert(rules[a].violation_type != rules[rules.len() - 1].violation_type);
        }
    }
}

/// Nothing is ever reported as `Other`.
pub proof fn other_is_never_reported(text: Seq<char>, k: int)
    requires
        0 <= k < verdict(text).violations.len(),
    ensures
        verdict(text).violations[k].violation_type != ViolationType::Other,
{
    violations_are_those_of_rules_hit(text, k);
}

/// A folded pattern occurs in a text exactly when it occurs with all small sigmas written alike,
/// for it holds none.
proof fn lemma_occurs_among_merged_sigmas(pattern: Seq<char>, text: Seq<char>)
    requires
        is_folded(pattern),
    ensures
        occurs_in(pattern, text) <==> occurs_in(pattern, merge_sigmas(text)),
{
    let merged = merge_sigmas(text);
    if occurs_in(pattern, text) {
        let start = choose|start: int| #[trigger] occurs_at(pattern, text, start);
        assert forall|i: int| 0 <= i < pattern.len() implies merged[start + i]
            == #[trigger] pattern[i] by {
            assert(text.subrange(start, start + pattern.len())[i] == text[start + i]);
        }
        assert(merged.subrange(start, start + pattern.len()) =~= pattern);
        assert(occurs_at(pattern, merged, start));
    }
    if occurs_in(pattern, merged) {
        let start = choose|start: int| #[trigger] occurs_at(pattern, merged, start);
        assert forall|i: int| 0 <= i < pattern.len() implies text[start + i]
            == #[trigger] pattern[i] by {
            assert(merged.subrange(start, start + pattern.len())[i] == merged[start + i]);
        }
        assert(text.subrange(start, start + pattern.len()) =~= pattern);
        assert(occurs_at(pattern, text, start));
    }
}

proof fn lemma_matches_among_merged_sigmas(patterns: Seq<Seq<char>>, text: Seq<char>)
    requires
        forall|k: int| 0 <= k < patterns.len() ==> is_folded(#[trigger] patterns[k]),
    ensures
        matches_among(patterns, text) == matches_among(patterns, merge_sigmas(text)),
    decreases patterns.len(),
{
    reveal(Seq::filter);
    if patterns.len() > 0 {
        let front = patterns.drop_last();
        let pattern = patterns.last();
        assert(patterns =~= front.push(pattern));
        assert(is_folded(patterns[patterns.len() - 1]));
        lemma_matches_among_merged_sigmas(front, text);
        lemma_folded_is_lowered(pattern);
        lemma_occurs_among_merged_sigmas(pattern, text);
        lemma_matches_push(front, pattern, text);
        lemma_matches_push(front, pattern, merge_sigmas(text));
    } else {
        assert(matches_among(patterns, text) =~= matches_among(patterns, merge_sigmas(text)));
    }
}

proof fn lemma_violations_among_merged_sigmas(rules: Seq<RuleView>, text: Seq<char>)
    requires
        forall|r: int| 0 <= r < rules.len() ==> (#[trigger] rules[r]).is_folded(),
    ensures
        violations_against(rules, text) == violations_against(rules, merge_sigmas(text)),
    decreases rules.len(),
{
    reveal(Seq::filter);
    let merged = merge_sigmas(text);
    if rules.len() > 0 {
        let front = rules.drop_last();
        let rule = rules.last();
        assert(rules =~= front.push(rule));
        assert(rules[rules.len() - 1].is_folded());
        lemma_violations_among_merged_sigmas(front, text);
        lemma_matches_among_merged_sigmas(rule.patterns, text);
        lemma_hit_iff_matches(rule, text);
        lemma_hit_iff_matches(rule, merged);
        lemma_violations_push(front, rule, text);
        lemma_violations_push(front, rule, merged);
    } else {
        assert(violations_against(rules, text) =~= violations_against(rules, merged));
    }
}

/// It makes no difference to the verdict whether a sigma ends a word: no pattern holds one.
pub proof fn sigmas_are_judged_alike(text: Seq<char>)
    ensures
        verdict(merge_sigmas(text)) == verdict(text),
        points_fit(merge_sigmas(text)) == points_fit(text),
{
    lemma_table_is_folded();
    lemma_violations_among_merged_sigmas(rule_table(), text);
}

/// The lowercase form of a part of a text is a part of the lowercase form of the text, where each
/// character is lowered by itself.
pub proof fn lemma_lowered_part_occurs(part: Seq<char>, whole: Seq<char>)
    requires
        occurs_in(part, whole),
    ensures
        occurs_in(lowered_by_char(part), lowered_by_char(whole)),
{
    let f = |c: char| char_lowered(c);
    let start = choose|start: int| #[trigger] occurs_at(part, whole, start);
    let end = start + part.len();
    let front = whole.take(start);
    let back = whole.skip(end);
    assert(whole =~= front + part + back);
    assert(whole.map_values(f) =~= front.map_values(f) + part.map_values(f) + back.map_values(f));
    lemma_flatten_concat(front.map_values(f) + part.map_values(f), back.map_values(f));
    lemma_flatten_concat(front.map_values(f), part.map_values(f));
    let a = front.map_values(f).flatten();
    let b = part.map_values(f).flatten();
    let c = back.map_values(f).flatten();
    assert(lowered_by_char(part) == b);
    assert(lowered_by_char(whole) == a + b + c);
    assert((a + b + c).subrange(a.len() as int, (a.len() + b.len()) as int) =~= b);
    assert(occurs_at(lowered_by_char(part), lowered_by_char(whole), a.len() as int));
}

/// Adding text around a message never makes its verdict milder: whatever rule a part hits, the
/// whole hits too; its risk score is no lower, and the suggestion is at least as strict.
pub proof fn more_text_is_never_judged_milder(part: Seq<char>, whole: Seq<char>)
    requires
        occurs_in(part, whole),
    ensures
        ({
            let milder = lowered_by_char(part);
            let stricter = lowered_by_char(whole);
            &&& forall|r: int|
                0 <= r < rule_table().len() && (#[trigger] rule_table()[r]).is_hit(milder)
                    ==> rule_table()[r].is_hit(stricter)
            &&& verdict(milder).is_violation ==> verdict(stricter).is_violation
            &&& verdict(milder).risk_score <= verdict(stricter).risk_score
            &&& verdict(milder).suggestion.rank() <= verdict(stricter).suggestion.rank()
        }),
{
    lemma_lowered_part_occurs(part, whole);
    more_lowered_text_is_never_judged_milder(lowered_by_char(part), lowered_by_char(whole));
}

/// The verdict disregards the case of letters: messages that differ in nothing but the case of
/// ASCII letters have the same lowercase form and are judged alike.
pub proof fn verdict_disregards_letter_case(a: Seq<char>, b: Seq<char>)
    requires
        ascii_lower_text(a) == ascii_lower_text(b),
    ensures
        lowered(a) == lowered(b),
        verdict(lowered(a)) == verdict(lowered(b)),
        points_fit(lowered(a)) == points_fit(lowered(b)),
{
    lemma_plain_after_lowering(a);
    lemma_plain_after_lowering(b);
}

/// Lowering ASCII letters keeps a text plain, or not plain.
proof fn lemma_plain_after_lowering(text: Seq<char>)
    ensures
        is_plain_text(ascii_lower_text(text)) <==> is_plain_text(text),
{
    assert forall|i: int| 0 <= i < text.len() implies is_plain(#[trigger] text[i]) == is_plain(
        ascii_lower_text(text)[i],
    ) by {}
    if is_plain_text(ascii_lower_text(text)) {
        assert forall|i: int| 0 <= i < text.len() implies is_plain(#[trigger] text[i]) by {
            assert(is_plain(ascii_lower_text(text)[i]));
        }
    }
    if is_plain_text(text) {
        assert forall|i: int| 0 <= i < text.len() implies is_plain(
            #[trigger] ascii_lower_text(text)[i],
        ) by {
            assert(is_plain(text[i]));
        }
    }
}

/// `c`, with `a` to `z` taken to `A` to `Z`.
pub open spec fn ascii_upper(c: char) -> char {
    if 'a' <= c <= 'z' {
        (c as int - 32) as char
    } else {
        c
    }
}

/// A message is judged alike when all its ASCII letters are written in uppercase, and when they
/// are all written in lowercase.
pub proof fn uppercase_message_is_judged_alike(text: Seq<char>)
    ensures
        ({
            let upper = text.map_values(|c: char| ascii_upper(c));
            &&& verdict(lowered(upper)) == verdict(lowered(text))
            &&& points_fit(lowered(upper)) == points_fit(lowered(text))
        }),
        verdict(lowered(ascii_lower_text(text))) == verdict(lowered(text)),
        points_fit(lowered(ascii_lower_text(text))) == points_fit(lowered(text)),
{
    let upper = text.map_values(|c: char| ascii_upper(c));
    assert(ascii_lower_text(upper) =~= ascii_lower_text(text));
    verdict_disregards_letter_case(upper, text);
    assert(ascii_lower_text(ascii_lower_text(text)) =~= ascii_lower_text(text));
    verdict_disregards_letter_case(ascii_lower_text(text), text);
}

/// A verdict names the patterns as the rules spell them, however the message spells them.
pub proof fn matched_text_is_spelled_as_in_the_rule(text: Seq<char>, k: int)
    requires
        0 <= k < verdict(text).violations.len(),
    ensures
        exists|r: int|
            0 <= r < rule_table().len() && verdict(text).violations[k].matched_text == Some(
                joined((#[trigger] rule_table()[r]).matches(text), ", "@),
            ),
        forall|r: int, m: int|
            0 <= r < rule_table().len() && 0 <= m < rule_table()[r].matches(text).len()
                ==> rule_table()[r].patterns.contains(#[trigger] rule_table()[r].matches(text)[m]),
{
    violations_are_those_of_rules_hit(text, k);
    let pred = |p: Seq<char>| occurs_in(lowered(p), text);
    assert forall|r: int, m: int|
        0 <= r < rule_table().len() && 0 <= m < rule_table()[r].matches(
            text,
        ).len() implies rule_table()[r].patterns.contains(
        #[trigger] rule_table()[r].matches(text)[m],
    ) by {
        let rule = rule_table()[r];
        assert(rule.matches(text) == rule.patterns.filter(pred));
        assert(rule.patterns.filter(pred).contains(rule.matches(text)[m]));
        rule.patterns.lemma_filter_contains_rev(pred, rule.matches(text)[m]);
    }
}

} // verus!
