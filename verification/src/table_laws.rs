//! Which words lead to which verdict.

use crate::kinds::{Severity, ViolationType};
use crate::moderation::{verdict, ModerationResultView};
use crate::moderation_laws::{every_rule_hit_is_reported, violations_are_those_of_rules_hit};
use crate::rules::{matches_among, patterns_are_spelled_in_lowercase, rule_table, RuleView};
use crate::score_laws::place;
use crate::text::{joined, lowered, occurs_in};
use vstd::prelude::*;

verus! {

/// Whether a verdict reports a violation of the given kind.
pub open spec fn reports(result: ModerationResultView, kind: ViolationType) -> bool {
    exists|k: int|
        0 <= k < result.violations.len() && (#[trigger] result.violations[k]).violation_type
            == kind
}

/// A kind is reported exactly when its rule is hit, and as the violation of that rule.
pub proof fn lemma_reported_iff_hit(text: Seq<char>, r: int)
    requires
        0 <= r < rule_table().len(),
    ensures
        reports(verdict(text), rule_table()[r].violation_type) <==> rule_table()[r].is_hit(text),
        forall|k: int|
            0 <= k < verdict(text).violations.len() && (
            #[trigger] verdict(text).violations[k]).violation_type
                == rule_table()[r].violation_type ==> verdict(text).violations[k]
                == rule_table()[r].violation(text),
{
    let kind = rule_table()[r].violation_type;
    let found = verdict(text).violations;
    assert forall|k: int|
        0 <= k < found.len() && (#[trigger] found[k]).violation_type == kind implies found[k]
        == rule_table()[r].violation(text) && rule_table()[r].is_hit(text) by {
        violations_are_those_of_rules_hit(text, k);
        let other = choose|other: int|
            0 <= other < rule_table().len() && (#[trigger] rule_table()[other]).is_hit(text)
                && found[k] == rule_table()[other].violation(text);
        assert(rule_table()[other].violation_type == kind);
        assert(other == r);
    }
    if rule_table()[r].is_hit(text) {
        every_rule_hit_is_reported(text, r);
        let k = choose|k: int|
            0 <= k < found.len() && found[k] == rule_table()[r].violation(text);
        assert(found[k].violation_type == kind);
    }
}

/// A lowercased text is reported for pornography exactly when it holds one of the words for it,
/// and the report gives the severity, the description and the words found.
pub proof fn pornography_is_found(text: Seq<char>)
    ensures
        reports(verdict(text), ViolationType::Pornography) <==> {
            ||| occurs_in("色情"@, text)
            ||| occurs_in("黄色"@, text)
            ||| occurs_in("裸聊"@, text)
            ||| occurs_in("约炮"@, text)
            ||| occurs_in("一夜情"@, text)
            ||| occurs_in("性服务"@, text)
            ||| occurs_in("成人影片"@, text)
            ||| occurs_in("av女优"@, text)
            ||| occurs_in("苍井空"@, text)
        },
        forall|k: int|
            0 <= k < verdict(text).violations.len() && (
            #[trigger] verdict(text).violations[k]).violation_type
                == ViolationType::Pornography ==> {
                let violation = verdict(text).violations[k];
                &&& violation.severity == Severity::High
                &&& violation.description == "包含色情低俗内容"@
                &&& violation.matched_text == Some(
                    joined(
                        matches_among(
                            seq![
                                "色情"@,
                                "黄色"@,
                                "裸聊"@,
                                "约炮"@,
                                "一夜情"@,
                                "性服务"@,
                                "成人影片"@,
                                "av女优"@,
                                "苍井空"@,
                            ],
                            text,
                        ),
                        ", "@,
                    ),
                )
            },
{
    let rule = RuleView::pornography();
    assert(rule_table()[0] == rule);
    lemma_reported_iff_hit(text, 0);
    patterns_are_spelled_in_lowercase();
    assert forall|k: int| 0 <= k < rule.patterns.len() implies lowered(
        #[trigger] rule.patterns[k],
    ) == rule.patterns[k] by {
        assert(rule_table()[0].patterns[k] == rule.patterns[k]);
    }
    assert(rule.patterns[0] == "色情"@);
    assert(rule.patterns[1] == "黄色"@);
    assert(rule.patterns[2] == "裸聊"@);
    assert(rule.patterns[3] == "约炮"@);
    assert(rule.patterns[4] == "一夜情"@);
    assert(rule.patterns[5] == "性服务"@);
    assert(rule.patterns[6] == "成人影片"@);
    assert(rule.patterns[7] == "av女优"@);
    assert(rule.patterns[8] == "苍井空"@);
    if occurs_in("色情"@, text) {
        assert(occurs_in(lowered(rule.patterns[0]), text));
    }
    if occurs_in("黄色"@, text) {
        assert(occurs_in(lowered(rule.patterns[1]), text));
    }
    if occurs_in("裸聊"@, text) {
        assert(occurs_in(lowered(rule.patterns[2]), text));
    }
    if occurs_in("约炮"@, text) {
        assert(occurs_in(lowered(rule.patterns[3]), text));
    }
    if occurs_in("一夜情"@, text) {
        assert(occurs_in(lowered(rule.patterns[4]), text));
    }
    if occurs_in("性服务"@, text) {
        assert(occurs_in(lowered(rule.patterns[5]), text));
    }
    if occurs_in("成人影片"@, text) {
        assert(occurs_in(lowered(rule.patterns[6]), text));
    }
    if occurs_in("av女优"@, text) {
        assert(occurs_in(lowered(rule.patterns[7]), text));
    }
    if occurs_in("苍井空"@, text) {
        assert(occurs_in(lowered(rule.patterns[8]), text));
    }
    if rule.is_hit(text) {
        let k = choose|k: int|
            0 <= k < rule.patterns.len() && occurs_in(lowered(#[trigger] rule.patterns[k]), text);
        assert(lowered(rule.patterns[k]) == rule.patterns[k]);
    }
}

/// A lowercased text is reported for violence exactly when it holds one of the words for it,
/// and the report gives the severity, the description and the words found.
pub proof fn violence_is_found(text: Seq<char>)
    ensures
        reports(verdict(text), ViolationType::Violence) <==> {
            ||| occurs_in("杀人"@, text)
            ||| occurs_in("放火"@, text)
            ||| occurs_in("爆炸"@, text)
            ||| occurs_in("恐怖袭击"@, text)
            ||| occurs_in("黑社会"@, text)
            ||| occurs_in("砍人"@, text)
            ||| occurs_in("打群架"@, text)
            ||| occurs_in("贩毒"@, text)
        },
        forall|k: int|
            0 <= k < verdict(text).violations.len() && (
            #[trigger] verdict(text).violations[k]).violation_type
                == ViolationType::Violence ==> {
                let violation = verdict(text).violations[k];
                &&& violation.severity == Severity::High
                &&& violation.description == "包含暴力血腥内容"@
                &&& violation.matched_text == Some(
                    joined(
                        matches_among(
                            seq![
                                "杀人"@,
                                "放火"@,
                                "爆炸"@,
                                "恐怖袭击"@,
                                "黑社会"@,
                                "砍人"@,
                                "打群架"@,
                                "贩毒"@,
                            ],
                            text,
                        ),
                        ", "@,
                    ),
                )
            },
{
    let rule = RuleView::violence();
    assert(rule_table()[1] == rule);
    lemma_reported_iff_hit(text, 1);
    patterns_are_spelled_in_lowercase();
    assert forall|k: int| 0 <= k < rule.patterns.len() implies lowered(
        #[trigger] rule.patterns[k],
    ) == rule.patterns[k] by {
        assert(rule_table()[1].patterns[k] == rule.patterns[k]);
    }
    assert(rule.patterns[0] == "杀人"@);
    assert(rule.patterns[1] == "放火"@);
    assert(rule.patterns[2] == "爆炸"@);
    assert(rule.patterns[3] == "恐怖袭击"@);
    assert(rule.patterns[4] == "黑社会"@);
    assert(rule.patterns[5] == "砍人"@);
    assert(rule.patterns[6] == "打群架"@);
    assert(rule.patterns[7] == "贩毒"@);
    if occurs_in("杀人"@, text) {
        assert(occurs_in(lowered(rule.patterns[0]), text));
    }
    if occurs_in("放火"@, text) {
        assert(occurs_in(lowered(rule.patterns[1]), text));
    }
    if occurs_in("爆炸"@, text) {
        assert(occurs_in(lowered(rule.patterns[2]), text));
    }
    if occurs_in("恐怖袭击"@, text) {
        assert(occurs_in(lowered(rule.patterns[3]), text));
    }
    if occurs_in("黑社会"@, text) {
        assert(occurs_in(lowered(rule.patterns[4]), text));
    }
    if occurs_in("砍人"@, text) {
        assert(occurs_in(lowered(rule.patterns[5]), text));
    }
    if occurs_in("打群架"@, text) {
        assert(occurs_in(lowered(rule.patterns[6]), text));
    }
    if occurs_in("贩毒"@, text) {
        assert(occurs_in(lowered(rule.patterns[7]), text));
    }
    if rule.is_hit(text) {
        let k = choose|k: int|
            0 <= k < rule.patterns.len() && occurs_in(lowered(#[trigger] rule.patterns[k]), text);
        assert(lowered(rule.patterns[k]) == rule.patterns[k]);
    }
}

/// A lowercased text is reported for politics exactly when it holds one of the words for it,
/// and the report gives the severity, the description and the words found.
pub proof fn politics_is_found(text: Seq<char>)
    ensures
        reports(verdict(text), ViolationType::Politics) <==> {
            ||| occurs_in("法轮功"@, text)
            ||| occurs_in("台独"@, text)
            ||| occurs_in("港独"@, text)
            ||| occurs_in("藏独"@, text)
        },
        forall|k: int|
            0 <= k < verdict(text).violations.len() && (
            #[trigger] verdict(text).violations[k]).violation_type
                == ViolationType::Politics ==> {
                let violation = verdict(text).violations[k];
                &&& violation.severity == Severity::Critical
                &&& violation.description == "包含政治敏感内容"@
                &&& violation.matched_text == Some(
                    joined(
                        matches_among(
                            seq![
                                "法轮功"@,
                                "台独"@,
                                "港独"@,
                                "藏独"@,
                            ],
                            text,
                        ),
                        ", "@,
                    ),
                )
            },
{
    let rule = RuleView::politics();
    assert(rule_table()[2] == rule);
    lemma_reported_iff_hit(text, 2);
    patterns_are_spelled_in_lowercase();
    assert forall|k: int| 0 <= k < rule.patterns.len() implies lowered(
        #[trigger] rule.patterns[k],
    ) == rule.patterns[k] by {
        assert(rule_table()[2].patterns[k] == rule.patterns[k]);
    }
    assert(rule.patterns[0] == "法轮功"@);
    assert(rule.patterns[1] == "台独"@);
    assert(rule.patterns[2] == "港独"@);
    assert(rule.patterns[3] == "藏独"@);
    if occurs_in("法轮功"@, text) {
        assert(occurs_in(lowered(rule.patterns[0]), text));
    }
    if occurs_in("台独"@, text) {
        assert(occurs_in(lowered(rule.patterns[1]), text));
    }
    if occurs_in("港独"@, text) {
        assert(occurs_in(lowered(rule.patterns[2]), text));
    }
    if occurs_in("藏独"@, text) {
        assert(occurs_in(lowered(rule.patterns[3]), text));
    }
    if rule.is_hit(text) {
        let k = choose|k: int|
            0 <= k < rule.patterns.len() && occurs_in(lowered(#[trigger] rule.patterns[k]), text);
        assert(lowered(rule.patterns[k]) == rule.patterns[k]);
    }
}

/// A lowercased text is reported for advertising exactly when it holds one of the words for it,
/// and the report gives the severity, the description and the words found.
pub proof fn advertising_is_found(text: Seq<char>)
    ensures
        reports(verdict(text), ViolationType::Advertising) <==> {
            ||| occurs_in("加微信"@, text)
            ||| occurs_in("加qq"@, text)
            ||| occurs_in("扫码进群"@, text)
            ||| occurs_in("免费领取"@, text)
            ||| occurs_in("点击链接"@, text)
            ||| occurs_in("www."@, text)
            ||| occurs_in(".com"@, text)
            ||| occurs_in("http://"@, text)
            ||| occurs_in("https://"@, text)
        },
        forall|k: int|
            0 <= k < verdict(text).violations.len() && (
            #[trigger] verdict(text).violations[k]).violation_type
                == ViolationType::Advertising ==> {
                let violation = verdict(text).violations[k];
                &&& violation.severity == Severity::Low
                &&& violation.description == "包含广告推广内容"@
                &&& violation.matched_text == Some(
                    joined(
                        matches_among(
                            seq![
                                "加微信"@,
                                "加qq"@,
                                "扫码进群"@,
                                "免费领取"@,
                                "点击链接"@,
                                "www."@,
                                ".com"@,
                                "http://"@,
                                "https://"@,
                            ],
                            text,
                        ),
                        ", "@,
                    ),
                )
            },
{
    let rule = RuleView::advertising();
    assert(rule_table()[3] == rule);
    lemma_reported_iff_hit(text, 3);
    patterns_are_spelled_in_lowercase();
    assert forall|k: int| 0 <= k < rule.patterns.len() implies lowered(
        #[trigger] rule.patterns[k],
    ) == rule.patterns[k] by {
        assert(rule_table()[3].patterns[k] == rule.patterns[k]);
    }
    assert(rule.patterns[0] == "加微信"@);
    assert(rule.patterns[1] == "加qq"@);
    assert(rule.patterns[2] == "扫码进群"@);
    assert(rule.patterns[3] == "免费领取"@);
    assert(rule.patterns[4] == "点击链接"@);
    assert(rule.patterns[5] == "www."@);
    assert(rule.patterns[6] == ".com"@);
    assert(rule.patterns[7] == "http://"@);
    assert(rule.patterns[8] == "https://"@);
    if occurs_in("加微信"@, text) {
        assert(occurs_in(lowered(rule.patterns[0]), text));
    }
    if occurs_in("加qq"@, text) {
        assert(occurs_in(lowered(rule.patterns[1]), text));
    }
    if occurs_in("扫码进群"@, text) {
        assert(occurs_in(lowered(rule.patterns[2]), text));
    }
    if occurs_in("免费领取"@, text) {
        assert(occurs_in(lowered(rule.patterns[3]), text));
    }
    if occurs_in("点击链接"@, text) {
        assert(occurs_in(lowered(rule.patterns[4]), text));
    }
    if occurs_in("www."@, text) {
        assert(occurs_in(lowered(rule.patterns[5]), text));
    }
    if occurs_in(".com"@, text) {
        assert(occurs_in(lowered(rule.patterns[6]), text));
    }
    if occurs_in("http://"@, text) {
        assert(occurs_in(lowered(rule.patterns[7]), text));
    }
    if occurs_in("https://"@, text) {
        assert(occurs_in(lowered(rule.patterns[8]), text));
    }
    if rule.is_hit(text) {
        let k = choose|k: int|
            0 <= k < rule.patterns.len() && occurs_in(lowered(#[trigger] rule.patterns[k]), text);
        assert(lowered(rule.patterns[k]) == rule.patterns[k]);
    }
}

/// A lowercased text is reported for abuse exactly when it holds one of the words for it,
/// and the report gives the severity, the description and the words found.
pub proof fn abuse_is_found(text: Seq<char>)
    ensures
        reports(verdict(text), ViolationType::Abuse) <==> {
            ||| occurs_in("傻逼"@, text)
            ||| occurs_in("草泥马"@, text)
            ||| occurs_in("操你妈"@, text)
            ||| occurs_in("白痴"@, text)
            ||| occurs_in("脑残"@, text)
            ||| occurs_in("废物"@, text)
            ||| occurs_in("垃圾人"@, text)
            ||| occurs_in("去死"@, text)
        },
        forall|k: int|
            0 <= k < verdict(text).violations.len() && (
            #[trigger] verdict(text).violations[k]).violation_type
                == ViolationType::Abuse ==> {
                let violation = verdict(text).violations[k];
                &&& violation.severity == Severity::Medium
                &&& violation.description == "包含辱骂攻击内容"@
                &&& violation.matched_text == Some(
                    joined(
                        matches_among(
                            seq![
                                "傻逼"@,
                                "草泥马"@,
                                "操你妈"@,
                                "白痴"@,
                                "脑残"@,
                                "废物"@,
                                "垃圾人"@,
                                "去死"@,
                            ],
                            text,
                        ),
                        ", "@,
                    ),
                )
            },
{
    let rule = RuleView::abuse();
    assert(rule_table()[4] == rule);
    lemma_reported_iff_hit(text, 4);
    patterns_are_spelled_in_lowercase();
    assert forall|k: int| 0 <= k < rule.patterns.len() implies lowered(
        #[trigger] rule.patterns[k],
    ) == rule.patterns[k] by {
        assert(rule_table()[4].patterns[k] == rule.patterns[k]);
    }
    assert(rule.patterns[0] == "傻逼"@);
    assert(rule.patterns[1] == "草泥马"@);
    assert(rule.patterns[2] == "操你妈"@);
    assert(rule.patterns[3] == "白痴"@);
    assert(rule.patterns[4] == "脑残"@);
    assert(rule.patterns[5] == "废物"@);
    assert(rule.patterns[6] == "垃圾人"@);
    assert(rule.patterns[7] == "去死"@);
    if occurs_in("傻逼"@, text) {
        assert(occurs_in(lowered(rule.patterns[0]), text));
    }
    if occurs_in("草泥马"@, text) {
        assert(occurs_in(lowered(rule.patterns[1]), text));
    }
    if occurs_in("操你妈"@, text) {
        assert(occurs_in(lowered(rule.patterns[2]), text));
    }
    if occurs_in("白痴"@, text) {
        assert(occurs_in(lowered(rule.patterns[3]), text));
    }
    if occurs_in("脑残"@, text) {
        assert(occurs_in(lowered(rule.patterns[4]), text));
    }
    if occurs_in("废物"@, text) {
        assert(occurs_in(lowered(rule.patterns[5]), text));
    }
    if occurs_in("垃圾人"@, text) {
        assert(occurs_in(lowered(rule.patterns[6]), text));
    }
    if occurs_in("去死"@, text) {
        assert(occurs_in(lowered(rule.patterns[7]), text));
    }
    if rule.is_hit(text) {
        let k = choose|k: int|
            0 <= k < rule.patterns.len() && occurs_in(lowered(#[trigger] rule.patterns[k]), text);
        assert(lowered(rule.patterns[k]) == rule.patterns[k]);
    }
}

/// A lowercased text is reported for gambling exactly when it holds one of the words for it,
/// and the report gives the severity, the description and the words found.
pub proof fn gambling_is_found(text: Seq<char>)
    ensures
        reports(verdict(text), ViolationType::Gambling) <==> {
            ||| occurs_in("赌博"@, text)
            ||| occurs_in("彩票"@, text)
            ||| occurs_in("时时彩"@, text)
            ||| occurs_in("六合彩"@, text)
            ||| occurs_in("赌球"@, text)
            ||| occurs_in("老虎机"@, text)
            ||| occurs_in("百家乐"@, text)
            ||| occurs_in("炸金花"@, text)
        },
        forall|k: int|
            0 <= k < verdict(text).violations.len() && (
            #[trigger] verdict(text).violations[k]).violation_type
                == ViolationType::Gambling ==> {
                let violation = verdict(text).violations[k];
                &&& violation.severity == Severity::High
                &&& violation.description == "包含赌博相关内容"@
                &&& violation.matched_text == Some(
                    joined(
                        matches_among(
                            seq![
                                "赌博"@,
                                "彩票"@,
                                "时时彩"@,
                                "六合彩"@,
                                "赌球"@,
                                "老虎机"@,
                                "百家乐"@,
                                "炸金花"@,
                            ],
                            text,
                        ),
                        ", "@,
                    ),
                )
            },
{
    let rule = RuleView::gambling();
    assert(rule_table()[5] == rule);
    lemma_reported_iff_hit(text, 5);
    patterns_are_spelled_in_lowercase();
    assert forall|k: int| 0 <= k < rule.patterns.len() implies lowered(
        #[trigger] rule.patterns[k],
    ) == rule.patterns[k] by {
        assert(rule_table()[5].patterns[k] == rule.patterns[k]);
    }
    assert(rule.patterns[0] == "赌博"@);
    assert(rule.patterns[1] == "彩票"@);
    assert(rule.patterns[2] == "时时彩"@);
    assert(rule.patterns[3] == "六合彩"@);
    assert(rule.patterns[4] == "赌球"@);
    assert(rule.patterns[5] == "老虎机"@);
    assert(rule.patterns[6] == "百家乐"@);
    assert(rule.patterns[7] == "炸金花"@);
    if occurs_in("赌博"@, text) {
        assert(occurs_in(lowered(rule.patterns[0]), text));
    }
    if occurs_in("彩票"@, text) {
        assert(occurs_in(lowered(rule.patterns[1]), text));
    }
    if occurs_in("时时彩"@, text) {
        assert(occurs_in(lowered(rule.patterns[2]), text));
    }
    if occurs_in("六合彩"@, text) {
        assert(occurs_in(lowered(rule.patterns[3]), text));
    }
    if occurs_in("赌球"@, text) {
        assert(occurs_in(lowered(rule.patterns[4]), text));
    }
    if occurs_in("老虎机"@, text) {
        assert(occurs_in(lowered(rule.patterns[5]), text));
    }
    if occurs_in("百家乐"@, text) {
        assert(occurs_in(lowered(rule.patterns[6]), text));
    }
    if occurs_in("炸金花"@, text) {
        assert(occurs_in(lowered(rule.patterns[7]), text));
    }
    if rule.is_hit(text) {
        let k = choose|k: int|
            0 <= k < rule.patterns.len() && occurs_in(lowered(#[trigger] rule.patterns[k]), text);
        assert(lowered(rule.patterns[k]) == rule.patterns[k]);
    }
}

/// A lowercased text is reported for fraud exactly when it holds one of the words for it,
/// and the report gives the severity, the description and the words found.
pub proof fn fraud_is_found(text: Seq<char>)
    ensures
        reports(verdict(text), ViolationType::Fraud) <==> {
            ||| occurs_in("刷单"@, text)
            ||| occurs_in("兼职日结"@, text)
            ||| occurs_in("投资回报"@, text)
            ||| occurs_in("稳赚不赔"@, text)
            ||| occurs_in("中奖"@, text)
            ||| occurs_in("汇款"@, text)
            ||| occurs_in("银行账号"@, text)
        },
        forall|k: int|
            0 <= k < verdict(text).violations.len() && (
            #[trigger] verdict(text).violations[k]).violation_type
                == ViolationType::Fraud ==> {
                let violation = verdict(text).violations[k];
                &&& violation.severity == Severity::High
                &&& violation.description == "包含诈骗欺诈内容"@
                &&& violation.matched_text == Some(
                    joined(
                        matches_among(
                            seq![
                                "刷单"@,
                                "兼职日结"@,
                                "投资回报"@,
                                "稳赚不赔"@,
                                "中奖"@,
                                "汇款"@,
                                "银行账号"@,
                            ],
                            text,
                        ),
                        ", "@,
                    ),
                )
            },
{
    let rule = RuleView::fraud();
    assert(rule_table()[6] == rule);
    lemma_reported_iff_hit(text, 6);
    patterns_are_spelled_in_lowercase();
    assert forall|k: int| 0 <= k < rule.patterns.len() implies lowered(
        #[trigger] rule.patterns[k],
    ) == rule.patterns[k] by {
        assert(rule_table()[6].patterns[k] == rule.patterns[k]);
    }
    assert(rule.patterns[0] == "刷单"@);
    assert(rule.patterns[1] == "兼职日结"@);
    assert(rule.patterns[2] == "投资回报"@);
    assert(rule.patterns[3] == "稳赚不赔"@);
    assert(rule.patterns[4] == "中奖"@);
    assert(rule.patterns[5] == "汇款"@);
    assert(rule.patterns[6] == "银行账号"@);
    if occurs_in("刷单"@, text) {
        assert(occurs_in(lowered(rule.patterns[0]), text));
    }
    if occurs_in("兼职日结"@, text) {
        assert(occurs_in(lowered(rule.patterns[1]), text));
    }
    if occurs_in("投资回报"@, text) {
        assert(occurs_in(lowered(rule.patterns[2]), text));
    }
    if occurs_in("稳赚不赔"@, text) {
        assert(occurs_in(lowered(rule.patterns[3]), text));
    }
    if occurs_in("中奖"@, text) {
        assert(occurs_in(lowered(rule.patterns[4]), text));
    }
    if occurs_in("汇款"@, text) {
        assert(occurs_in(lowered(rule.patterns[5]), text));
    }
    if occurs_in("银行账号"@, text) {
        assert(occurs_in(lowered(rule.patterns[6]), text));
    }
    if rule.is_hit(text) {
        let k = choose|k: int|
            0 <= k < rule.patterns.len() && occurs_in(lowered(#[trigger] rule.patterns[k]), text);
        assert(lowered(rule.patterns[k]) == rule.patterns[k]);
    }
}

/// There are seven rules, one for each kind but the last, in the order of the kinds. The rule for
/// politics is of critical severity, those for advertising and abuse are of low and medium
/// severity, and the others are of high severity.
pub proof fn table_has_one_rule_for_each_kind(r: int)
    requires
        0 <= r < rule_table().len(),
    ensures
        rule_table().len() == 7,
        place(rule_table()[r].violation_type) == r,
        rule_table()[r].severity == Severity::Critical <==> rule_table()[r].violation_type
            == ViolationType::Politics,
        rule_table()[r].severity == Severity::Low <==> rule_table()[r].violation_type
            == ViolationType::Advertising,
        rule_table()[r].severity == Severity::Medium <==> rule_table()[r].violation_type
            == ViolationType::Abuse,
{
}

} // verus!
