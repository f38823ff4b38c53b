//! The rule table: for each kind of violation, the patterns that give it away.

use crate::kinds::{Severity, ViolationType};
use crate::seqs::lemma_filter_keeps;
use crate::text::{contains, is_plain, lower, lowered, occurs_in};
use vstd::prelude::*;

verus! {

/// A moderation rule: a message that holds one of the patterns commits the violation.
pub struct Rule {
    pub violation_type: ViolationType,
    pub patterns: Vec<&'static str>,
    pub severity: Severity,
    pub description: &'static str,
}

/// The mathematical content of a [`Rule`].
pub struct RuleView {
    pub violation_type: ViolationType,
    pub patterns: Seq<Seq<char>>,
    pub severity: Severity,
    pub description: Seq<char>,
}

impl View for Rule {
    type V = RuleView;

    open spec fn view(&self) -> RuleView {
        RuleView {
            violation_type: self.violation_type,
            patterns: self.patterns.deep_view(),
            severity: self.severity,
            description: self.description@,
        }
    }
}

impl DeepView for Rule {
    type V = RuleView;

    open spec fn deep_view(&self) -> RuleView {
        self@
    }
}

/// Whether `pattern` is plain text without uppercase letters, so that lowering keeps it.
pub open spec fn is_folded(pattern: Seq<char>) -> bool {
    forall|i: int|
        0 <= i < pattern.len() ==> is_plain(#[trigger] pattern[i]) && !('A' <= pattern[i] <= 'Z')
}

/// The patterns among `patterns` whose lowercase forms occur in `text`, in order and as they are
/// spelled.
pub open spec fn matches_among(patterns: Seq<Seq<char>>, text: Seq<char>) -> Seq<Seq<char>> {
    patterns.filter(|p: Seq<char>| occurs_in(lowered(p), text))
}

impl RuleView {
    /// Whether every pattern of the rule is folded.
    pub open spec fn is_folded(self) -> bool {
        forall|k: int| 0 <= k < self.patterns.len() ==> is_folded(#[trigger] self.patterns[k])
    }

    /// The patterns of the rule whose lowercase forms occur in a text, in the rule's order.
    pub open spec fn matches(self, text: Seq<char>) -> Seq<Seq<char>> {
        matches_among(self.patterns, text)
    }

    /// Whether the lowercase form of some pattern of the rule occurs in a text.
    pub open spec fn is_hit(self, text: Seq<char>) -> bool {
        exists|k: int|
            0 <= k < self.patterns.len() && occurs_in(lowered(#[trigger] self.patterns[k]), text)
    }

    pub open spec fn pornography() -> RuleView {
        RuleView {
            violation_type: ViolationType::Pornography,
            patterns: seq![
                "色情"@,
                "黄色"@,
                "裸聊"@,
                "约炮"@,
                "一夜情"@,
                "性服务"@,
                "成人影片"@,
                "av女优"@,
                "苍井空"@,
            ],
            severity: Severity::High,
            description: "包含色情低俗内容"@,
        }
    }

    pub open spec fn violence() -> RuleView {
        RuleView {
            violation_type: ViolationType::Violence,
            patterns: seq![
                "杀人"@,
                "放火"@,
                "爆炸"@,
                "恐怖袭击"@,
                "黑社会"@,
                "砍人"@,
                "打群架"@,
                "贩毒"@,
            ],
            severity: Severity::High,
            description: "包含暴力血腥内容"@,
        }
    }

    pub open spec fn politics() -> RuleView {
        RuleView {
            violation_type: ViolationType::Politics,
            patterns: seq![
                "法轮功"@,
                "台独"@,
                "港独"@,
                "藏独"@,
            ],
            severity: Severity::Critical,
            description: "包含政治敏感内容"@,
        }
    }

    pub open spec fn advertising() -> RuleView {
        RuleView {
            violation_type: ViolationType::Advertising,
            patterns: seq![
                "加微信"@,
                "加qq"@,
                "扫码进群"@,
                "免费领取"@,
                "点击链接"@,
                "www."@,
                ".com"@,
                "http://"@,
                "https://"@,
            ],
            severity: Severity::Low,
            description: "包含广告推广内容"@,
        }
    }

    pub open spec fn abuse() -> RuleView {
        RuleView {
            violation_type: ViolationType::Abuse,
            patterns: seq![
                "傻逼"@,
                "草泥马"@,
                "操你妈"@,
                "白痴"@,
                "脑残"@,
                "废物"@,
                "垃圾人"@,
                "去死"@,
            ],
            severity: Severity::Medium,
            description: "包含辱骂攻击内容"@,
        }
    }

    pub open spec fn gambling() -> RuleView {
        RuleView {
            violation_type: ViolationType::Gambling,
            patterns: seq![
                "赌博"@,
                "彩票"@,
                "时时彩"@,
                "六合彩"@,
                "赌球"@,
                "老虎机"@,
                "百家乐"@,
                "炸金花"@,
            ],
            severity: Severity::High,
            description: "包含赌博相关内容"@,
        }
    }

    pub open spec fn fraud() -> RuleView {
        RuleView {
            violation_type: ViolationType::Fraud,
            patterns: seq![
                "刷单"@,
                "兼职日结"@,
                "投资回报"@,
                "稳赚不赔"@,
                "中奖"@,
                "汇款"@,
                "银行账号"@,
            ],
            severity: Severity::High,
            description: "包含诈骗欺诈内容"@,
        }
    }
}

/// The rules in force, in the order in which they are checked.
pub open spec fn rule_table() -> Seq<RuleView> {
    seq![
        RuleView::pornography(),
        RuleView::violence(),
        RuleView::politics(),
        RuleView::advertising(),
        RuleView::abuse(),
        RuleView::gambling(),
        RuleView::fraud(),
    ]
}

impl Rule {
    fn pornography() -> (rule: Rule)
        ensures
            rule@ == RuleView::pornography(),
    {
        let rule = Rule {
            violation_type: ViolationType::Pornography,
            patterns: vec![
                "色情",
                "黄色",
                "裸聊",
                "约炮",
                "一夜情",
                "性服务",
                "成人影片",
                "av女优",
                "苍井空",
            ],
            severity: Severity::High,
            description: "包含色情低俗内容",
        };
        assert(rule.patterns.deep_view() =~= RuleView::pornography().patterns);
        rule
    }

    fn violence() -> (rule: Rule)
        ensures
            rule@ == RuleView::violence(),
    {
        let rule = Rule {
            violation_type: ViolationType::Violence,
            patterns: vec![
                "杀人",
                "放火",
                "爆炸",
                "恐怖袭击",
                "黑社会",
                "砍人",
                "打群架",
                "贩毒",
            ],
            severity: Severity::High,
            description: "包含暴力血腥内容",
        };
        assert(rule.patterns.deep_view() =~= RuleView::violence().patterns);
        rule
    }

    fn politics() -> (rule: Rule)
        ensures
            rule@ == RuleView::politics(),
    {
        let rule = Rule {
            violation_type: ViolationType::Politics,
            patterns: vec![
                "法轮功",
                "台独",
                "港独",
                "藏独",
            ],
            severity: Severity::Critical,
            description: "包含政治敏感内容",
        };
        assert(rule.patterns.deep_view() =~= RuleView::politics().patterns);
        rule
    }

    fn advertising() -> (rule: Rule)
        ensures
            rule@ == RuleView::advertising(),
    {
        let rule = Rule {
            violation_type: ViolationType::Advertising,
            patterns: vec![
                "加微信",
                "加qq",
                "扫码进群",
                "免费领取",
                "点击链接",
                "www.",
                ".com",
                "http://",
                "https://",
            ],
            severity: Severity::Low,
            description: "包含广告推广内容",
        };
        assert(rule.patterns.deep_view() =~= RuleView::advertising().patterns);
        rule
    }

    fn abuse() -> (rule: Rule)
        ensures
            rule@ == RuleView::abuse(),
    {
        let rule = Rule {
            violation_type: ViolationType::Abuse,
            patterns: vec![
                "傻逼",
                "草泥马",
                "操你妈",
                "白痴",
                "脑残",
                "废物",
                "垃圾人",
                "去死",
            ],
            severity: Severity::Medium,
            description: "包含辱骂攻击内容",
        };
        assert(rule.patterns.deep_view() =~= RuleView::abuse().patterns);
        rule
    }

    fn gambling() -> (rule: Rule)
        ensures
            rule@ == RuleView::gambling(),
    {
        let rule = Rule {
            violation_type: ViolationType::Gambling,
            patterns: vec![
                "赌博",
                "彩票",
                "时时彩",
                "六合彩",
                "赌球",
                "老虎机",
                "百家乐",
                "炸金花",
            ],
            severity: Severity::High,
            description: "包含赌博相关内容",
        };
        assert(rule.patterns.deep_view() =~= RuleView::gambling().patterns);
        rule
    }

    fn fraud() -> (rule: Rule)
        ensures
            rule@ == RuleView::fraud(),
    {
        let rule = Rule {
            violation_type: ViolationType::Fraud,
            patterns: vec![
                "刷单",
                "兼职日结",
                "投资回报",
                "稳赚不赔",
                "中奖",
                "汇款",
                "银行账号",
            ],
            severity: Severity::High,
            description: "包含诈骗欺诈内容",
        };
        assert(rule.patterns.deep_view() =~= RuleView::fraud().patterns);
        rule
    }
}

/// A folded pattern is its own lowercase form.
pub proof fn lemma_folded_is_lowered(pattern: Seq<char>)
    requires
        is_folded(pattern),
    ensures
        lowered(pattern) == pattern,
{
    assert(lowered(pattern) =~= pattern);
}

proof fn lemma_pornography_is_folded()
    ensures
        RuleView::pornography().is_folded(),
{
    reveal_strlit("色情");
    reveal_strlit("黄色");
    reveal_strlit("裸聊");
    reveal_strlit("约炮");
    reveal_strlit("一夜情");
    reveal_strlit("性服务");
    reveal_strlit("成人影片");
    reveal_strlit("av女优");
    reveal_strlit("苍井空");
}

proof fn lemma_violence_is_folded()
    ensures
        RuleView::violence().is_folded(),
{
    reveal_strlit("杀人");
    reveal_strlit("放火");
    reveal_strlit("爆炸");
    reveal_strlit("恐怖袭击");
    reveal_strlit("黑社会");
    reveal_strlit("砍人");
    reveal_strlit("打群架");
    reveal_strlit("贩毒");
}

proof fn lemma_politics_is_folded()
    ensures
        RuleView::politics().is_folded(),
{
    reveal_strlit("法轮功");
    reveal_strlit("台独");
    reveal_strlit("港独");
    reveal_strlit("藏独");
}

proof fn lemma_advertising_is_folded()
    ensures
        RuleView::advertising().is_folded(),
{
    reveal_strlit("加微信");
    reveal_strlit("加qq");
    reveal_strlit("扫码进群");
    reveal_strlit("免费领取");
    reveal_strlit("点击链接");
    reveal_strlit("www.");
    reveal_strlit(".com");
    reveal_strlit("http://");
    reveal_strlit("https://");
}

proof fn lemma_abuse_is_folded()
    ensures
        RuleView::abuse().is_folded(),
{
    reveal_strlit("傻逼");
    reveal_strlit("草泥马");
    reveal_strlit("操你妈");
    reveal_strlit("白痴");
    reveal_strlit("脑残");
    reveal_strlit("废物");
    reveal_strlit("垃圾人");
    reveal_strlit("去死");
}

proof fn lemma_gambling_is_folded()
    ensures
        RuleView::gambling().is_folded(),
{
    reveal_strlit("赌博");
    reveal_strlit("彩票");
    reveal_strlit("时时彩");
    reveal_strlit("六合彩");
    reveal_strlit("赌球");
    reveal_strlit("老虎机");
    reveal_strlit("百家乐");
    reveal_strlit("炸金花");
}

proof fn lemma_fraud_is_folded()
    ensures
        RuleView::fraud().is_folded(),
{
    reveal_strlit("刷单");
    reveal_strlit("兼职日结");
    reveal_strlit("投资回报");
    reveal_strlit("稳赚不赔");
    reveal_strlit("中奖");
    reveal_strlit("汇款");
    reveal_strlit("银行账号");
}

/// The rule table holds only folded patterns.
pub proof fn lemma_table_is_folded()
    ensures
        forall|r: int| 0 <= r < rule_table().len() ==> (#[trigger] rule_table()[r]).is_folded(),
{
    lemma_pornography_is_folded();
    lemma_violence_is_folded();
    lemma_politics_is_folded();
    lemma_advertising_is_folded();
    lemma_abuse_is_folded();
    lemma_gambling_is_folded();
    lemma_fraud_is_folded();
}

/// The rule table spells every pattern in lowercase.
pub proof fn patterns_are_spelled_in_lowercase()
    ensures
        forall|r: int, k: int|
            0 <= r < rule_table().len() && 0 <= k < rule_table()[r].patterns.len() ==> lowered(
                #[trigger] rule_table()[r].patterns[k],
            ) == rule_table()[r].patterns[k],
{
    lemma_table_is_folded();
    assert forall|r: int, k: int|
        0 <= r < rule_table().len() && 0 <= k < rule_table()[r].patterns.len() implies lowered(
        #[trigger] rule_table()[r].patterns[k],
    ) == rule_table()[r].patterns[k] by {
        assert(rule_table()[r].is_folded());
        lemma_folded_is_lowered(rule_table()[r].patterns[k]);
    }
}

/// Appending a pattern appends it to the matches where it occurs.
pub proof fn lemma_matches_push(patterns: Seq<Seq<char>>, pattern: Seq<char>, text: Seq<char>)
    ensures
        matches_among(patterns.push(pattern), text) == if occurs_in(
            lowered(pattern),
            text,
        ) {
            matches_among(patterns, text).push(pattern)
        } else {
            matches_among(patterns, text)
        },
{
    reveal(Seq::filter);
    assert(patterns.push(pattern).drop_last() =~= patterns);
}

/// The rule is hit exactly when it has a match.
pub proof fn lemma_hit_iff_matches(rule: RuleView, text: Seq<char>)
    ensures
        rule.is_hit(text) <==> rule.matches(text).len() > 0,
{
    let pred = |p: Seq<char>| occurs_in(lowered(p), text);
    lemma_filter_keeps(rule.patterns, pred);
    if rule.is_hit(text) {
        let k = choose|k: int|
            0 <= k < rule.patterns.len() && occurs_in(lowered(#[trigger] rule.patterns[k]), text);
        assert(pred(rule.patterns[k]));
        assert(rule.matches(text).contains(rule.patterns[k]));
    }
    if rule.matches(text).len() > 0 {
        let hit = rule.matches(text)[0];
        assert(pred(hit));
        rule.patterns.lemma_filter_contains_rev(pred, hit);
        let k = choose|k: int| 0 <= k < rule.patterns.len() && rule.patterns[k] == hit;
        assert(occurs_in(lowered(rule.patterns[k]), text));
    }
}

impl Rule {
    /// The patterns of the rule whose lowercase forms occur in a text, in the rule's order and as
    /// they are spelled.
    pub fn matched_patterns(&self, text: &str) -> (matched: Vec<String>)
        ensures
            matched.deep_view() == self@.matches(text@),
            matched@.len() > 0 <==> self@.is_hit(text@),
    {
        let mut matched: Vec<String> = Vec::new();
        let n: usize = self.patterns.len();
        let mut i: usize = 0;
        proof {
            reveal(Seq::filter);
            assert(matched.deep_view() =~= matches_among(self@.patterns.take(0), text@));
        }
        while i < n
            invariant
                n == self.patterns@.len(),
                i <= n,
                matched.deep_view() == matches_among(self@.patterns.take(i as int), text@),
            decreases n - i,
        {
            let pattern: &'static str = self.patterns[i];
            let folded = lower(pattern);
            proof {
                assert(self@.patterns[i as int] == pattern@);
                assert(self@.patterns.take(i + 1) =~= self@.patterns.take(i as int).push(pattern@));
                lemma_matches_push(self@.patterns.take(i as int), pattern@, text@);
            }
            let ghost before = matched.deep_view();
            if contains(text, folded.as_str()) {
                matched.push(pattern.to_owned());
                assert(matched.deep_view() =~= before.push(pattern@));
            }
            i += 1;
        }
        proof {
            assert(self@.patterns.take(n as int) =~= self@.patterns);
            lemma_hit_iff_matches(self@, text@);
            assert(matched.deep_view().len() == matched@.len());
        }
        matched
    }
}

/// The rules in force.
pub fn get_rules() -> (rules: Vec<Rule>)
    ensures
        rules.deep_view() == rule_table(),
{
    let rules = vec![
        Rule::pornography(),
        Rule::violence(),
        Rule::politics(),
        Rule::advertising(),
        Rule::abuse(),
        Rule::gambling(),
        Rule::fraud(),
    ];
    assert(rules.deep_view() =~= rule_table());
    rules
}

} // verus!
