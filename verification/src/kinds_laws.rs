//! The names and the weights of the kinds of violation, severities and suggestions.

use crate::kinds::{ModerationSuggestion, Severity, ViolationType};
use vstd::prelude::*;

verus! {

/// Each machine-readable name stands for one kind of violation.
pub proof fn kind_is_known_by_its_code(kind: ViolationType)
    ensures
        kind.code() == "pornography"@ <==> kind == ViolationType::Pornography,
        kind.code() == "violence"@ <==> kind == ViolationType::Violence,
        kind.code() == "politics"@ <==> kind == ViolationType::Politics,
        kind.code() == "advertising"@ <==> kind == ViolationType::Advertising,
        kind.code() == "abuse"@ <==> kind == ViolationType::Abuse,
        kind.code() == "gambling"@ <==> kind == ViolationType::Gambling,
        kind.code() == "fraud"@ <==> kind == ViolationType::Fraud,
        kind.code() == "other"@ <==> kind == ViolationType::Other,
{
    reveal_strlit("pornography");
    reveal_strlit("violence");
    reveal_strlit("politics");
    reveal_strlit("advertising");
    reveal_strlit("abuse");
    reveal_strlit("gambling");
    reveal_strlit("fraud");
    reveal_strlit("other");
    assert("pornography"@.len() == 11 && "pornography"@[0] == 'p');
    assert("violence"@.len() == 8 && "violence"@[0] == 'v');
    assert("politics"@.len() == 8 && "politics"@[0] == 'p');
    assert("advertising"@.len() == 11 && "advertising"@[0] == 'a');
    assert("abuse"@.len() == 5 && "abuse"@[0] == 'a');
    assert("gambling"@.len() == 8 && "gambling"@[0] == 'g');
    assert("fraud"@.len() == 5 && "fraud"@[0] == 'f');
    assert("other"@.len() == 5 && "other"@[0] == 'o');
}

/// Each name shown to people stands for one kind of violation.
pub proof fn kind_is_known_by_its_name(kind: ViolationType)
    ensures
        kind.name() == "色情低俗"@ <==> kind == ViolationType::Pornography,
        kind.name() == "暴力血腥"@ <==> kind == ViolationType::Violence,
        kind.name() == "政治敏感"@ <==> kind == ViolationType::Politics,
        kind.name() == "广告推广"@ <==> kind == ViolationType::Advertising,
        kind.name() == "辱骂攻击"@ <==> kind == ViolationType::Abuse,
        kind.name() == "赌博相关"@ <==> kind == ViolationType::Gambling,
        kind.name() == "诈骗欺诈"@ <==> kind == ViolationType::Fraud,
        kind.name() == "其他违规"@ <==> kind == ViolationType::Other,
{
    reveal_strlit("色情低俗");
    reveal_strlit("暴力血腥");
    reveal_strlit("政治敏感");
    reveal_strlit("广告推广");
    reveal_strlit("辱骂攻击");
    reveal_strlit("赌博相关");
    reveal_strlit("诈骗欺诈");
    reveal_strlit("其他违规");
    assert("色情低俗"@.len() == 4 && "色情低俗"@[0] == '色');
    assert("暴力血腥"@.len() == 4 && "暴力血腥"@[0] == '暴');
    assert("政治敏感"@.len() == 4 && "政治敏感"@[0] == '政');
    assert("广告推广"@.len() == 4 && "广告推广"@[0] == '广');
    assert("辱骂攻击"@.len() == 4 && "辱骂攻击"@[0] == '辱');
    assert("赌博相关"@.len() == 4 && "赌博相关"@[0] == '赌');
    assert("诈骗欺诈"@.len() == 4 && "诈骗欺诈"@[0] == '诈');
    assert("其他违规"@.len() == 4 && "其他违规"@[0] == '其');
}

/// Each machine-readable name, and each name shown to people, stands for one severity.
pub proof fn severity_is_known_by_its_names(severity: Severity)
    ensures
        severity.code() == "low"@ <==> severity == Severity::Low,
        severity.code() == "medium"@ <==> severity == Severity::Medium,
        severity.code() == "high"@ <==> severity == Severity::High,
        severity.code() == "critical"@ <==> severity == Severity::Critical,
        severity.name() == "低"@ <==> severity == Severity::Low,
        severity.name() == "中"@ <==> severity == Severity::Medium,
        severity.name() == "高"@ <==> severity == Severity::High,
        severity.name() == "严重"@ <==> severity == Severity::Critical,
{
    reveal_strlit("low");
    reveal_strlit("medium");
    reveal_strlit("high");
    reveal_strlit("critical");
    reveal_strlit("低");
    reveal_strlit("中");
    reveal_strlit("高");
    reveal_strlit("严重");
    assert("low"@.len() == 3 && "low"@[0] == 'l');
    assert("medium"@.len() == 6 && "medium"@[0] == 'm');
    assert("high"@.len() == 4 && "high"@[0] == 'h');
    assert("critical"@.len() == 8 && "critical"@[0] == 'c');
    assert("低"@.len() == 1 && "低"@[0] == '低');
    assert("中"@.len() == 1 && "中"@[0] == '中');
    assert("高"@.len() == 1 && "高"@[0] == '高');
    assert("严重"@.len() == 2 && "严重"@[0] == '严');
}

/// A violation adds 10 points exactly when it is of low severity, 25 when it is of medium, 40
/// when it is of high and 100 when it is of critical severity.
pub proof fn points_follow_the_severity(severity: Severity)
    ensures
        severity.points() == 10 <==> severity == Severity::Low,
        severity.points() == 25 <==> severity == Severity::Medium,
        severity.points() == 40 <==> severity == Severity::High,
        severity.points() == 100 <==> severity == Severity::Critical,
{
}

/// Each machine-readable name stands for one suggestion.
pub proof fn suggestion_is_known_by_its_code(suggestion: ModerationSuggestion)
    ensures
        suggestion.code() == "pass"@ <==> suggestion == ModerationSuggestion::Pass,
        suggestion.code() == "review"@ <==> suggestion == ModerationSuggestion::Review,
        suggestion.code() == "block"@ <==> suggestion == ModerationSuggestion::Block,
{
    reveal_strlit("pass");
    reveal_strlit("review");
    reveal_strlit("block");
    assert("pass"@.len() == 4 && "pass"@[0] == 'p');
    assert("review"@.len() == 6 && "review"@[0] == 'r');
    assert("block"@.len() == 5 && "block"@[0] == 'b');
}

/// To block intervenes more than to review, and to review more than to let pass.
pub proof fn suggestions_grow_stricter(a: ModerationSuggestion, b: ModerationSuggestion)
    ensures
        a.rank() < b.rank() <==> (a == ModerationSuggestion::Pass && b
            != ModerationSuggestion::Pass) || (a == ModerationSuggestion::Review && b
            == ModerationSuggestion::Block),
{
}

} // verus!
