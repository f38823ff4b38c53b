//! What a moderated message can be found guilty of: the kinds of violation and how grave
//! each one is.

use vstd::prelude::*;

verus! {

/// A kind of forbidden content.
#[derive(Debug, Clone, Copy, PartialEq, Eq, Structural)]
pub enum ViolationType {
    Pornography,
    Violence,
    Politics,
    Advertising,
    Abuse,
    Gambling,
    Fraud,
    Other,
}

impl ViolationType {
    /// The name shown to people.
    pub open spec fn name(self) -> Seq<char> {
        match self {
            ViolationType::Pornography => "色情低俗"@,
            ViolationType::Violence => "暴力血腥"@,
            ViolationType::Politics => "政治敏感"@,
            ViolationType::Advertising => "广告推广"@,
            ViolationType::Abuse => "辱骂攻击"@,
            ViolationType::Gambling => "赌博相关"@,
            ViolationType::Fraud => "诈骗欺诈"@,
            ViolationType::Other => "其他违规"@,
        }
    }

    /// The name used in machine-readable output.
    pub open spec fn code(self) -> Seq<char> {
        match self {
            ViolationType::Pornography => "pornography"@,
            ViolationType::Violence => "violence"@,
            ViolationType::Politics => "politics"@,
            ViolationType::Advertising => "advertising"@,
            ViolationType::Abuse => "abuse"@,
            ViolationType::Gambling => "gambling"@,
            ViolationType::Fraud => "fraud"@,
            ViolationType::Other => "other"@,
        }
    }

    /// The name shown to people, as a string.
    pub fn to_string(&self) -> (s: String)
        ensures
            s@ == self.name(),
    {
        match self {
            ViolationType::Pornography => "色情低俗".to_owned(),
            ViolationType::Violence => "暴力血腥".to_owned(),
            ViolationType::Politics => "政治敏感".to_owned(),
            ViolationType::Advertising => "广告推广".to_owned(),
            ViolationType::Abuse => "辱骂攻击".to_owned(),
            ViolationType::Gambling => "赌博相关".to_owned(),
            ViolationType::Fraud => "诈骗欺诈".to_owned(),
            ViolationType::Other => "其他违规".to_owned(),
        }
    }

    /// The machine-readable name, as a string.
    pub fn to_code(&self) -> (s: String)
        ensures
            s@ == self.code(),
    {
        match self {
            ViolationType::Pornography => "pornography".to_owned(),
            ViolationType::Violence => "violence".to_owned(),
            ViolationType::Politics => "politics".to_owned(),
            ViolationType::Advertising => "advertising".to_owned(),
            ViolationType::Abuse => "abuse".to_owned(),
            ViolationType::Gambling => "gambling".to_owned(),
            ViolationType::Fraud => "fraud".to_owned(),
            ViolationType::Other => "other".to_owned(),
        }
    }
}

/// How grave a violation is.
#[derive(Debug, Clone, Copy, PartialEq, Eq, Structural)]
pub enum Severity {
    Low,
    Medium,
    High,
    Critical,
}

impl Severity {
    /// The name shown to people.
    pub open spec fn name(self) -> Seq<char> {
        match self {
            Severity::Low => "低"@,
            Severity::Medium => "中"@,
            Severity::High => "高"@,
            Severity::Critical => "严重"@,
        }
    }

    /// The name used in machine-readable output.
    pub open spec fn code(self) -> Seq<char> {
        match self {
            Severity::Low => "low"@,
            Severity::Medium => "medium"@,
            Severity::High => "high"@,
            Severity::Critical => "critical"@,
        }
    }

    /// The name shown to people, as a string.
    pub fn to_string(&self) -> (s: String)
        ensures
            s@ == self.name(),
    {
        match self {
            Severity::Low => "低".to_owned(),
            Severity::Medium => "中".to_owned(),
            Severity::High => "高".to_owned(),
            Severity::Critical => "严重".to_owned(),
        }
    }

    /// The machine-readable name, as a string.
    pub fn to_code(&self) -> (s: String)
        ensures
            s@ == self.code(),
    {
        match self {
            Severity::Low => "low".to_owned(),
            Severity::Medium => "medium".to_owned(),
            Severity::High => "high".to_owned(),
            Severity::Critical => "critical".to_owned(),
        }
    }

    /// How many points a violation of this severity adds to the risk score.
    pub open spec fn points(self) -> nat {
        match self {
            Severity::Low => 10,
            Severity::Medium => 25,
            Severity::High => 40,
            Severity::Critical => 100,
        }
    }
}

/// The points that a violation of the given severity adds to the risk score.
pub fn severity_score(severity: Severity) -> (score: u8)
    ensures
        score == severity.points(),
{
    match severity {
        Severity::Low => 10,
        Severity::Medium => 25,
        Severity::High => 40,
        Severity::Critical => 100,
    }
}

/// What to do with a message.
#[derive(Debug, Clone, Copy, PartialEq, Eq, Structural)]
pub enum ModerationSuggestion {
    Pass,
    Review,
    Block,
}

impl ModerationSuggestion {
    /// The name used in machine-readable output.
    pub open spec fn code(self) -> Seq<char> {
        match self {
            ModerationSuggestion::Pass => "pass"@,
            ModerationSuggestion::Review => "review"@,
            ModerationSuggestion::Block => "block"@,
        }
    }

    /// The machine-readable name, as a string.
    pub fn to_code(&self) -> (s: String)
        ensures
            s@ == self.code(),
    {
        match self {
            ModerationSuggestion::Pass => "pass".to_owned(),
            ModerationSuggestion::Review => "review".to_owned(),
            ModerationSuggestion::Block => "block".to_owned(),
        }
    }

    /// How strict the suggestion is: a larger rank intervenes more.
    pub open spec fn rank(self) -> int {
        match self {
            ModerationSuggestion::Pass => 0,
            ModerationSuggestion::Review => 1,
            ModerationSuggestion::Block => 2,
        }
    }
}

} // verus!
