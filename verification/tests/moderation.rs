use group_chat_moderation::moderation::{
    checked_moderate_message, has_verdict, moderate_lowered, moderate_message, severity_score,
    ModerationSuggestion, Severity, ViolationType,
};
use group_chat_moderation::rules::{get_rules, Rule};
use group_chat_moderation::text::{join, lower};

#[test]
fn test_clean_message() {
    let result = moderate_message("你好，今天天气真好");
    assert!(!result.is_violation);
    assert_eq!(result.risk_score, 0);
    assert_eq!(result.suggestion, ModerationSuggestion::Pass);
}

#[test]
fn test_advertising_message() {
    let result = moderate_message("加微信abc123免费领取礼品");
    assert!(result.is_violation);
    assert!(result.violations.iter().any(|v| v.violation_type == ViolationType::Advertising));
}

#[test]
fn test_critical_violation() {
    let result = moderate_message("法轮功大法好");
    assert!(result.is_violation);
    assert_eq!(result.suggestion, ModerationSuggestion::Block);
    assert_eq!(result.risk_score, 100);
}

#[test]
fn test_multiple_violations() {
    let result = moderate_message("加微信abc，傻逼玩意");
    assert!(result.is_violation);
    assert!(result.violations.len() >= 2);
}

#[test]
fn advertising_is_low_and_names_its_patterns() {
    let result = moderate_message("加微信abc123免费领取礼品");
    assert_eq!(result.violations.len(), 1);
    let violation = &result.violations[0];
    assert_eq!(violation.severity, Severity::Low);
    assert_eq!(violation.description, "包含广告推广内容");
    assert_eq!(violation.matched_text.as_deref(), Some("加微信, 免费领取"));
    assert_eq!(result.risk_score, 10);
    assert_eq!(result.suggestion, ModerationSuggestion::Pass);
}

#[test]
fn letter_case_is_disregarded() {
    let upper = moderate_message("看看 HTTPS://EXAMPLE.COM 和 AV女优");
    let lower = moderate_message("看看 https://example.com 和 av女优");
    for result in [&upper, &lower] {
        assert_eq!(result.violations.len(), 2);
        assert_eq!(result.violations[0].violation_type, ViolationType::Pornography);
        assert_eq!(result.violations[0].matched_text.as_deref(), Some("av女优"));
        assert_eq!(result.violations[1].violation_type, ViolationType::Advertising);
        assert_eq!(result.violations[1].matched_text.as_deref(), Some(".com, https://"));
        assert_eq!(result.risk_score, 50);
        assert_eq!(result.suggestion, ModerationSuggestion::Review);
    }
}

#[test]
fn unicode_text_is_lowered() {
    assert_eq!(lower("ÀÉ Hello 农历新年"), "àé hello 农历新年");
    assert_eq!(lower("WWW.X"), "www.x");
    assert!(moderate_message("ÀÉ WWW.X").is_violation);
}

#[test]
fn all_spellings_are_judged_alike() {
    for text in ["你好，加QQ，看 WwW.X", "Ὀδυσσεύς ΣΑΣ Http://a", "İ K ẞ 加qQ！", "（加QQ）。"] {
        let plain = moderate_message(text);
        let spellings =
            [text.to_lowercase(), text.to_ascii_uppercase(), text.to_ascii_lowercase()];
        assert_eq!(lower(&lower(text)), lower(text));
        for spelling in spellings {
            let other = moderate_message(&spelling);
            assert_eq!(other.is_violation, plain.is_violation);
            assert_eq!(other.risk_score, plain.risk_score);
            assert_eq!(other.suggestion, plain.suggestion);
            assert_eq!(other.violations.len(), plain.violations.len());
            for (a, b) in other.violations.iter().zip(plain.violations.iter()) {
                assert_eq!(a.violation_type, b.violation_type);
                assert_eq!(a.matched_text, b.matched_text);
            }
        }
    }
    let result = moderate_message("加QQ");
    assert_eq!(result.violations[0].matched_text.as_deref(), Some("加qq"));
}

#[test]
fn lowering_keeps_what_has_no_case() {
    for c in (0x3000..=0x303f).chain(0x4e00..=0x9fff).chain(0xff01..=0xff20) {
        let text = char::from_u32(c).unwrap().to_string();
        assert_eq!(lower(&text), text);
    }
    for c in 0..=0x7fu8 {
        let text = (c as char).to_string();
        assert_eq!(lower(&text), text.to_ascii_lowercase());
    }
}

#[test]
fn lowering_disregards_ascii_case_and_is_done_once() {
    for c in '\u{80}'..=char::MAX {
        for text in [format!("A{}Z", c), format!("{}b", c), format!("Σ{}", c), format!("aΣ{}B", c)] {
            let lowered = lower(&text);
            assert_eq!(lower(&text.to_ascii_lowercase()), lowered);
            assert_eq!(lower(&text.to_ascii_uppercase()), lowered);
            assert_eq!(lower(&lowered), lowered);
            assert!(!lowered.chars().any(|l| l.is_ascii_uppercase()));
        }
    }
}

#[test]
fn characters_are_lowered_by_themselves_but_for_sigma() {
    let merged = |text: &str| lower(text).replace('ς', "σ");
    let by_char = |text: &str| -> String { text.chars().map(|c| merged(&c.to_string())).collect() };
    for c in '\0'..=char::MAX {
        for text in [format!("A{}Z", c), format!("bΣ{}", c), format!("{}Σ", c), format!("Σ{}ς", c)] {
            assert_eq!(merged(&text), by_char(&text));
        }
    }
    assert_eq!(lower("ὈΔΥΣΣΕΎΣ"), "ὀδυσσεύς");
}

#[test]
fn text_around_a_sigma_is_not_judged_milder() {
    let part = moderate_message("加QQ ΑΣ");
    let whole = moderate_message("加QQ ΑΣΑ 赌博");
    assert_eq!(part.risk_score, 10);
    assert_eq!(whole.risk_score, 50);
    assert!(moderate_message("ΑΣ www.Σ").is_violation);
}

#[test]
fn rules_lower_their_patterns() {
    let rule = Rule {
        violation_type: ViolationType::Other,
        patterns: vec!["QQ", "ÀB"],
        severity: Severity::Low,
        description: "",
    };
    assert_eq!(rule.matched_patterns("加qq àb"), vec!["QQ".to_string(), "ÀB".to_string()]);
    assert!(rule.matched_patterns("加QQ").is_empty());
}

#[test]
fn one_grave_violation_is_reviewed() {
    let result = moderate_message("一起去赌博");
    assert_eq!(result.risk_score, 40);
    assert_eq!(result.suggestion, ModerationSuggestion::Review);
}

#[test]
fn grave_violation_with_abuse_is_blocked() {
    let result = moderate_message("白痴，一起去赌博");
    assert_eq!(result.risk_score, 65);
    assert_eq!(result.suggestion, ModerationSuggestion::Block);
}

#[test]
fn two_grave_violations_are_blocked() {
    let result = moderate_message("赌博中奖");
    assert_eq!(result.risk_score, 80);
    assert_eq!(result.suggestion, ModerationSuggestion::Block);
}

#[test]
fn mild_violations_pass() {
    let result = moderate_message("傻逼加qq");
    assert!(result.is_violation);
    assert_eq!(result.risk_score, 35);
    assert_eq!(result.suggestion, ModerationSuggestion::Pass);
}

#[test]
fn violations_come_in_the_order_of_the_rules() {
    let result = moderate_message("刷单 赌球 去死 www. 台独 杀人");
    let kinds: Vec<ViolationType> = result.violations.iter().map(|v| v.violation_type).collect();
    assert_eq!(
        kinds,
        vec![
            ViolationType::Violence,
            ViolationType::Politics,
            ViolationType::Advertising,
            ViolationType::Abuse,
            ViolationType::Gambling,
            ViolationType::Fraud,
        ]
    );
    assert_eq!(result.risk_score, 100);
}

#[test]
fn more_text_is_not_judged_milder() {
    let part = moderate_message("杀人");
    let whole = moderate_message("他说要杀人，还要加微信");
    assert!(part.risk_score <= whole.risk_score);
    assert_eq!(part.risk_score, 40);
    assert_eq!(whole.risk_score, 50);
}

#[test]
fn the_largest_total_that_fits_is_judged() {
    let result = checked_moderate_message("台独 杀人 色情 赌博 傻逼 www.").unwrap();
    assert_eq!(result.risk_score, 100);
    assert_eq!(result.suggestion, ModerationSuggestion::Block);
    assert_eq!(result.violations.len(), 6);
}

#[test]
fn a_total_beyond_eight_bits_has_no_verdict() {
    assert!(!has_verdict("台独 杀人 色情 赌博 刷单"));
    assert!(checked_moderate_message("台独 杀人 色情 赌博 刷单").is_none());
    assert!(has_verdict("台独 杀人 色情 赌博"));
}

#[test]
fn a_lowered_text_is_judged_as_it_stands() {
    assert!(!moderate_lowered("WWW.").is_violation);
    assert!(moderate_lowered("www.").is_violation);
}

#[test]
fn an_empty_message_is_clean() {
    let result = moderate_message("");
    assert!(!result.is_violation);
    assert!(result.violations.is_empty());
    assert_eq!(result.risk_score, 0);
}

#[test]
fn severities_have_points() {
    assert_eq!(severity_score(Severity::Low), 10);
    assert_eq!(severity_score(Severity::Medium), 25);
    assert_eq!(severity_score(Severity::High), 40);
    assert_eq!(severity_score(Severity::Critical), 100);
}

#[test]
fn names_and_codes() {
    assert_eq!(ViolationType::Pornography.to_string(), "色情低俗");
    assert_eq!(ViolationType::Other.to_string(), "其他违规");
    assert_eq!(ViolationType::Gambling.to_code(), "gambling");
    assert_eq!(Severity::Low.to_string(), "低");
    assert_eq!(Severity::Critical.to_string(), "严重");
    assert_eq!(Severity::Medium.to_code(), "medium");
    assert_eq!(ModerationSuggestion::Review.to_code(), "review");
}

#[test]
fn the_rule_table() {
    let rules = get_rules();
    assert_eq!(rules.len(), 7);
    let patterns: usize = rules.iter().map(|r| r.patterns.len()).sum();
    assert_eq!(patterns, 53);
    assert_eq!(rules[2].violation_type, ViolationType::Politics);
    assert_eq!(rules[2].severity, Severity::Critical);
    assert_eq!(rules[3].patterns[1], "加qq");
    assert_eq!(rules[3].matched_patterns("加qq www."), vec!["加qq".to_string(), "www.".to_string()]);
}

#[test]
fn joining_strings() {
    let parts = vec!["a".to_string(), "b".to_string(), "c".to_string()];
    assert_eq!(join(&parts, ", "), "a, b, c");
    assert_eq!(join(&Vec::new(), ", "), "");
}
