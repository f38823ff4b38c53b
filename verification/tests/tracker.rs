use group_chat_moderation::moderation::{moderate_message, ModerationResult, ModerationSuggestion};
use group_chat_moderation::user_tracker::{
    UserAction, UserStatistics, UserStatus, UserViolationTracker,
};

fn scored(risk_score: u8) -> ModerationResult {
    ModerationResult {
        is_violation: true,
        violations: Vec::new(),
        risk_score,
        suggestion: ModerationSuggestion::Review,
    }
}

#[test]
fn a_new_tracker_is_empty() {
    let tracker = UserViolationTracker::new(1, 3, 5);
    assert!(tracker.get_user("u").is_none());
    assert_eq!(tracker.get_violation_users(0).total, 0);
    assert!(tracker.get_users_by_status(UserStatus::Normal).is_empty());
    assert_eq!(tracker.get_statistics().total_tracked_users, 0);
}

#[test]
fn a_violation_is_recorded() {
    let mut tracker = UserViolationTracker::new(1, 3, 5);
    let result = moderate_message("加微信，法轮功");
    let status = tracker.record_violation("u", Some("名"), "g", "加微信，法轮功", &result, 10);
    assert_eq!(status, UserStatus::Warned);
    let user = tracker.get_user("u").unwrap();
    assert_eq!(user.user_id, "u");
    assert_eq!(user.user_name.as_deref(), Some("名"));
    assert_eq!(user.violation_count, 1);
    assert_eq!(user.total_risk_score, 100);
    assert_eq!(user.groups, vec!["g".to_string()]);
    assert_eq!(user.last_violation_at, Some(10));
    assert_eq!(user.status_updated_at, Some(10));
    assert_eq!(user.records.len(), 1);
    let record = &user.records[0];
    assert_eq!(record.message_content, "加微信，法轮功");
    assert_eq!(record.group_id, "g");
    assert_eq!(record.violation_types, vec!["politics".to_string(), "advertising".to_string()]);
    assert_eq!(record.risk_score, 100);
    assert_eq!(record.suggestion, "block");
    assert_eq!(record.timestamp, 10);
}

#[test]
fn standing_follows_the_count() {
    let mut tracker = UserViolationTracker::new(2, 3, 4);
    let result = scored(1);
    let statuses: Vec<UserStatus> =
        (0..5).map(|t| tracker.record_violation("u", None, "g", "x", &result, t)).collect();
    assert_eq!(
        statuses,
        vec![
            UserStatus::Normal,
            UserStatus::Warned,
            UserStatus::Muted,
            UserStatus::Banned,
            UserStatus::Banned,
        ]
    );
    let user = tracker.get_user("u").unwrap();
    assert_eq!(user.status_updated_at, Some(3));
    assert_eq!(user.last_violation_at, Some(4));
    assert_eq!(user.total_risk_score, 5);
}

#[test]
fn standing_follows_the_risk() {
    let tracker = UserViolationTracker::new(100, 100, 100);
    assert_eq!(tracker.calculate_status(0, 49), UserStatus::Normal);
    assert_eq!(tracker.calculate_status(0, 50), UserStatus::Warned);
    assert_eq!(tracker.calculate_status(0, 149), UserStatus::Warned);
    assert_eq!(tracker.calculate_status(0, 150), UserStatus::Muted);
    assert_eq!(tracker.calculate_status(0, 299), UserStatus::Muted);
    assert_eq!(tracker.calculate_status(0, 300), UserStatus::Banned);
    assert_eq!(tracker.calculate_status(100, 0), UserStatus::Banned);
}

#[test]
fn groups_are_listed_once_and_names_are_kept() {
    let mut tracker = UserViolationTracker::new(10, 20, 30);
    let result = scored(0);
    tracker.record_violation("u", None, "g1", "x", &result, 1);
    assert!(tracker.get_user("u").unwrap().user_name.is_none());
    tracker.record_violation("u", Some("first"), "g2", "x", &result, 2);
    tracker.record_violation("u", Some("second"), "g1", "x", &result, 3);
    let user = tracker.get_user("u").unwrap();
    assert_eq!(user.user_name.as_deref(), Some("first"));
    assert_eq!(user.groups, vec!["g1".to_string(), "g2".to_string()]);
    assert_eq!(user.status, UserStatus::Normal);
    assert_eq!(user.status_updated_at, None);
}

#[test]
fn other_users_are_untouched() {
    let mut tracker = UserViolationTracker::new(1, 2, 3);
    tracker.record_violation("a", None, "g", "x", &scored(5), 1);
    tracker.record_violation("b", None, "h", "y", &scored(6), 2);
    tracker.record_violation("b", None, "h", "z", &scored(7), 3);
    let a = tracker.get_user("a").unwrap();
    assert_eq!((a.violation_count, a.total_risk_score, a.status), (1, 5, UserStatus::Warned));
    let b = tracker.get_user("b").unwrap();
    assert_eq!((b.violation_count, b.total_risk_score, b.status), (2, 13, UserStatus::Muted));
}

#[test]
fn actions_set_the_standing() {
    let mut tracker = UserViolationTracker::new(1, 5, 9);
    tracker.record_violation("u", None, "g", "x", &scored(1), 1);
    for (action, status) in [
        (UserAction::Warn, UserStatus::Warned),
        (UserAction::Mute, UserStatus::Muted),
        (UserAction::Ban, UserStatus::Banned),
        (UserAction::Unban, UserStatus::Warned),
        (UserAction::Mute, UserStatus::Muted),
        (UserAction::Unmute, UserStatus::Warned),
    ] {
        let user = tracker.apply_action("u", action, Some("why"), 7).unwrap();
        assert_eq!(user.status, status);
        assert_eq!(user.status_updated_at, Some(7));
        assert_eq!(user.violation_count, 1);
        assert_eq!(user.records.len(), 1);
        assert_eq!(tracker.get_user("u").unwrap().status, status);
    }
}

#[test]
fn a_reset_wipes_the_violations() {
    let mut tracker = UserViolationTracker::new(1, 2, 3);
    tracker.record_violation("u", Some("n"), "g", "x", &scored(80), 1);
    let user = tracker.apply_action("u", UserAction::Reset, None, 9).unwrap();
    assert_eq!(user.status, UserStatus::Normal);
    assert_eq!(user.violation_count, 0);
    assert_eq!(user.total_risk_score, 0);
    assert_eq!(user.last_violation_at, None);
    assert!(user.records.is_empty());
    assert_eq!(user.groups, vec!["g".to_string()]);
    assert_eq!(user.user_name.as_deref(), Some("n"));
    assert_eq!(user.status_updated_at, Some(9));
    let lifted = tracker.apply_action("u", UserAction::Unban, None, 10).unwrap();
    assert_eq!(lifted.status, UserStatus::Normal);
}

#[test]
fn unknown_users_cannot_be_acted_on() {
    let mut tracker = UserViolationTracker::new(1, 2, 3);
    tracker.record_violation("u", None, "g", "x", &scored(1), 1);
    let error = tracker.apply_action("nobody", UserAction::Ban, None, 2).unwrap_err();
    assert_eq!(error, "用户 nobody 不存在");
    assert!(tracker.get_user("nobody").is_none());
    assert_eq!(tracker.get_violation_users(0).total, 1);
}

#[test]
fn a_violation_overrides_an_action() {
    let mut tracker = UserViolationTracker::new(5, 6, 7);
    tracker.record_violation("u", None, "g", "x", &scored(1), 1);
    tracker.apply_action("u", UserAction::Ban, None, 2).unwrap();
    let status = tracker.record_violation("u", None, "g", "x", &scored(1), 3);
    assert_eq!(status, UserStatus::Normal);
    assert_eq!(tracker.get_user("u").unwrap().status_updated_at, Some(3));
}

fn three_users() -> UserViolationTracker {
    let mut tracker = UserViolationTracker::new(2, 3, 4);
    for (user, times) in [("a", 1), ("b", 2), ("c", 3)] {
        for t in 0..times {
            tracker.record_violation(user, None, "g", "x", &scored(1), t);
        }
    }
    tracker
}

#[test]
fn users_are_listed_by_violations() {
    let tracker = three_users();
    let ids = |min: u32| -> Vec<String> {
        tracker.get_violation_users(min).users.into_iter().map(|u| u.user_id).collect()
    };
    assert_eq!(ids(0), vec!["a".to_string(), "b".to_string(), "c".to_string()]);
    assert_eq!(ids(2), vec!["b".to_string(), "c".to_string()]);
    assert!(ids(4).is_empty());
    let response = tracker.get_violation_users(3);
    assert_eq!(response.total, 1);
    let summary = &response.users[0];
    assert_eq!(summary.status, UserStatus::Muted);
    assert_eq!(summary.status_name, "禁言");
    assert_eq!(summary.violation_count, 3);
    assert_eq!(summary.total_risk_score, 3);
    assert_eq!(summary.groups, vec!["g".to_string()]);
    assert_eq!(summary.last_violation_at, Some(2));
}

#[test]
fn users_are_listed_by_status() {
    let tracker = three_users();
    let warned = tracker.get_users_by_status(UserStatus::Warned);
    assert_eq!(warned.len(), 1);
    assert_eq!(warned[0].user_id, "b");
    assert!(tracker.get_users_by_status(UserStatus::Banned).is_empty());
}

#[test]
fn statistics_add_up() {
    let mut tracker = three_users();
    tracker.apply_action("a", UserAction::Reset, None, 9).unwrap();
    let stats = tracker.get_statistics();
    assert_eq!(stats.total_tracked_users, 3);
    assert_eq!(stats.users_with_violations, 2);
    assert_eq!(stats.normal_count, 1);
    assert_eq!(stats.warned_count, 1);
    assert_eq!(stats.muted_count, 1);
    assert_eq!(stats.banned_count, 0);
    assert_eq!(stats.total_violation_records, 5);
    assert_eq!(tracker.get_users_by_status(UserStatus::Normal).len(), stats.normal_count);
    assert_eq!(tracker.get_users_by_status(UserStatus::Muted).len(), stats.muted_count);
    assert_eq!(tracker.get_violation_users(1).total, stats.users_with_violations);
    assert_eq!(tracker.get_violation_users(0).total, stats.total_tracked_users);
    let empty = UserStatistics::default();
    assert_eq!(empty.total_tracked_users + empty.total_violation_records, 0);
}

#[test]
fn status_names() {
    assert_eq!(UserStatus::Normal.to_string(), "正常");
    assert_eq!(UserStatus::Warned.to_string(), "警告");
    assert_eq!(UserStatus::Muted.to_string(), "禁言");
    assert_eq!(UserStatus::Banned.to_string(), "封禁");
}
