//! How violations and actions change what is known of a user.

use crate::kinds::{ModerationSuggestion, ViolationType};
use crate::kinds_laws::{kind_is_known_by_its_code, suggestion_is_known_by_its_code};
use crate::user_tracker::{
    total_risk, Thresholds, UserAction, UserInfo, UserInfoView, UserStatus,
    UserViolationTrackerView, ViolationRecord, ViolationRecordView, ViolationReport,
    ViolationUserSummary,
};
use crate::user_tracker_laws::{found_user_is_consistent, lemma_position_is_unique};
use vstd::prelude::*;

verus! {

/// Each name shown to people stands for one standing.
pub proof fn status_is_known_by_its_name(status: UserStatus)
    ensures
        status.name() == "正常"@ <==> status == UserStatus::Normal,
        status.name() == "警告"@ <==> status == UserStatus::Warned,
        status.name() == "禁言"@ <==> status == UserStatus::Muted,
        status.name() == "封禁"@ <==> status == UserStatus::Banned,
{
    reveal_strlit("正常");
    reveal_strlit("警告");
    reveal_strlit("禁言");
    reveal_strlit("封禁");
    assert("正常"@[0] == '正' && "警告"@[0] == '警' && "禁言"@[0] == '禁' && "封禁"@[0] == '封');
}

/// A banned user is restricted more than a muted one, a muted one more than a warned one, and a
/// warned one more than a normal one.
pub proof fn standings_grow_stricter(a: UserStatus, b: UserStatus)
    ensures
        a.rank() < b.rank() <==> {
            ||| a == UserStatus::Normal && b != UserStatus::Normal
            ||| a == UserStatus::Warned && (b == UserStatus::Muted || b == UserStatus::Banned)
            ||| a == UserStatus::Muted && b == UserStatus::Banned
        },
        UserStatus::Normal.rank() == 0,
        UserStatus::Banned.rank() == 3,
{
}

/// A user is banned exactly when the violations reach the ban threshold or the risk scores reach
/// 300; muted or worse exactly when the violations reach that or the mute threshold or the
/// scores reach 150; warned or worse exactly when the violations reach any threshold or the
/// scores reach 50; and normal otherwise.
pub proof fn standing_follows_count_and_total(thresholds: Thresholds, count: int, total: int)
    ensures
        ({
            let status = thresholds.status_for(count, total);
            let banned = count >= thresholds.ban || total >= 300;
            let muted = count >= thresholds.mute || total >= 150;
            let warned = count >= thresholds.warning || total >= 50;
            &&& status == UserStatus::Banned <==> banned
            &&& status == UserStatus::Muted || status == UserStatus::Banned <==> banned || muted
            &&& status != UserStatus::Normal <==> banned || muted || warned
            &&& status == UserStatus::Muted <==> muted && !banned
            &&& status == UserStatus::Warned <==> warned && !muted && !banned
        }),
{
}

/// The standing that an action leads to, whatever the user's standing, count and total were: a
/// warning, a mute and a ban impose theirs; a reset makes the user normal; and lifting a mute or
/// a ban leaves what the count and the total lead to. The id, the name and the groups are kept,
/// and so are the figures and the records but by a reset, which clears them.
pub proof fn action_imposes_its_standing(
    user: UserInfoView,
    action: UserAction,
    timestamp: i64,
    thresholds: Thresholds,
)
    ensures
        ({
            let after = user.after_action(action, timestamp, thresholds);
            let lifted = action == UserAction::Unmute || action == UserAction::Unban;
            let banned = user.violation_count >= thresholds.ban || user.total_risk_score >= 300;
            let muted = user.violation_count >= thresholds.mute || user.total_risk_score >= 150;
            let warned = user.violation_count >= thresholds.warning || user.total_risk_score >= 50;
            &&& action == UserAction::Warn ==> after.status == UserStatus::Warned
            &&& action == UserAction::Mute ==> after.status == UserStatus::Muted
            &&& action == UserAction::Ban ==> after.status == UserStatus::Banned
            &&& action == UserAction::Reset ==> after.status == UserStatus::Normal
            &&& lifted ==> (after.status == UserStatus::Banned <==> banned)
            &&& lifted ==> (after.status == UserStatus::Muted <==> muted && !banned)
            &&& lifted ==> (after.status == UserStatus::Warned <==> warned && !muted && !banned)
            &&& after.status_updated_at == Some(timestamp)
            &&& after.user_id == user.user_id
            &&& after.user_name == user.user_name
            &&& after.groups == user.groups
            &&& action != UserAction::Reset ==> after.violation_count == user.violation_count
            &&& action != UserAction::Reset ==> after.total_risk_score == user.total_risk_score
            &&& action != UserAction::Reset ==> after.last_violation_at == user.last_violation_at
            &&& action != UserAction::Reset ==> after.records == user.records
            &&& action == UserAction::Reset ==> after.violation_count == 0
            &&& action == UserAction::Reset ==> after.total_risk_score == 0
            &&& action == UserAction::Reset ==> after.last_violation_at is None
            &&& action == UserAction::Reset ==> after.records.len() == 0
        }),
{
}

/// The record of a violation repeats what was reported: the content, the group, the score and
/// the time; the kinds of violation by their machine-readable names, one by one; and what was
/// suggested.
pub proof fn record_repeats_the_report(report: ViolationReport)
    ensures
        ({
            let record = report.record();
            &&& record.message_content == report.content
            &&& record.group_id == report.group_id
            &&& record.risk_score == report.result.risk_score
            &&& record.timestamp == report.timestamp
            &&& record.suggestion == "block"@ <==> report.result.suggestion
                == ModerationSuggestion::Block
            &&& record.suggestion == "review"@ <==> report.result.suggestion
                == ModerationSuggestion::Review
            &&& record.suggestion == "pass"@ <==> report.result.suggestion
                == ModerationSuggestion::Pass
            &&& record.violation_types.len() == report.result.violations.len()
            &&& forall|k: int|
                0 <= k < report.result.violations.len() ==> {
                    let code = #[trigger] record.violation_types[k];
                    let kind = report.result.violations[k].violation_type;
                    &&& code == "pornography"@ <==> kind == ViolationType::Pornography
                    &&& code == "violence"@ <==> kind == ViolationType::Violence
                    &&& code == "politics"@ <==> kind == ViolationType::Politics
                    &&& code == "advertising"@ <==> kind == ViolationType::Advertising
                    &&& code == "abuse"@ <==> kind == ViolationType::Abuse
                    &&& code == "gambling"@ <==> kind == ViolationType::Gambling
                    &&& code == "fraud"@ <==> kind == ViolationType::Fraud
                    &&& code == "other"@ <==> kind == ViolationType::Other
                }
        }),
{
    suggestion_is_known_by_its_code(report.result.suggestion);
    let record = report.record();
    assert forall|k: int| 0 <= k < report.result.violations.len() implies {
        let code = #[trigger] record.violation_types[k];
        let kind = report.result.violations[k].violation_type;
        &&& code == "pornography"@ <==> kind == ViolationType::Pornography
        &&& code == "violence"@ <==> kind == ViolationType::Violence
        &&& code == "politics"@ <==> kind == ViolationType::Politics
        &&& code == "advertising"@ <==> kind == ViolationType::Advertising
        &&& code == "abuse"@ <==> kind == ViolationType::Abuse
        &&& code == "gambling"@ <==> kind == ViolationType::Gambling
        &&& code == "fraud"@ <==> kind == ViolationType::Fraud
        &&& code == "other"@ <==> kind == ViolationType::Other
    } by {
        kind_is_known_by_its_code(report.result.violations[k].violation_type);
    }
}

/// What one more violation changes, whatever the user's standing was: the count grows by one and
/// the total by the score; the record comes behind the earlier ones; a group that is not listed
/// yet comes behind the earlier ones; a missing name is filled in; the standing becomes what the
/// new figures lead to; and the time of the change is noted exactly where it changes.
pub proof fn violation_is_added_to_the_user(
    user: UserInfoView,
    report: ViolationReport,
    thresholds: Thresholds,
)
    ensures
        ({
            let after = user.after_violation(report, thresholds);
            let count = user.violation_count + 1;
            let total = user.total_risk_score + report.result.risk_score;
            let banned = count >= thresholds.ban || total >= 300;
            let muted = count >= thresholds.mute || total >= 150;
            let warned = count >= thresholds.warning || total >= 50;
            &&& after.user_id == user.user_id
            &&& after.violation_count == count
            &&& after.total_risk_score == total
            &&& after.last_violation_at == Some(report.timestamp)
            &&& after.records.len() == user.records.len() + 1
            &&& after.records.drop_last() == user.records
            &&& after.records.last() == report.record()
            &&& user.groups.contains(report.group_id) ==> after.groups == user.groups
            &&& !user.groups.contains(report.group_id) ==> after.groups.len() == user.groups.len()
                + 1 && after.groups.drop_last() == user.groups && after.groups.last()
                == report.group_id
            &&& user.user_name is Some ==> after.user_name == user.user_name
            &&& user.user_name is None ==> after.user_name == report.user_name
            &&& after.status == UserStatus::Banned <==> banned
            &&& after.status == UserStatus::Muted <==> muted && !banned
            &&& after.status == UserStatus::Warned <==> warned && !muted && !banned
            &&& after.status == user.status ==> after.status_updated_at == user.status_updated_at
            &&& after.status != user.status ==> after.status_updated_at == Some(report.timestamp)
        }),
{
    let after = user.after_violation(report, thresholds);
    assert(after.records.drop_last() =~= user.records);
    if !user.groups.contains(report.group_id) {
        assert(after.groups.drop_last() =~= user.groups);
    }
}

/// A user who was not tracked has after the first violation just that one on record, under the
/// name and the group that were reported.
pub proof fn first_violation_starts_the_record(
    tracker: UserViolationTrackerView,
    user_id: Seq<char>,
    report: ViolationReport,
)
    requires
        forall|i: int| 0 <= i < tracker.users.len() ==> (#[trigger] tracker.users[i]).user_id
            != user_id,
    ensures
        ({
            let user = tracker.user_after_violation(user_id, report);
            let score = report.result.risk_score;
            let banned = 1 >= tracker.thresholds.ban || score >= 300;
            let muted = 1 >= tracker.thresholds.mute || score >= 150;
            let warned = 1 >= tracker.thresholds.warning || score >= 50;
            &&& user.user_id == user_id
            &&& user.user_name == report.user_name
            &&& user.violation_count == 1
            &&& user.total_risk_score == score
            &&& user.groups == seq![report.group_id]
            &&& user.records == seq![report.record()]
            &&& user.last_violation_at == Some(report.timestamp)
            &&& user.status == UserStatus::Banned <==> banned
            &&& user.status == UserStatus::Muted <==> muted && !banned
            &&& user.status == UserStatus::Warned <==> warned && !muted && !banned
            &&& user.status == UserStatus::Normal ==> user.status_updated_at is None
            &&& user.status != UserStatus::Normal ==> user.status_updated_at == Some(
                report.timestamp,
            )
            &&& tracker.with_user(user).users == tracker.users.push(user)
        }),
{
    assert(!tracker.tracks(user_id)) by {
        if tracker.tracks(user_id) {
            assert(tracker.is_at(user_id, tracker.position(user_id)));
        }
    }
    let user = tracker.user_after_violation(user_id, report);
    assert(user.groups =~= seq![report.group_id]);
    assert(user.records =~= seq![report.record()]);
}

/// A violation of a tracked user is added to what is known of that user, who keeps the place in
/// the tracker; every other user stays in place and unchanged.
pub proof fn further_violation_is_added_in_place(
    tracker: UserViolationTrackerView,
    report: ViolationReport,
    i: int,
)
    requires
        tracker.is_consistent(),
        0 <= i < tracker.users.len(),
    ensures
        ({
            let before = tracker.users[i];
            let user = tracker.user_after_violation(before.user_id, report);
            let after = tracker.with_user(user);
            &&& user == before.after_violation(report, tracker.thresholds)
            &&& user.violation_count == before.violation_count + 1
            &&& user.total_risk_score == before.total_risk_score + report.result.risk_score
            &&& after.users.len() == tracker.users.len()
            &&& after.users[i] == user
            &&& forall|j: int|
                0 <= j < tracker.users.len() && j != i ==> #[trigger] after.users[j]
                    == tracker.users[j]
        }),
{
    lemma_position_is_unique(tracker, tracker.users[i].user_id, i);
}

/// What is looked up in a consistent tracker is the user with that id, and nothing is found
/// exactly when no user has it.
pub proof fn lookup_finds_the_user_with_the_id(
    tracker: UserViolationTrackerView,
    user_id: Seq<char>,
)
    requires
        tracker.is_consistent(),
    ensures
        tracker.lookup(user_id) is None <==> forall|i: int|
            0 <= i < tracker.users.len() ==> (#[trigger] tracker.users[i]).user_id != user_id,
        forall|i: int|
            0 <= i < tracker.users.len() && (#[trigger] tracker.users[i]).user_id == user_id
                ==> tracker.lookup(user_id) == Some(tracker.users[i]),
        tracker.lookup(user_id) matches Some(user) ==> user.user_id == user_id
            && tracker.users.contains(user),
{
    assert forall|i: int|
        0 <= i < tracker.users.len() && (#[trigger] tracker.users[i]).user_id
            == user_id implies tracker.lookup(user_id) == Some(tracker.users[i]) by {
        assert(tracker.is_at(user_id, i));
        lemma_position_is_unique(tracker, user_id, i);
    }
    if tracker.tracks(user_id) {
        let p = tracker.position(user_id);
        assert(tracker.is_at(user_id, p));
        assert(tracker.users[p].user_id == user_id);
    }
}

/// The figures of a user of a consistent tracker are those of the records: as many violations as
/// records, the sum of their scores, the time of the last one, and each of their groups once.
pub proof fn figures_are_those_of_the_records(
    tracker: UserViolationTrackerView,
    user_id: Seq<char>,
)
    requires
        tracker.is_consistent(),
    ensures
        tracker.lookup(user_id) matches Some(user) ==> {
            &&& user.violation_count == user.records.len()
            &&& user.total_risk_score == total_risk(user.records)
            &&& user.records.len() == 0 ==> user.last_violation_at is None
            &&& user.records.len() > 0 ==> user.last_violation_at == Some(
                user.records.last().timestamp,
            )
            &&& user.groups.no_duplicates()
            &&& forall|k: int|
                0 <= k < user.records.len() ==> user.groups.contains(
                    (#[trigger] user.records[k]).group_id,
                )
        },
{
    found_user_is_consistent(tracker, user_id);
}

/// The risk scores of two lists of records together are those of the one and those of the other;
/// a single record has its own, and no records have none.
pub proof fn risk_scores_add_up(
    a: Seq<ViolationRecordView>,
    b: Seq<ViolationRecordView>,
    record: ViolationRecordView,
)
    ensures
        total_risk(a + b) == total_risk(a) + total_risk(b),
        total_risk(seq![record]) == record.risk_score,
        total_risk(seq![]) == 0,
    decreases b.len(),
{
    assert(seq![record].drop_last() =~= Seq::<ViolationRecordView>::empty());
    assert(seq![record].last() == record);
    reveal_with_fuel(total_risk, 2);
    if b.len() == 0 {
        assert(a + b =~= a);
    } else {
        risk_scores_add_up(a, b.drop_last(), record);
        assert((a + b).drop_last() =~= a + b.drop_last());
    }
}

/// The model of a user holds what is known of the user.
pub proof fn user_is_modelled_field_by_field(user: UserInfo)
    ensures
        user@.user_id == user.user_id@,
        user@.user_name is Some <==> user.user_name is Some,
        user.user_name matches Some(name) ==> user@.user_name == Some(name@),
        user@.status == user.status,
        user@.violation_count == user.violation_count,
        user@.total_risk_score == user.total_risk_score,
        user@.last_violation_at == user.last_violation_at,
        user@.status_updated_at == user.status_updated_at,
        user@.groups.len() == user.groups@.len(),
        forall|k: int|
            0 <= k < user.groups@.len() ==> #[trigger] user@.groups[k] == user.groups@[k]@,
        user@.records.len() == user.records@.len(),
        forall|k: int|
            0 <= k < user.records@.len() ==> #[trigger] user@.records[k] == user.records@[k]@,
{
}

/// The model of a record holds what is on record.
pub proof fn record_is_modelled_field_by_field(record: ViolationRecord)
    ensures
        record@.message_content == record.message_content@,
        record@.group_id == record.group_id@,
        record@.risk_score == record.risk_score,
        record@.suggestion == record.suggestion@,
        record@.timestamp == record.timestamp,
        record@.violation_types.len() == record.violation_types@.len(),
        forall|k: int|
            0 <= k < record.violation_types@.len() ==> #[trigger] record@.violation_types[k]
                == record.violation_types@[k]@,
{
}

/// The model of a summary holds what the summary holds.
pub proof fn summary_is_modelled_field_by_field(summary: ViolationUserSummary)
    ensures
        summary@.user_id == summary.user_id@,
        summary@.user_name is Some <==> summary.user_name is Some,
        summary.user_name matches Some(name) ==> summary@.user_name == Some(name@),
        summary@.status == summary.status,
        summary@.status_name == summary.status_name@,
        summary@.violation_count == summary.violation_count,
        summary@.total_risk_score == summary.total_risk_score,
        summary@.last_violation_at == summary.last_violation_at,
        summary@.groups.len() == summary.groups@.len(),
        forall|k: int|
            0 <= k < summary.groups@.len() ==> #[trigger] summary@.groups[k]
                == summary.groups@[k]@,
{
}

} // verus!
