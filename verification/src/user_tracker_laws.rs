//! What holds of every tracked user, and of every tracker.

use crate::seqs::lemma_filter_keeps;
use crate::user_tracker::{
    has_status, has_violations, lemma_record_keeps_consistency, lemma_total_risk_bounds,
    records_of, Thresholds, UserAction, UserInfoView, UserStatistics, UserStatus,
    UserViolationTrackerView, ViolationReport,
};
use vstd::prelude::*;

verus! {

/// The standing never becomes milder as violations and risk add up.
pub proof fn status_never_improves_with_more_violations(
    thresholds: Thresholds,
    count: int,
    total: int,
    more_count: int,
    more_total: int,
)
    requires
        count <= more_count,
        total <= more_total,
    ensures
        thresholds.status_for(count, total).rank() <= thresholds.status_for(
            more_count,
            more_total,
        ).rank(),
{
}

/// A user in a consistent tracker has only one position.
pub proof fn lemma_position_is_unique(
    tracker: UserViolationTrackerView,
    user_id: Seq<char>,
    i: int,
)
    requires
        tracker.is_consistent(),
        tracker.is_at(user_id, i),
    ensures
        tracker.tracks(user_id),
        tracker.position(user_id) == i,
        tracker.lookup(user_id) == Some(tracker.users[i]),
{
    let p = tracker.position(user_id);
    assert(tracker.is_at(user_id, p));
    if p < i {
        assert(tracker.users[p].user_id != tracker.users[i].user_id);
    }
    if i < p {
        assert(tracker.users[i].user_id != tracker.users[p].user_id);
    }
}

/// What is stored of a user is what is found of that user afterwards; what is found of every
/// other user stays the same, and so do the thresholds. The tracker stays consistent.
pub proof fn stored_user_is_found_and_others_are_kept(
    tracker: UserViolationTrackerView,
    user: UserInfoView,
)
    requires
        tracker.is_consistent(),
        user.is_consistent(),
    ensures
        tracker.with_user(user).is_consistent(),
        tracker.with_user(user).lookup(user.user_id) == Some(user),
        forall|id: Seq<char>|
            id != user.user_id ==> #[trigger] tracker.with_user(user).lookup(id)
                == tracker.lookup(id),
        tracker.with_user(user).thresholds == tracker.thresholds,
        tracker.with_user(user).users.len() == tracker.users.len() + if tracker.tracks(
            user.user_id,
        ) {
            0int
        } else {
            1
        },
{
    let after = tracker.with_user(user);
    let place = if tracker.tracks(user.user_id) {
        tracker.position(user.user_id)
    } else {
        tracker.users.len() as int
    };
    if tracker.tracks(user.user_id) {
        assert(tracker.is_at(user.user_id, place));
    }
    assert forall|i: int, j: int| 0 <= i < j < after.users.len() implies (
    #[trigger] after.users[i]).user_id != (#[trigger] after.users[j]).user_id by {
        if i == place && tracker.is_at(user.user_id, j) {
            assert(tracker.users[i].user_id != tracker.users[j].user_id);
        }
        if j == place && tracker.is_at(user.user_id, i) {
            if tracker.tracks(user.user_id) && place < tracker.users.len() {
                assert(tracker.users[i].user_id != tracker.users[j].user_id);
            }
        }
    }
    assert(after.is_consistent());
    assert(after.is_at(user.user_id, place));
    lemma_position_is_unique(after, user.user_id, place);
    assert forall|id: Seq<char>| id != user.user_id implies #[trigger] after.lookup(id)
        == tracker.lookup(id) by {
        if tracker.tracks(id) {
            let p = tracker.position(id);
            assert(tracker.is_at(id, p));
            assert(after.is_at(id, p));
            lemma_position_is_unique(after, id, p);
        } else if after.tracks(id) {
            let p = after.position(id);
            assert(after.is_at(id, p));
            assert(tracker.is_at(id, p));
        }
    }
}

/// What is known of a user in a consistent tracker is consistent and carries the user's id.
pub proof fn found_user_is_consistent(tracker: UserViolationTrackerView, user_id: Seq<char>)
    requires
        tracker.is_consistent(),
    ensures
        tracker.lookup(user_id) matches Some(user) ==> user.is_consistent() && user.user_id
            == user_id,
{
    if tracker.tracks(user_id) {
        assert(tracker.is_at(user_id, tracker.position(user_id)));
    }
}

/// After a violation the user is found with one more violation, a total risk score that grew by
/// the risk score of the message, the message as the last record, and the standing that these
/// figures lead to. Nothing else about other users changes.
pub proof fn recorded_violation_is_found(
    tracker: UserViolationTrackerView,
    user_id: Seq<char>,
    report: ViolationReport,
)
    requires
        tracker.is_consistent(),
        0 <= report.result.risk_score <= u8::MAX,
    ensures
        ({
            let user = tracker.user_after_violation(user_id, report);
            let after = tracker.with_user(user);
            let (count, total) = match tracker.lookup(user_id) {
                Some(known) => (known.violation_count, known.total_risk_score),
                None => (0, 0),
            };
            &&& after.is_consistent()
            &&& after.lookup(user_id) == Some(user)
            &&& user.user_id == user_id
            &&& user.violation_count == count + 1
            &&& user.total_risk_score == total + report.result.risk_score
            &&& user.records.last() == report.record()
            &&& user.groups.contains(report.group_id)
            &&& user.last_violation_at == Some(report.timestamp)
            &&& user.status == tracker.thresholds.status_for(count + 1, user.total_risk_score)
            &&& forall|id: Seq<char>|
                id != user_id ==> #[trigger] after.lookup(id) == tracker.lookup(id)
        }),
{
    found_user_is_consistent(tracker, user_id);
    let known = match tracker.lookup(user_id) {
        Some(user) => user,
        None => UserInfoView::fresh(user_id, report.user_name),
    };
    assert(known.is_consistent());
    lemma_record_keeps_consistency(known, report);
    let user = tracker.user_after_violation(user_id, report);
    assert(known.with_record(report).records.last() == report.record());
    assert(user.groups.contains(report.group_id)) by {
        let recorded = known.with_record(report);
        assert(recorded.groups.contains(recorded.records[recorded.records.len() - 1].group_id));
    }
    stored_user_is_found_and_others_are_kept(tracker, user);
}

/// A violation never makes the standing milder than what the user's figures led to before.
pub proof fn violation_never_improves_the_earned_status(
    user: UserInfoView,
    report: ViolationReport,
    thresholds: Thresholds,
)
    requires
        0 <= report.result.risk_score,
    ensures
        thresholds.status_for(user.violation_count, user.total_risk_score).rank()
            <= user.after_violation(report, thresholds).status.rank(),
{
}

/// A violation notes a time of change exactly when the standing changes.
pub proof fn violation_dates_the_status_only_when_it_changes(
    user: UserInfoView,
    report: ViolationReport,
    thresholds: Thresholds,
)
    ensures
        user.after_violation(report, thresholds).status_updated_at == if user.after_violation(
            report,
            thresholds,
        ).status == user.status {
            user.status_updated_at
        } else {
            Some(report.timestamp)
        },
{
}

/// The name that a user was first recorded with is kept; a name is filled in once it is known.
pub proof fn first_known_name_is_kept(
    user: UserInfoView,
    report: ViolationReport,
    thresholds: Thresholds,
)
    ensures
        user.user_name is Some ==> user.after_violation(report, thresholds).user_name
            == user.user_name,
        user.user_name is None ==> user.after_violation(report, thresholds).user_name
            == report.user_name,
{
}

/// An action keeps the user's figures in agreement with the records, the id, the name and the
/// groups, and notes the time. All but a reset keep the records too.
pub proof fn action_keeps_the_user_consistent(
    user: UserInfoView,
    action: UserAction,
    timestamp: i64,
    thresholds: Thresholds,
)
    requires
        user.is_consistent(),
    ensures
        ({
            let after = user.after_action(action, timestamp, thresholds);
            &&& after.is_consistent()
            &&& after.user_id == user.user_id
            &&& after.user_name == user.user_name
            &&& after.groups == user.groups
            &&& after.status_updated_at == Some(timestamp)
            &&& action != UserAction::Reset ==> after.records == user.records
                && after.violation_count == user.violation_count && after.total_risk_score
                == user.total_risk_score && after.last_violation_at == user.last_violation_at
        }),
{
}

/// Lifting a mute or a ban gives a user back the standing that the figures lead to, whatever
/// warnings, mutes and bans came before.
pub proof fn lifting_restores_the_earned_status(
    user: UserInfoView,
    imposed: UserAction,
    lifting: UserAction,
    imposed_at: i64,
    lifted_at: i64,
    thresholds: Thresholds,
)
    requires
        imposed != UserAction::Reset,
        lifting == UserAction::Unmute || lifting == UserAction::Unban,
    ensures
        user.after_action(imposed, imposed_at, thresholds).after_action(
            lifting,
            lifted_at,
            thresholds,
        ) == user.after_action(lifting, lifted_at, thresholds),
        user.after_action(lifting, lifted_at, thresholds).status == thresholds.status_for(
            user.violation_count,
            user.total_risk_score,
        ),
{
}

/// A reset leaves no trace of the violations; the user stays normal when a ban is lifted
/// afterwards, unless a threshold is zero.
pub proof fn reset_wipes_the_violations(
    user: UserInfoView,
    timestamp: i64,
    later: i64,
    thresholds: Thresholds,
)
    ensures
        ({
            let after = user.after_action(UserAction::Reset, timestamp, thresholds);
            &&& after.status == UserStatus::Normal
            &&& after.violation_count == 0
            &&& after.total_risk_score == 0
            &&& after.last_violation_at is None
            &&& after.records.len() == 0
            &&& thresholds.warning > 0 && thresholds.mute > 0 && thresholds.ban > 0
                ==> after.after_action(UserAction::Unban, later, thresholds).status
                == UserStatus::Normal
        }),
{
}

/// Taking an action a second time at the same moment changes nothing.
pub proof fn action_taken_twice_is_taken_once(
    user: UserInfoView,
    action: UserAction,
    timestamp: i64,
    thresholds: Thresholds,
)
    ensures
        user.after_action(action, timestamp, thresholds).after_action(
            action,
            timestamp,
            thresholds,
        ) == user.after_action(action, timestamp, thresholds),
{
}

/// Every tracked user has exactly one standing: the counts by standing add up to all users.
pub proof fn status_counts_add_up(tracker: UserViolationTrackerView)
    ensures
        tracker.count(has_status(UserStatus::Normal)) + tracker.count(
            has_status(UserStatus::Warned),
        ) + tracker.count(has_status(UserStatus::Muted)) + tracker.count(
            has_status(UserStatus::Banned),
        ) == tracker.users.len(),
{
    lemma_status_counts(tracker.users);
}

proof fn lemma_status_counts(users: Seq<UserInfoView>)
    ensures
        users.filter(has_status(UserStatus::Normal)).len() + users.filter(
            has_status(UserStatus::Warned),
        ).len() + users.filter(has_status(UserStatus::Muted)).len() + users.filter(
            has_status(UserStatus::Banned),
        ).len() == users.len(),
    decreases users.len(),
{
    reveal(Seq::filter);
    if users.len() > 0 {
        lemma_status_counts(users.drop_last());
    }
}

/// The number of all users' violations together.
pub open spec fn violations_of(users: Seq<UserInfoView>) -> int
    decreases users.len(),
{
    if users.len() == 0 {
        0
    } else {
        violations_of(users.drop_last()) + users.last().violation_count
    }
}

/// In a consistent tracker there are as many records as violations.
pub proof fn records_and_violations_agree(tracker: UserViolationTrackerView)
    requires
        tracker.is_consistent(),
    ensures
        tracker.record_count() == violations_of(tracker.users),
{
    lemma_records_are_violations(tracker.users);
}

proof fn lemma_records_are_violations(users: Seq<UserInfoView>)
    requires
        forall|i: int| 0 <= i < users.len() ==> (#[trigger] users[i]).is_consistent(),
    ensures
        records_of(users) == violations_of(users),
    decreases users.len(),
{
    if users.len() > 0 {
        lemma_records_are_violations(users.drop_last());
    }
}

/// Asking for fewer violations lists at least as many users, and asking for none lists all.
pub proof fn fewer_required_violations_list_more_users(
    tracker: UserViolationTrackerView,
    fewer: int,
    more: int,
)
    requires
        tracker.is_consistent(),
        fewer <= more,
    ensures
        tracker.list(has_violations(more)).len() <= tracker.list(has_violations(fewer)).len(),
        tracker.list(has_violations(0)).len() == tracker.users.len(),
{
    lemma_violation_lists(tracker.users, fewer, more);
}

proof fn lemma_violation_lists(users: Seq<UserInfoView>, fewer: int, more: int)
    requires
        forall|i: int| 0 <= i < users.len() ==> (#[trigger] users[i]).is_consistent(),
        fewer <= more,
    ensures
        users.filter(has_violations(more)).len() <= users.filter(has_violations(fewer)).len(),
        users.filter(has_violations(0)).len() == users.len(),
    decreases users.len(),
{
    reveal(Seq::filter);
    if users.len() > 0 {
        lemma_violation_lists(users.drop_last(), fewer, more);
        assert(users[users.len() - 1].is_consistent());
    }
}

/// The count of a standing among the figures over all users.
pub open spec fn status_figure(stats: UserStatistics, status: UserStatus) -> usize {
    match status {
        UserStatus::Normal => stats.normal_count,
        UserStatus::Warned => stats.warned_count,
        UserStatus::Muted => stats.muted_count,
        UserStatus::Banned => stats.banned_count,
    }
}

/// The figures agree with the lists: the count of a standing is the length of the list by that
/// standing, the users with violations are those listed with at least one, and the tracked users
/// are those listed with at least none. The counts by standing add up to the tracked users, and
/// the records are as many as the violations.
pub proof fn statistics_agree_with_the_lists(
    tracker: UserViolationTrackerView,
    stats: UserStatistics,
)
    requires
        tracker.is_consistent(),
        tracker.has_statistics(stats),
    ensures
        forall|status: UserStatus| #[trigger]
            status_figure(stats, status) == tracker.list(has_status(status)).len(),
        stats.users_with_violations == tracker.list(has_violations(1)).len(),
        stats.users_with_violations == tracker.count(has_violations(1)),
        stats.total_tracked_users == tracker.list(has_violations(0)).len(),
        stats.total_tracked_users == tracker.count(has_violations(0)),
        stats.normal_count + stats.warned_count + stats.muted_count + stats.banned_count
            == stats.total_tracked_users,
        stats.total_violation_records == violations_of(tracker.users),
        stats.users_with_violations <= stats.total_tracked_users,
{
    fewer_required_violations_list_more_users(tracker, 0, 1);
    status_counts_add_up(tracker);
    records_and_violations_agree(tracker);
}

/// A user is listed under a standing exactly when the user has it.
pub proof fn users_are_listed_under_their_status(
    tracker: UserViolationTrackerView,
    status: UserStatus,
    i: int,
)
    requires
        0 <= i < tracker.users.len(),
    ensures
        tracker.users[i].status == status ==> tracker.list(has_status(status)).contains(
            tracker.users[i].summary(),
        ),
        forall|k: int|
            0 <= k < tracker.list(has_status(status)).len() ==> (#[trigger] tracker.list(
                has_status(status),
            )[k]).status == status,
{
    let chosen = has_status(status);
    let found = tracker.users.filter(chosen);
    lemma_filter_keeps(tracker.users, chosen);
    if tracker.users[i].status == status {
        assert(chosen(tracker.users[i]));
        assert(found.contains(tracker.users[i]));
        let k = choose|k: int| 0 <= k < found.len() && found[k] == tracker.users[i];
        assert(tracker.list(chosen)[k] == tracker.users[i].summary());
    }
    assert forall|k: int| 0 <= k < tracker.list(chosen).len() implies (#[trigger] tracker.list(
        chosen,
    )[k]).status == status by {
        assert(chosen(found[k]));
    }
}

/// The total risk score of a consistent user is at most 255 for each violation.
pub proof fn total_risk_is_bounded_by_the_count(user: UserInfoView)
    requires
        user.is_consistent(),
    ensures
        0 <= user.total_risk_score <= u8::MAX * user.violation_count,
{
    lemma_total_risk_bounds(user.records);
}

} // verus!
