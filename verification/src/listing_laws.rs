//! How the lists of users and the figures over them agree with what is known of each user.

use crate::seqs::{lemma_filter_keeps, lemma_filters_keep_as_many};
use crate::standing_laws::{lookup_finds_the_user_with_the_id, status_is_known_by_its_name};
use crate::user_tracker::{
    has_status, has_violations, records_of, total_risk, UserInfoView, UserStatistics, UserStatus,
    UserViolationTrackerView, ViolationUserSummaryView,
};
use vstd::prelude::*;

verus! {

/// Whether a summary says of a user what is known of that user, and names the standing.
pub open spec fn sums_up(summary: ViolationUserSummaryView, user: UserInfoView) -> bool {
    &&& summary.user_id == user.user_id
    &&& summary.user_name == user.user_name
    &&& summary.status == user.status
    &&& summary.status_name == "正常"@ <==> user.status == UserStatus::Normal
    &&& summary.status_name == "警告"@ <==> user.status == UserStatus::Warned
    &&& summary.status_name == "禁言"@ <==> user.status == UserStatus::Muted
    &&& summary.status_name == "封禁"@ <==> user.status == UserStatus::Banned
    &&& summary.violation_count == user.violation_count
    &&& summary.total_risk_score == user.total_risk_score
    &&& summary.groups == user.groups
    &&& summary.last_violation_at == user.last_violation_at
}

/// Looking up the id of a listed summary finds a user whom the summary sums up. Its count is the
/// number of that user's records, and its total the sum of their risk scores.
pub proof fn listed_summary_agrees_with_the_lookup(
    tracker: UserViolationTrackerView,
    chosen: spec_fn(UserInfoView) -> bool,
    k: int,
)
    requires
        tracker.is_consistent(),
        0 <= k < tracker.list(chosen).len(),
    ensures
        ({
            let summary = tracker.list(chosen)[k];
            &&& tracker.lookup(summary.user_id) matches Some(user)
            &&& chosen(user)
            &&& sums_up(summary, user)
            &&& summary.violation_count == user.records.len()
            &&& summary.total_risk_score == total_risk(user.records)
        }),
{
    let found = tracker.users.filter(chosen);
    lemma_filter_keeps(tracker.users, chosen);
    let user = found[k];
    assert(chosen(user));
    assert(tracker.users.contains(user));
    let i = choose|i: int| 0 <= i < tracker.users.len() && tracker.users[i] == user;
    assert(tracker.users[i].is_consistent());
    lookup_finds_the_user_with_the_id(tracker, user.user_id);
    status_is_known_by_its_name(user.status);
}

/// Every tracked user with at least the given number of violations is listed, and each user
/// listed has that many; so it is with the users of a standing.
pub proof fn lists_hold_whom_they_are_asked_for(
    tracker: UserViolationTrackerView,
    min_violations: int,
    status: UserStatus,
)
    ensures
        forall|k: int|
            0 <= k < tracker.list(has_violations(min_violations)).len() ==> (
            #[trigger] tracker.list(has_violations(min_violations))[k]).violation_count
                >= min_violations,
        forall|i: int|
            0 <= i < tracker.users.len() && (#[trigger] tracker.users[i]).violation_count
                >= min_violations ==> exists|k: int|
                0 <= k < tracker.list(has_violations(min_violations)).len() && sums_up(
                    #[trigger] tracker.list(has_violations(min_violations))[k],
                    tracker.users[i],
                ),
        forall|k: int|
            0 <= k < tracker.list(has_status(status)).len() ==> (#[trigger] tracker.list(
                has_status(status),
            )[k]).status == status,
        forall|i: int|
            0 <= i < tracker.users.len() && (#[trigger] tracker.users[i]).status == status
                ==> exists|k: int|
                0 <= k < tracker.list(has_status(status)).len() && sums_up(
                    #[trigger] tracker.list(has_status(status))[k],
                    tracker.users[i],
                ),
{
    lemma_list_holds_the_chosen(tracker, has_violations(min_violations));
    lemma_list_holds_the_chosen(tracker, has_status(status));
    assert forall|k: int|
        0 <= k < tracker.list(has_violations(min_violations)).len() implies (
    #[trigger] tracker.list(has_violations(min_violations))[k]).violation_count
        >= min_violations by {
        assert(has_violations(min_violations)(
            tracker.users.filter(has_violations(min_violations))[k],
        ));
    }
    assert forall|k: int| 0 <= k < tracker.list(has_status(status)).len() implies (
    #[trigger] tracker.list(has_status(status))[k]).status == status by {
        assert(has_status(status)(tracker.users.filter(has_status(status))[k]));
    }
    assert forall|i: int|
        0 <= i < tracker.users.len() && (#[trigger] tracker.users[i]).violation_count
            >= min_violations implies exists|k: int|
        0 <= k < tracker.list(has_violations(min_violations)).len() && sums_up(
            #[trigger] tracker.list(has_violations(min_violations))[k],
            tracker.users[i],
        ) by {
        assert(has_violations(min_violations)(tracker.users[i]));
    }
    assert forall|i: int|
        0 <= i < tracker.users.len() && (#[trigger] tracker.users[i]).status
            == status implies exists|k: int|
        0 <= k < tracker.list(has_status(status)).len() && sums_up(
            #[trigger] tracker.list(has_status(status))[k],
            tracker.users[i],
        ) by {
        assert(has_status(status)(tracker.users[i]));
    }
}

proof fn lemma_list_holds_the_chosen(
    tracker: UserViolationTrackerView,
    chosen: spec_fn(UserInfoView) -> bool,
)
    ensures
        forall|k: int|
            0 <= k < tracker.list(chosen).len() ==> chosen(
                #[trigger] tracker.users.filter(chosen)[k],
            ),
        forall|i: int|
            #![trigger chosen(tracker.users[i])]
            0 <= i < tracker.users.len() && chosen(tracker.users[i]) ==> exists|k: int|
                0 <= k < tracker.list(chosen).len() && sums_up(
                    #[trigger] tracker.list(chosen)[k],
                    tracker.users[i],
                ),
{
    let found = tracker.users.filter(chosen);
    lemma_filter_keeps(tracker.users, chosen);
    assert forall|i: int|
        #![trigger chosen(tracker.users[i])]
        0 <= i < tracker.users.len() && chosen(tracker.users[i]) implies exists|k: int|
        0 <= k < tracker.list(chosen).len() && sums_up(
            #[trigger] tracker.list(chosen)[k],
            tracker.users[i],
        ) by {
        assert(found.contains(tracker.users[i]));
        let k = choose|k: int| 0 <= k < found.len() && found[k] == tracker.users[i];
        status_is_known_by_its_name(tracker.users[i].status);
        assert(sums_up(tracker.list(chosen)[k], tracker.users[i]));
    }
}

/// The tracker with one more user, who comes last.
pub open spec fn followed_by(
    tracker: UserViolationTrackerView,
    user: UserInfoView,
) -> UserViolationTrackerView {
    UserViolationTrackerView { users: tracker.users.push(user), ..tracker }
}

/// Users are listed one by one in the order in which they are tracked: one more user is listed
/// last where the list asks for them, and the earlier users are listed as before.
pub proof fn users_are_listed_one_by_one(
    tracker: UserViolationTrackerView,
    user: UserInfoView,
    min_violations: int,
    status: UserStatus,
)
    ensures
        ({
            let before = tracker.list(has_violations(min_violations));
            let after = followed_by(tracker, user).list(has_violations(min_violations));
            &&& user.violation_count >= min_violations ==> after.len() == before.len() + 1
                && after.drop_last() == before && sums_up(after.last(), user)
            &&& user.violation_count < min_violations ==> after == before
        }),
        ({
            let before = tracker.list(has_status(status));
            let after = followed_by(tracker, user).list(has_status(status));
            &&& user.status == status ==> after.len() == before.len() + 1 && after.drop_last()
                == before && sums_up(after.last(), user)
            &&& user.status != status ==> after == before
        }),
        tracker.users.len() == 0 ==> tracker.list(has_violations(min_violations)).len() == 0
            && tracker.list(has_status(status)).len() == 0,
{
    reveal(Seq::filter);
    lemma_list_grows(tracker, user, has_violations(min_violations));
    lemma_list_grows(tracker, user, has_status(status));
}

proof fn lemma_list_grows(
    tracker: UserViolationTrackerView,
    user: UserInfoView,
    chosen: spec_fn(UserInfoView) -> bool,
)
    ensures
        ({
            let before = tracker.list(chosen);
            let after = followed_by(tracker, user).list(chosen);
            &&& chosen(user) ==> after.len() == before.len() + 1 && after.drop_last() == before
                && sums_up(after.last(), user)
            &&& !chosen(user) ==> after == before
        }),
{
    reveal(Seq::filter);
    assert(tracker.users.push(user).drop_last() =~= tracker.users);
    assert(tracker.users.push(user).last() == user);
    status_is_known_by_its_name(user.status);
    let before = tracker.list(chosen);
    let after = followed_by(tracker, user).list(chosen);
    if chosen(user) {
        assert(after.drop_last() =~= before);
    } else {
        assert(after =~= before);
    }
}

/// A list is as long as there are users who satisfy what it asks for.
pub proof fn count_is_the_length_of_the_list(
    tracker: UserViolationTrackerView,
    chosen: spec_fn(UserInfoView) -> bool,
)
    ensures
        tracker.count(chosen) == tracker.list(chosen).len(),
        tracker.count(chosen) == tracker.users.filter(chosen).len(),
{
}

/// The figures over all users, counted directly: the users, those with a violation, those of
/// each standing.
pub proof fn statistics_count_the_users(tracker: UserViolationTrackerView, stats: UserStatistics)
    requires
        tracker.has_statistics(stats),
    ensures
        stats.total_tracked_users == tracker.users.len(),
        stats.users_with_violations == tracker.users.filter(
            |u: UserInfoView| u.violation_count > 0,
        ).len(),
        stats.normal_count == tracker.users.filter(
            |u: UserInfoView| u.status == UserStatus::Normal,
        ).len(),
        stats.warned_count == tracker.users.filter(
            |u: UserInfoView| u.status == UserStatus::Warned,
        ).len(),
        stats.muted_count == tracker.users.filter(
            |u: UserInfoView| u.status == UserStatus::Muted,
        ).len(),
        stats.banned_count == tracker.users.filter(
            |u: UserInfoView| u.status == UserStatus::Banned,
        ).len(),
        stats.total_violation_records == records_of(tracker.users),
{
    let users = tracker.users;
    lemma_filters_keep_as_many(
        users,
        has_violations(1),
        users,
        |u: UserInfoView| u.violation_count > 0,
    );
    lemma_filters_keep_as_many(
        users,
        has_status(UserStatus::Normal),
        users,
        |u: UserInfoView| u.status == UserStatus::Normal,
    );
    lemma_filters_keep_as_many(
        users,
        has_status(UserStatus::Warned),
        users,
        |u: UserInfoView| u.status == UserStatus::Warned,
    );
    lemma_filters_keep_as_many(
        users,
        has_status(UserStatus::Muted),
        users,
        |u: UserInfoView| u.status == UserStatus::Muted,
    );
    lemma_filters_keep_as_many(
        users,
        has_status(UserStatus::Banned),
        users,
        |u: UserInfoView| u.status == UserStatus::Banned,
    );
}

/// The records of two lists of users together are those of the one and those of the other; a
/// single user has their own, and no users have none.
pub proof fn records_add_up(a: Seq<UserInfoView>, b: Seq<UserInfoView>, user: UserInfoView)
    ensures
        records_of(a + b) == records_of(a) + records_of(b),
        records_of(seq![user]) == user.records.len(),
        records_of(seq![]) == 0,
    decreases b.len(),
{
    assert(seq![user].drop_last() =~= Seq::<UserInfoView>::empty());
    assert(seq![user].last() == user);
    reveal_with_fuel(records_of, 2);
    if b.len() == 0 {
        assert(a + b =~= a);
    } else {
        records_add_up(a, b.drop_last(), user);
        assert((a + b).drop_last() =~= a + b.drop_last());
    }
}

} // verus!
