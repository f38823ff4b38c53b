//! Who has committed which violations, and the standing that follows from them.

use crate::api::clone_opt;
use crate::listing_laws::lists_hold_whom_they_are_asked_for;
use crate::moderation::{opt_text, ModerationResult, ModerationResultView, Violation, ViolationView};
use crate::seqs::lemma_filter_step;
use crate::text::contains_string;
use crate::user_tracker_laws::{found_user_is_consistent, recorded_violation_is_found};
use vstd::hash_map::StringHashMap;
use vstd::prelude::*;

verus! {

/// The standing of a user.
#[derive(Debug, Clone, Copy, PartialEq, Eq, Structural)]
pub enum UserStatus {
    Normal,
    Warned,
    Muted,
    Banned,
}

impl UserStatus {
    /// The name shown to people.
    pub open spec fn name(self) -> Seq<char> {
        match self {
            UserStatus::Normal => "正常"@,
            UserStatus::Warned => "警告"@,
            UserStatus::Muted => "禁言"@,
            UserStatus::Banned => "封禁"@,
        }
    }

    /// How severe the standing is: a larger rank restricts more.
    pub open spec fn rank(self) -> int {
        match self {
            UserStatus::Normal => 0,
            UserStatus::Warned => 1,
            UserStatus::Muted => 2,
            UserStatus::Banned => 3,
        }
    }

    /// The name shown to people, as a string.
    pub fn to_string(&self) -> (s: String)
        ensures
            s@ == self.name(),
    {
        match self {
            UserStatus::Normal => "正常".to_owned(),
            UserStatus::Warned => "警告".to_owned(),
            UserStatus::Muted => "禁言".to_owned(),
            UserStatus::Banned => "封禁".to_owned(),
        }
    }
}

/// A violation on record.
#[derive(Debug)]
pub struct ViolationRecord {
    pub message_content: String,
    pub group_id: String,
    pub violation_types: Vec<String>,
    pub risk_score: u8,
    pub suggestion: String,
    pub timestamp: i64,
}

/// The mathematical content of a [`ViolationRecord`].
pub struct ViolationRecordView {
    pub message_content: Seq<char>,
    pub group_id: Seq<char>,
    pub violation_types: Seq<Seq<char>>,
    pub risk_score: int,
    pub suggestion: Seq<char>,
    pub timestamp: i64,
}

impl View for ViolationRecord {
    type V = ViolationRecordView;

    open spec fn view(&self) -> ViolationRecordView {
        ViolationRecordView {
            message_content: self.message_content@,
            group_id: self.group_id@,
            violation_types: self.violation_types.deep_view(),
            risk_score: self.risk_score as int,
            suggestion: self.suggestion@,
            timestamp: self.timestamp,
        }
    }
}

impl DeepView for ViolationRecord {
    type V = ViolationRecordView;

    open spec fn deep_view(&self) -> ViolationRecordView {
        self@
    }
}

/// A copy of some strings.
pub fn clone_strings(strings: &Vec<String>) -> (copy: Vec<String>)
    ensures
        copy.deep_view() == strings.deep_view(),
{
    let copy = strings.clone();
    assert(copy.deep_view() =~= strings.deep_view());
    copy
}

impl Clone for ViolationRecord {
    fn clone(&self) -> (copy: Self)
        ensures
            copy@ == self@,
    {
        ViolationRecord {
            message_content: self.message_content.clone(),
            group_id: self.group_id.clone(),
            violation_types: clone_strings(&self.violation_types),
            risk_score: self.risk_score,
            suggestion: self.suggestion.clone(),
            timestamp: self.timestamp,
        }
    }
}

/// What is known of a user.
#[derive(Debug)]
pub struct UserInfo {
    pub user_id: String,
    pub user_name: Option<String>,
    pub status: UserStatus,
    pub violation_count: u32,
    pub total_risk_score: u64,
    pub groups: Vec<String>,
    pub last_violation_at: Option<i64>,
    pub status_updated_at: Option<i64>,
    pub records: Vec<ViolationRecord>,
}

/// The mathematical content of a [`UserInfo`].
pub struct UserInfoView {
    pub user_id: Seq<char>,
    pub user_name: Option<Seq<char>>,
    pub status: UserStatus,
    pub violation_count: int,
    pub total_risk_score: int,
    pub groups: Seq<Seq<char>>,
    pub last_violation_at: Option<i64>,
    pub status_updated_at: Option<i64>,
    pub records: Seq<ViolationRecordView>,
}

impl View for UserInfo {
    type V = UserInfoView;

    open spec fn view(&self) -> UserInfoView {
        UserInfoView {
            user_id: self.user_id@,
            user_name: opt_text(self.user_name),
            status: self.status,
            violation_count: self.violation_count as int,
            total_risk_score: self.total_risk_score as int,
            groups: self.groups.deep_view(),
            last_violation_at: self.last_violation_at,
            status_updated_at: self.status_updated_at,
            records: self.records.deep_view(),
        }
    }
}

impl DeepView for UserInfo {
    type V = UserInfoView;

    open spec fn deep_view(&self) -> UserInfoView {
        self@
    }
}

impl Clone for UserInfo {
    fn clone(&self) -> (copy: Self)
        ensures
            copy@ == self@,
    {
        let records = self.records.clone();
        assert(records.deep_view() =~= self.records.deep_view());
        UserInfo {
            user_id: self.user_id.clone(),
            user_name: clone_opt(&self.user_name),
            status: self.status,
            violation_count: self.violation_count,
            total_risk_score: self.total_risk_score,
            groups: clone_strings(&self.groups),
            last_violation_at: self.last_violation_at,
            status_updated_at: self.status_updated_at,
            records,
        }
    }
}

/// The counts at which a user is warned, muted and banned.
pub struct Thresholds {
    pub warning: u32,
    pub mute: u32,
    pub ban: u32,
}

impl Thresholds {
    /// The standing that a number of violations and a total risk score lead to.
    pub open spec fn status_for(self, count: int, total: int) -> UserStatus {
        if count >= self.ban || total >= 300 {
            UserStatus::Banned
        } else if count >= self.mute || total >= 150 {
            UserStatus::Muted
        } else if count >= self.warning || total >= 50 {
            UserStatus::Warned
        } else {
            UserStatus::Normal
        }
    }
}

/// The risk scores of the records together.
pub open spec fn total_risk(records: Seq<ViolationRecordView>) -> int
    decreases records.len(),
{
    if records.len() == 0 {
        0
    } else {
        total_risk(records.drop_last()) + records.last().risk_score
    }
}

/// A violation as it is reported: who committed it, where, and what was found.
pub struct ViolationReport {
    pub user_name: Option<Seq<char>>,
    pub group_id: Seq<char>,
    pub content: Seq<char>,
    pub result: ModerationResultView,
    pub timestamp: i64,
}

impl ViolationReport {
    /// The record of the violation.
    pub open spec fn record(self) -> ViolationRecordView {
        ViolationRecordView {
            message_content: self.content,
            group_id: self.group_id,
            violation_types: self.result.violations.map_values(
                |v: ViolationView| v.violation_type.code(),
            ),
            risk_score: self.result.risk_score,
            suggestion: self.result.suggestion.code(),
            timestamp: self.timestamp,
        }
    }
}

impl UserInfoView {
    /// A user of whom nothing is known yet.
    pub open spec fn fresh(user_id: Seq<char>, user_name: Option<Seq<char>>) -> UserInfoView {
        UserInfoView {
            user_id,
            user_name,
            status: UserStatus::Normal,
            violation_count: 0,
            total_risk_score: 0,
            groups: seq![],
            last_violation_at: None,
            status_updated_at: None,
            records: seq![],
        }
    }

    /// Whether the figures agree with the records: the count and the total risk score are those
    /// of the records, the last violation is that of the last record, and every record's group
    /// is listed, once.
    pub open spec fn is_consistent(self) -> bool {
        &&& self.violation_count == self.records.len()
        &&& self.total_risk_score == total_risk(self.records)
        &&& self.last_violation_at == if self.records.len() == 0 {
            None
        } else {
            Some(self.records.last().timestamp)
        }
        &&& self.groups.no_duplicates()
        &&& forall|k: int|
            0 <= k < self.records.len() ==> self.groups.contains(
                (#[trigger] self.records[k]).group_id,
            )
        &&& forall|k: int|
            0 <= k < self.records.len() ==> 0 <= (#[trigger] self.records[k]).risk_score
                <= u8::MAX
    }

    /// The user with one more violation on record, the standing not yet revised.
    pub open spec fn with_record(self, report: ViolationReport) -> UserInfoView {
        UserInfoView {
            user_name: if self.user_name is None {
                report.user_name
            } else {
                self.user_name
            },
            groups: if self.groups.contains(report.group_id) {
                self.groups
            } else {
                self.groups.push(report.group_id)
            },
            violation_count: self.violation_count + 1,
            total_risk_score: self.total_risk_score + report.result.risk_score,
            last_violation_at: Some(report.timestamp),
            records: self.records.push(report.record()),
            ..self
        }
    }

    /// The user with the given standing; the time of the change is noted where there is one.
    pub open spec fn revised(self, status: UserStatus, timestamp: i64) -> UserInfoView {
        if status == self.status {
            self
        } else {
            UserInfoView { status, status_updated_at: Some(timestamp), ..self }
        }
    }

    /// The user after one more violation.
    pub open spec fn after_violation(
        self,
        report: ViolationReport,
        thresholds: Thresholds,
    ) -> UserInfoView {
        let recorded = self.with_record(report);
        recorded.revised(
            thresholds.status_for(recorded.violation_count, recorded.total_risk_score),
            report.timestamp,
        )
    }

    /// The user after a moderator's action.
    pub open spec fn after_action(
        self,
        action: UserAction,
        timestamp: i64,
        thresholds: Thresholds,
    ) -> UserInfoView {
        let acted = match action {
            UserAction::Warn => UserInfoView { status: UserStatus::Warned, ..self },
            UserAction::Mute => UserInfoView { status: UserStatus::Muted, ..self },
            UserAction::Ban => UserInfoView { status: UserStatus::Banned, ..self },
            UserAction::Unmute | UserAction::Unban => UserInfoView {
                status: thresholds.status_for(self.violation_count, self.total_risk_score),
                ..self
            },
            UserAction::Reset => UserInfoView {
                status: UserStatus::Normal,
                violation_count: 0,
                total_risk_score: 0,
                last_violation_at: None,
                records: seq![],
                ..self
            },
        };
        UserInfoView { status_updated_at: Some(timestamp), ..acted }
    }

    /// The user as listed.
    pub open spec fn summary(self) -> ViolationUserSummaryView {
        ViolationUserSummaryView {
            user_id: self.user_id,
            user_name: self.user_name,
            status: self.status,
            status_name: self.status.name(),
            violation_count: self.violation_count,
            total_risk_score: self.total_risk_score,
            groups: self.groups,
            last_violation_at: self.last_violation_at,
        }
    }
}

/// A user as listed.
#[derive(Debug, Clone)]
pub struct ViolationUserSummary {
    pub user_id: String,
    pub user_name: Option<String>,
    pub status: UserStatus,
    pub status_name: String,
    pub violation_count: u32,
    pub total_risk_score: u64,
    pub groups: Vec<String>,
    pub last_violation_at: Option<i64>,
}

/// The mathematical content of a [`ViolationUserSummary`].
pub struct ViolationUserSummaryView {
    pub user_id: Seq<char>,
    pub user_name: Option<Seq<char>>,
    pub status: UserStatus,
    pub status_name: Seq<char>,
    pub violation_count: int,
    pub total_risk_score: int,
    pub groups: Seq<Seq<char>>,
    pub last_violation_at: Option<i64>,
}

impl View for ViolationUserSummary {
    type V = ViolationUserSummaryView;

    open spec fn view(&self) -> ViolationUserSummaryView {
        ViolationUserSummaryView {
            user_id: self.user_id@,
            user_name: opt_text(self.user_name),
            status: self.status,
            status_name: self.status_name@,
            violation_count: self.violation_count as int,
            total_risk_score: self.total_risk_score as int,
            groups: self.groups.deep_view(),
            last_violation_at: self.last_violation_at,
        }
    }
}

impl DeepView for ViolationUserSummary {
    type V = ViolationUserSummaryView;

    open spec fn deep_view(&self) -> ViolationUserSummaryView {
        self@
    }
}

/// A list of users.
#[derive(Debug, Clone)]
pub struct ViolationUserListResponse {
    pub users: Vec<ViolationUserSummary>,
    pub total: usize,
}

/// The request that a moderator's action be taken.
#[derive(Debug, Clone)]
pub struct UserActionRequest {
    pub action: UserAction,
    pub reason: Option<String>,
}

/// What a moderator can do to a user.
#[derive(Debug, Clone, Copy, PartialEq, Eq, Structural)]
pub enum UserAction {
    Warn,
    Mute,
    Ban,
    Unmute,
    Unban,
    Reset,
}

/// Figures over all tracked users.
#[derive(Debug, Clone)]
pub struct UserStatistics {
    pub total_tracked_users: usize,
    pub users_with_violations: usize,
    pub normal_count: usize,
    pub warned_count: usize,
    pub muted_count: usize,
    pub banned_count: usize,
    pub total_violation_records: usize,
}

impl Default for UserStatistics {
    fn default() -> (stats: Self)
        ensures
            stats == (UserStatistics {
                total_tracked_users: 0,
                users_with_violations: 0,
                normal_count: 0,
                warned_count: 0,
                muted_count: 0,
                banned_count: 0,
                total_violation_records: 0,
            }),
    {
        UserStatistics {
            total_tracked_users: 0,
            users_with_violations: 0,
            normal_count: 0,
            warned_count: 0,
            muted_count: 0,
            banned_count: 0,
            total_violation_records: 0,
        }
    }
}

/// The total risk score of records with one-byte scores.
pub proof fn lemma_total_risk_bounds(records: Seq<ViolationRecordView>)
    requires
        forall|k: int|
            0 <= k < records.len() ==> 0 <= (#[trigger] records[k]).risk_score <= u8::MAX,
    ensures
        0 <= total_risk(records) <= u8::MAX * records.len(),
    decreases records.len(),
{
    if records.len() > 0 {
        lemma_total_risk_bounds(records.drop_last());
    }
}

/// One more violation keeps the figures in agreement with the records.
pub proof fn lemma_record_keeps_consistency(user: UserInfoView, report: ViolationReport)
    requires
        user.is_consistent(),
        0 <= report.result.risk_score <= u8::MAX,
    ensures
        user.with_record(report).is_consistent(),
{
    let after = user.with_record(report);
    assert(after.records.drop_last() =~= user.records);
    if user.groups.contains(report.group_id) {
        assert(after.groups == user.groups);
    } else {
        assert(after.groups[user.groups.len() as int] == report.group_id);
    }
    assert forall|k: int| 0 <= k < after.records.len() implies after.groups.contains(
        (#[trigger] after.records[k]).group_id,
    ) by {
        if k < user.records.len() {
            let group = user.records[k].group_id;
            assert(user.groups.contains(group));
            let g = choose|g: int| 0 <= g < user.groups.len() && user.groups[g] == group;
            assert(after.groups[g] == group);
        }
    }
}

/// The machine-readable names of the kinds of violation found.
fn type_codes(violations: &Vec<Violation>) -> (codes: Vec<String>)
    ensures
        codes.deep_view() == violations.deep_view().map_values(
            |v: ViolationView| v.violation_type.code(),
        ),
{
    let mut codes: Vec<String> = Vec::new();
    let n: usize = violations.len();
    let mut i: usize = 0;
    while i < n
        invariant
            n == violations@.len(),
            i <= n,
            codes@.len() == i,
            forall|k: int|
                0 <= k < i ==> (#[trigger] codes@[k])@ == violations@[k].violation_type.code(),
        decreases n - i,
    {
        codes.push(violations[i].violation_type.to_code());
        i += 1;
    }
    assert(codes.deep_view() =~= violations.deep_view().map_values(
        |v: ViolationView| v.violation_type.code(),
    ));
    codes
}

/// The characters of an optional string slice.
pub open spec fn opt_chars(text: Option<&str>) -> Option<Seq<char>> {
    match text {
        Some(s) => Some(s@),
        None => None,
    }
}

fn opt_to_owned(text: Option<&str>) -> (owned: Option<String>)
    ensures
        opt_text(owned) == opt_chars(text),
{
    match text {
        Some(s) => Some(s.to_owned()),
        None => None,
    }
}

impl UserInfo {
    fn fresh(user_id: &str, user_name: Option<&str>) -> (user: UserInfo)
        ensures
            user@ == UserInfoView::fresh(user_id@, opt_chars(user_name)),
    {
        let user = UserInfo {
            user_id: user_id.to_owned(),
            user_name: opt_to_owned(user_name),
            status: UserStatus::Normal,
            violation_count: 0,
            total_risk_score: 0,
            groups: Vec::new(),
            last_violation_at: None,
            status_updated_at: None,
            records: Vec::new(),
        };
        proof {
            assert(user@.groups =~= seq![]);
            assert(user@.records =~= seq![]);
        }
        user
    }

    /// Puts one more violation on record.
    fn add_record(
        &mut self,
        user_name: Option<&str>,
        group_id: &str,
        content: &str,
        result: &ModerationResult,
        timestamp: i64,
    )
        requires
            old(self)@.is_consistent(),
            old(self)@.violation_count < u32::MAX,
        ensures
            final(self)@ == old(self)@.with_record(
                ViolationReport {
                    user_name: opt_chars(user_name),
                    group_id: group_id@,
                    content: content@,
                    result: result@,
                    timestamp,
                },
            ),
            final(self)@.is_consistent(),
    {
        let ghost before = self@;
        let ghost report = ViolationReport {
            user_name: opt_chars(user_name),
            group_id: group_id@,
            content: content@,
            result: result@,
            timestamp,
        };
        proof {
            lemma_total_risk_bounds(before.records);
            lemma_record_keeps_consistency(before, report);
        }
        if self.user_name.is_none() {
            self.user_name = opt_to_owned(user_name);
        }
        if !contains_string(&self.groups, group_id) {
            self.groups.push(group_id.to_owned());
        }
        proof {
            assert(self.groups.deep_view() =~= before.with_record(report).groups);
        }
        self.violation_count = self.violation_count + 1;
        self.total_risk_score = self.total_risk_score + result.risk_score as u64;
        self.last_violation_at = Some(timestamp);
        let record = ViolationRecord {
            message_content: content.to_owned(),
            group_id: group_id.to_owned(),
            violation_types: type_codes(&result.violations),
            risk_score: result.risk_score,
            suggestion: result.suggestion.to_code(),
            timestamp,
        };
        self.records.push(record);
        proof {
            assert(record@ == report.record());
            assert(self.records.deep_view() =~= before.records.push(report.record()));
        }
    }

    fn summarize(&self) -> (summary: ViolationUserSummary)
        ensures
            summary@ == self@.summary(),
            summary.user_id@ == self.user_id@,
            opt_text(summary.user_name) == opt_text(self.user_name),
            summary.status == self.status,
            summary.violation_count == self.violation_count,
            summary.total_risk_score == self.total_risk_score,
            summary.groups.deep_view() == self.groups.deep_view(),
            summary.last_violation_at == self.last_violation_at,
    {
        ViolationUserSummary {
            user_id: self.user_id.clone(),
            user_name: clone_opt(&self.user_name),
            status: self.status,
            status_name: self.status.to_string(),
            violation_count: self.violation_count,
            total_risk_score: self.total_risk_score,
            groups: clone_strings(&self.groups),
            last_violation_at: self.last_violation_at,
        }
    }
}

/// The users with a violation on record, and the thresholds of their standing.
pub struct UserViolationTracker {
    users: Vec<UserInfo>,
    positions: StringHashMap<usize>,
    warning_threshold: u32,
    mute_threshold: u32,
    ban_threshold: u32,
}

/// The mathematical content of a [`UserViolationTracker`]: the users in the order in which they
/// were first recorded.
pub struct UserViolationTrackerView {
    pub users: Seq<UserInfoView>,
    pub thresholds: Thresholds,
}

impl View for UserViolationTracker {
    type V = UserViolationTrackerView;

    closed spec fn view(&self) -> UserViolationTrackerView {
        UserViolationTrackerView {
            users: self.users.deep_view(),
            thresholds: Thresholds {
                warning: self.warning_threshold,
                mute: self.mute_threshold,
                ban: self.ban_threshold,
            },
        }
    }
}

impl UserViolationTrackerView {
    /// Whether the user at position `i` has the given id.
    pub open spec fn is_at(self, user_id: Seq<char>, i: int) -> bool {
        0 <= i < self.users.len() && self.users[i].user_id == user_id
    }

    /// Whether a user with the given id is tracked.
    pub open spec fn tracks(self, user_id: Seq<char>) -> bool {
        exists|i: int| #[trigger] self.is_at(user_id, i)
    }

    /// Where the user with the given id stands.
    pub open spec fn position(self, user_id: Seq<char>) -> int {
        choose|i: int| #[trigger] self.is_at(user_id, i)
    }

    /// What is known of the user with the given id, if anything.
    pub open spec fn lookup(self, user_id: Seq<char>) -> Option<UserInfoView> {
        if self.tracks(user_id) {
            Some(self.users[self.position(user_id)])
        } else {
            None
        }
    }

    /// Whether every user's figures agree with the records, and no id occurs twice.
    pub open spec fn is_consistent(self) -> bool {
        &&& forall|i: int| 0 <= i < self.users.len() ==> (#[trigger] self.users[i]).is_consistent()
        &&& forall|i: int, j: int|
            0 <= i < j < self.users.len() ==> (#[trigger] self.users[i]).user_id != (
            #[trigger] self.users[j]).user_id
    }

    /// The tracker with `user` in the place of the tracked user with the same id, or after all
    /// others.
    pub open spec fn with_user(self, user: UserInfoView) -> UserViolationTrackerView {
        UserViolationTrackerView {
            users: if self.tracks(user.user_id) {
                self.users.update(self.position(user.user_id), user)
            } else {
                self.users.push(user)
            },
            thresholds: self.thresholds,
        }
    }

    /// What is known of the user with the given id after one more violation.
    pub open spec fn user_after_violation(
        self,
        user_id: Seq<char>,
        report: ViolationReport,
    ) -> UserInfoView {
        let known = match self.lookup(user_id) {
            Some(user) => user,
            None => UserInfoView::fresh(user_id, report.user_name),
        };
        known.after_violation(report, self.thresholds)
    }

    /// The summaries of the users that satisfy `chosen`, in order.
    pub open spec fn list(self, chosen: spec_fn(UserInfoView) -> bool) -> Seq<
        ViolationUserSummaryView,
    > {
        self.users.filter(chosen).map_values(|u: UserInfoView| u.summary())
    }

    /// How many users satisfy `chosen`.
    pub open spec fn count(self, chosen: spec_fn(UserInfoView) -> bool) -> nat {
        self.users.filter(chosen).len()
    }

    /// Whether `stats` are the figures over all users.
    pub open spec fn has_statistics(self, stats: UserStatistics) -> bool {
        &&& stats.total_tracked_users == self.users.len()
        &&& stats.users_with_violations == self.count(has_violations(1))
        &&& stats.normal_count == self.count(has_status(UserStatus::Normal))
        &&& stats.warned_count == self.count(has_status(UserStatus::Warned))
        &&& stats.muted_count == self.count(has_status(UserStatus::Muted))
        &&& stats.banned_count == self.count(has_status(UserStatus::Banned))
        &&& stats.total_violation_records == self.record_count()
    }

    /// How many records there are of all users together.
    pub open spec fn record_count(self) -> nat {
        records_of(self.users)
    }
}

/// The predicate that a user has at least the given number of violations.
pub open spec fn has_violations(min_violations: int) -> spec_fn(UserInfoView) -> bool {
    |u: UserInfoView| u.violation_count >= min_violations
}

/// The predicate that a user has the given standing.
pub open spec fn has_status(status: UserStatus) -> spec_fn(UserInfoView) -> bool {
    |u: UserInfoView| u.status == status
}

/// How many records there are of some users together.
pub open spec fn records_of(users: Seq<UserInfoView>) -> nat
    decreases users.len(),
{
    if users.len() == 0 {
        0
    } else {
        records_of(users.drop_last()) + users.last().records.len()
    }
}

/// Leading users have no more records than all of them.
pub proof fn lemma_records_prefix(users: Seq<UserInfoView>, n: int)
    requires
        0 <= n <= users.len(),
    ensures
        records_of(users.take(n)) <= records_of(users),
    decreases users.len() - n,
{
    if n < users.len() {
        lemma_records_prefix(users, n + 1);
        assert(users.take(n + 1).drop_last() =~= users.take(n));
    } else {
        assert(users.take(n) =~= users);
    }
}

impl UserViolationTracker {
    /// Whether the positions lead to the users.
    pub closed spec fn positions_agree(&self) -> bool {
        &&& forall|i: int|
            0 <= i < self.users@.len() ==> self.positions@.contains_key(
                (#[trigger] self.users@[i]).user_id@,
            ) && self.positions@[self.users@[i].user_id@] == i
        &&& forall|id: Seq<char>| #[trigger]
            self.positions@.contains_key(id) ==> self.positions@[id] < self.users@.len()
                && self.users@[self.positions@[id] as int].user_id@ == id
    }

    /// The invariant of the tracker.
    pub open spec fn wf(&self) -> bool {
        &&& self.positions_agree()
        &&& self@.is_consistent()
    }

    /// A tracker without users.
    pub fn new(warning_threshold: u32, mute_threshold: u32, ban_threshold: u32) -> (tracker: Self)
        ensures
            tracker.wf(),
            tracker@.users == Seq::<UserInfoView>::empty(),
            tracker@.thresholds == (Thresholds {
                warning: warning_threshold,
                mute: mute_threshold,
                ban: ban_threshold,
            }),
    {
        let tracker = UserViolationTracker {
            users: Vec::new(),
            positions: StringHashMap::new(),
            warning_threshold,
            mute_threshold,
            ban_threshold,
        };
        assert(tracker@.users =~= Seq::<UserInfoView>::empty());
        tracker
    }

    /// Where the user with the given id stands, if there is one.
    fn find(&self, user_id: &str) -> (found: Option<usize>)
        requires
            self.wf(),
        ensures
            match found {
                Some(i) => i < self.users@.len() && self@.is_at(user_id@, i as int)
                    && self@.tracks(user_id@) && self@.position(user_id@) == i,
                None => !self@.tracks(user_id@),
            },
    {
        match self.positions.get(user_id) {
            Some(i) => {
                proof {
                    let p = *i as int;
                    assert(self@.users[p] == self.users@[p]@);
                    assert(self@.is_at(user_id@, p));
                    let q = self@.position(user_id@);
                    if p < q {
                        assert(self@.users[p].user_id != self@.users[q].user_id);
                    }
                    if q < p {
                        assert(self@.users[q].user_id != self@.users[p].user_id);
                    }
                }
                Some(*i)
            },
            None => {
                proof {
                    if self@.tracks(user_id@) {
                        let q = self@.position(user_id@);
                        assert(self@.users[q] == self.users@[q]@);
                    }
                }
                None
            },
        }
    }

    /// The standing that a number of violations and a total risk score lead to.
    pub fn calculate_status(&self, violation_count: u32, total_risk_score: u64) -> (status:
        UserStatus)
        ensures
            status == self@.thresholds.status_for(violation_count as int, total_risk_score as int),
            status == UserStatus::Banned <==> violation_count >= self@.thresholds.ban
                || total_risk_score >= 300,
            status == UserStatus::Muted || status == UserStatus::Banned <==> violation_count
                >= self@.thresholds.ban || violation_count >= self@.thresholds.mute
                || total_risk_score >= 150,
            status != UserStatus::Normal <==> violation_count >= self@.thresholds.ban
                || violation_count >= self@.thresholds.mute || violation_count
                >= self@.thresholds.warning || total_risk_score >= 50,
    {
        if violation_count >= self.ban_threshold || total_risk_score >= 300 {
            UserStatus::Banned
        } else if violation_count >= self.mute_threshold || total_risk_score >= 150 {
            UserStatus::Muted
        } else if violation_count >= self.warning_threshold || total_risk_score >= 50 {
            UserStatus::Warned
        } else {
            UserStatus::Normal
        }
    }

    /// Puts a violation on a user's record and revises the user's standing, which is returned.
    pub fn record_violation(
        &mut self,
        user_id: &str,
        user_name: Option<&str>,
        group_id: &str,
        content: &str,
        result: &ModerationResult,
        timestamp: i64,
    ) -> (status: UserStatus)
        requires
            old(self).wf(),
            old(self)@.lookup(user_id@) matches Some(user) ==> user.violation_count < u32::MAX,
        ensures
            final(self).wf(),
            final(self)@ == old(self)@.with_user(
                old(self)@.user_after_violation(
                    user_id@,
                    ViolationReport {
                        user_name: opt_chars(user_name),
                        group_id: group_id@,
                        content: content@,
                        result: result@,
                        timestamp,
                    },
                ),
            ),
            status == old(self)@.user_after_violation(
                user_id@,
                ViolationReport {
                    user_name: opt_chars(user_name),
                    group_id: group_id@,
                    content: content@,
                    result: result@,
                    timestamp,
                },
            ).status,
            final(self)@.lookup(user_id@) matches Some(user) && user.status == status
                && user.violation_count == user.records.len() && user.total_risk_score
                == total_risk(user.records) && user.records.last().message_content == content@
                && user.records.last().risk_score == result.risk_score
                && user.last_violation_at == Some(timestamp),
    {
        let ghost before = self@;
        let ghost report = ViolationReport {
            user_name: opt_chars(user_name),
            group_id: group_id@,
            content: content@,
            result: result@,
            timestamp,
        };
        let i: usize = match self.find(user_id) {
            Some(i) => i,
            None => {
                let i: usize = self.users.len();
                let user = UserInfo::fresh(user_id, user_name);
                self.positions.insert(user_id.to_owned(), i);
                self.users.push(user);
                proof {
                    assert(self@.users =~= before.users.push(user@));
                    assert(user@.is_consistent());
                    assert(self.positions_agree()) by {
                        assert forall|a: int| 0 <= a < self.users@.len() implies
                            self.positions@.contains_key((#[trigger] self.users@[a]).user_id@)
                            && self.positions@[self.users@[a].user_id@] == a by {
                            if a < i {
                                assert(before.users[a] == self.users@[a]@);
                                if self.users@[a].user_id@ == user_id@ {
                                    assert(before.is_at(user_id@, a));
                                }
                            }
                        }
                    }
                    assert forall|a: int, b: int| 0 <= a < b < self@.users.len() implies (
                    #[trigger] self@.users[a]).user_id != (#[trigger] self@.users[b]).user_id by {
                        if b == i {
                            if self@.users[a].user_id == user_id@ {
                                assert(before.is_at(user_id@, a));
                            }
                        }
                    }
                }
                i
            },
        };
        assert(self.wf());
        let ghost known = self@.users[i as int];
        let ghost held = self@;
        let user = &mut self.users[i];
        user.add_record(user_name, group_id, content, result, timestamp);
        let (count, total): (u32, u64) = (user.violation_count, user.total_risk_score);
        let new_status = self.calculate_status(count, total);
        let user = &mut self.users[i];
        if new_status != user.status {
            user.status = new_status;
            user.status_updated_at = Some(timestamp);
        }
        let status = user.status;
        proof {
            let after = known.after_violation(report, before.thresholds);
            assert(self@.users =~= held.users.update(i as int, after));
            assert(after == before.user_after_violation(user_id@, report));
            assert(self@.users =~= before.with_user(after).users);
            assert(self.wf());
            recorded_violation_is_found(before, user_id@, report);
            found_user_is_consistent(self@, user_id@);
        }
        status
    }

    /// What is known of a user.
    pub fn get_user(&self, user_id: &str) -> (user: Option<UserInfo>)
        requires
            self.wf(),
        ensures
            match user {
                Some(u) => self@.lookup(user_id@) == Some(u@),
                None => self@.lookup(user_id@) is None,
            },
    {
        match self.find(user_id) {
            Some(i) => Some(self.users[i].clone()),
            None => None,
        }
    }

    /// The summaries of the users that `keep` keeps, in order.
    fn summarize_kept<Keep: Fn(&UserInfo) -> bool>(
        &self,
        keep: Keep,
        Ghost(chosen): Ghost<spec_fn(UserInfoView) -> bool>,
    ) -> (users: Vec<ViolationUserSummary>)
        requires
            forall|user: &UserInfo| #[trigger] keep.requires((user,)),
            forall|user: &UserInfo, kept: bool| #[trigger]
                keep.ensures((user,), kept) ==> kept == chosen(user@),
        ensures
            users.deep_view() == self@.list(chosen),
            users@.len() == self@.count(chosen),
    {
        let ghost all = self@.users;
        let mut users: Vec<ViolationUserSummary> = Vec::new();
        let n: usize = self.users.len();
        let mut i: usize = 0;
        proof {
            reveal(Seq::filter);
            assert(users.deep_view() =~= all.take(0).filter(chosen).map_values(
                |u: UserInfoView| u.summary(),
            ));
        }
        while i < n
            invariant
                n == self.users@.len(),
                i <= n,
                all == self@.users,
                forall|user: &UserInfo| #[trigger] keep.requires((user,)),
                forall|user: &UserInfo, kept: bool| #[trigger]
                    keep.ensures((user,), kept) ==> kept == chosen(user@),
                users.deep_view() == all.take(i as int).filter(chosen).map_values(
                    |u: UserInfoView| u.summary(),
                ),
            decreases n - i,
        {
            let user: &UserInfo = &self.users[i];
            let ghost before = users.deep_view();
            proof {
                assert(all[i as int] == user@);
                lemma_filter_step(all, chosen, i as int);
            }
            if keep(user) {
                users.push(user.summarize());
                assert(users.deep_view() =~= before.push(user@.summary()));
            }
            proof {
                assert(users.deep_view() =~= all.take(i + 1).filter(chosen).map_values(
                    |u: UserInfoView| u.summary(),
                ));
            }
            i += 1;
        }
        proof {
            assert(all.take(n as int) =~= all);
            assert(users.deep_view().len() == users@.len());
        }
        users
    }

    /// Lists the users with at least the given number of violations, in the order in which they
    /// were first recorded.
    pub fn get_violation_users(&self, min_violations: u32) -> (response: ViolationUserListResponse)
        ensures
            response.users.deep_view() == self@.list(has_violations(min_violations as int)),
            response.total == self@.count(has_violations(min_violations as int)),
            response.total == response.users@.len(),
            forall|k: int|
                0 <= k < response.users@.len() ==> (#[trigger] response.users@[k]).violation_count
                    >= min_violations,
    {
        let keep = |user: &UserInfo| -> (kept: bool)
            ensures
                kept == (min_violations <= user.violation_count),
            {
                min_violations <= user.violation_count
            };
        let users = self.summarize_kept(keep, Ghost(has_violations(min_violations as int)));
        let total: usize = users.len();
        proof {
            lists_hold_whom_they_are_asked_for(self@, min_violations as int, UserStatus::Normal);
            assert forall|k: int| 0 <= k < users@.len() implies (
            #[trigger] users@[k]).violation_count >= min_violations by {
                assert(users.deep_view()[k] == users@[k]@);
            }
        }
        ViolationUserListResponse { users, total }
    }

    /// Takes a moderator's action on a user. The reason is not kept.
    pub fn apply_action(
        &mut self,
        user_id: &str,
        action: UserAction,
        reason: Option<&str>,
        timestamp: i64,
    ) -> (outcome: Result<UserInfo, String>)
        requires
            old(self).wf(),
        ensures
            final(self).wf(),
            match outcome {
                Ok(user) => {
                    &&& old(self)@.lookup(user_id@) matches Some(known)
                    &&& user@ == known.after_action(action, timestamp, old(self)@.thresholds)
                    &&& final(self)@ == old(self)@.with_user(user@)
                    &&& action == UserAction::Warn ==> user.status == UserStatus::Warned
                    &&& action == UserAction::Mute ==> user.status == UserStatus::Muted
                    &&& action == UserAction::Ban ==> user.status == UserStatus::Banned
                    &&& action == UserAction::Reset ==> user.status == UserStatus::Normal
                    &&& user.user_id@ == user_id@
                    &&& user.status_updated_at == Some(timestamp)
                },
                Err(message) => {
                    &&& old(self)@.lookup(user_id@) is None
                    &&& message@ == "用户 "@ + user_id@ + " 不存在"@
                    &&& final(self)@ == old(self)@
                },
            },
    {
        let ghost before = self@;
        let i: usize = match self.find(user_id) {
            Some(i) => i,
            None => {
                let mut message = "用户 ".to_owned();
                message.append(user_id);
                message.append(" 不存在");
                return Err(message);
            },
        };
        let ghost known = self@.users[i as int];
        let (count, total): (u32, u64) = (
            self.users[i].violation_count,
            self.users[i].total_risk_score,
        );
        let lifted = self.calculate_status(count, total);
        let user = &mut self.users[i];
        match action {
            UserAction::Warn => {
                user.status = UserStatus::Warned;
            },
            UserAction::Mute => {
                user.status = UserStatus::Muted;
            },
            UserAction::Ban => {
                user.status = UserStatus::Banned;
            },
            UserAction::Unmute | UserAction::Unban => {
                user.status = lifted;
            },
            UserAction::Reset => {
                user.status = UserStatus::Normal;
                user.violation_count = 0;
                user.total_risk_score = 0;
                user.last_violation_at = None;
                user.records.clear();
                assert(user.records.deep_view() =~= seq![]);
            },
        }
        user.status_updated_at = Some(timestamp);
        let copy = user.clone();
        proof {
            let after = known.after_action(action, timestamp, before.thresholds);
            assert(self@.users =~= before.users.update(i as int, after));
            assert(self@.users =~= before.with_user(after).users);
            assert(self.wf());
        }
        Ok(copy)
    }

    /// Lists the users with the given standing, in the order in which they were first recorded.
    pub fn get_users_by_status(&self, status: UserStatus) -> (users: Vec<ViolationUserSummary>)
        ensures
            users.deep_view() == self@.list(has_status(status)),
            users@.len() == self@.count(has_status(status)),
            forall|k: int| 0 <= k < users@.len() ==> (#[trigger] users@[k]).status == status,
    {
        let keep = |user: &UserInfo| -> (kept: bool)
            ensures
                kept == (user.status == status),
            {
                user.status == status
            };
        let users = self.summarize_kept(keep, Ghost(has_status(status)));
        proof {
            lists_hold_whom_they_are_asked_for(self@, 0, status);
            assert forall|k: int| 0 <= k < users@.len() implies (#[trigger] users@[k]).status
                == status by {
                assert(users.deep_view()[k] == users@[k]@);
            }
        }
        users
    }

    /// The figures over all tracked users.
    pub fn get_statistics(&self) -> (stats: UserStatistics)
        requires
            self@.record_count() <= usize::MAX,
        ensures
            self@.has_statistics(stats),
    {
        let ghost all = self@.users;
        let mut stats = UserStatistics::default();
        stats.total_tracked_users = self.users.len();
        let n: usize = self.users.len();
        let mut i: usize = 0;
        proof {
            reveal(Seq::filter);
        }
        while i < n
            invariant
                n == self.users@.len(),
                i <= n,
                all == self@.users,
                records_of(all) <= usize::MAX,
                stats.total_tracked_users == n,
                stats.users_with_violations == all.take(i as int).filter(has_violations(1)).len(),
                stats.normal_count == all.take(i as int).filter(
                    has_status(UserStatus::Normal),
                ).len(),
                stats.warned_count == all.take(i as int).filter(
                    has_status(UserStatus::Warned),
                ).len(),
                stats.muted_count == all.take(i as int).filter(
                    has_status(UserStatus::Muted),
                ).len(),
                stats.banned_count == all.take(i as int).filter(
                    has_status(UserStatus::Banned),
                ).len(),
                stats.total_violation_records == records_of(all.take(i as int)),
            decreases n - i,
        {
            let user: &UserInfo = &self.users[i];
            proof {
                assert(all[i as int] == user@);
                lemma_filter_step(all, has_violations(1), i as int);
                lemma_filter_step(all, has_status(UserStatus::Normal), i as int);
                lemma_filter_step(all, has_status(UserStatus::Warned), i as int);
                lemma_filter_step(all, has_status(UserStatus::Muted), i as int);
                lemma_filter_step(all, has_status(UserStatus::Banned), i as int);
                lemma_records_prefix(all, i + 1);
                assert(all.take(i + 1).drop_last() =~= all.take(i as int));
                assert(user@.records.len() == user.records@.len());
            }
            match user.status {
                UserStatus::Normal => {
                    stats.normal_count = stats.normal_count + 1;
                },
                UserStatus::Warned => {
                    stats.warned_count = stats.warned_count + 1;
                },
                UserStatus::Muted => {
                    stats.muted_count = stats.muted_count + 1;
                },
                UserStatus::Banned => {
                    stats.banned_count = stats.banned_count + 1;
                },
            }
            if user.violation_count > 0 {
                stats.users_with_violations = stats.users_with_violations + 1;
            }
            stats.total_violation_records = stats.total_violation_records + user.records.len();
            i += 1;
        }
        proof {
            assert(all.take(n as int) =~= all);
        }
        stats
    }
}

} // verus!
