//! What callers can rely on: how the result of a call follows from its arguments, and how the
//! results of two calls relate.

use crate::api::{
    build_moderation_response, checked_moderate_single, get_current_timestamp, health_check,
    moderate_single, validate_message, violation_types, ApiResponse, AppError, GroupChatMessage,
    HealthResponse, ModerationResponse, ViolationTypeInfo,
};
use crate::api_laws::{listed_kind_is_spelled_out, single_message_is_answered_in_full};
use crate::batch::{
    at_index, batch_response, checked_moderate_batch, checked_moderate_chunk, collect_results,
    count_violations, has_index, is_stable_sort, moderate_batch, moderate_chunk, responses_of,
    rows, select_messages, sort_by_index, split_chunks, validate_batch, BatchModerationRequest,
    BatchModerationResponse, IndexedResponse,
};
use crate::batch_laws::{
    batch_is_answered_in_full, chunk_flags_its_violations, chunks_are_full_but_the_last,
    chunks_put_together_are_the_items, flagged_answers_are_those_that_say_so, holds_a_pattern,
    messages_without_content_are_skipped, tells_of,
};
use crate::config::{chunk_size, max_concurrency, parsed, AppState};
use crate::kinds::{severity_score, ModerationSuggestion, Severity, ViolationType};
use crate::kinds_laws::{
    kind_is_known_by_its_code, kind_is_known_by_its_name, severity_is_known_by_its_names,
    suggestion_is_known_by_its_code,
};
use crate::listing_laws::{listed_summary_agrees_with_the_lookup, statistics_count_the_users};
use crate::moderation::{
    checked_moderate_message, find_violations, has_verdict, judge, moderate_message, opt_text,
    points_fit, verdict, ModerationResult, Violation,
};
use crate::moderation_laws::violation_iff_a_pattern_occurs;
use crate::score_laws::{
    points_fit_by_weight, score_weighs_the_severities, suggestion_follows_severity_and_score,
    verdict_on_a_text_weighs_its_violations, weight,
};
use crate::standing_laws::{
    action_imposes_its_standing, record_repeats_the_report, status_is_known_by_its_name,
    violation_is_added_to_the_user,
};
use crate::text::lowered;
use crate::user_tracker::{
    has_status, has_violations, opt_chars, total_risk, UserAction, UserInfo, UserInfoView,
    UserStatistics, UserStatus, UserViolationTracker, ViolationReport, ViolationUserListResponse,
    ViolationUserSummary,
};
use crate::user_tracker_laws::{
    action_keeps_the_user_consistent, fewer_required_violations_list_more_users,
    found_user_is_consistent, recorded_violation_is_found,
    stored_user_is_found_and_others_are_kept,
};
use vstd::prelude::*;

verus! {

/// The timestamp is the number of seconds since the epoch, and 0 before the epoch.
pub proof fn timestamp_counts_the_seconds(
    seconds: u64,
    timestamp: i64,
    before_the_epoch: i64,
)
    requires
        seconds <= i64::MAX,
        call_ensures(get_current_timestamp, (Some(seconds),), timestamp),
        call_ensures(get_current_timestamp, (None,), before_the_epoch),
    ensures
        timestamp == seconds,
        before_the_epoch == 0,
{
}

/// A health check is answered that the service is well, with its version and the time.
pub proof fn health_check_is_answered(
    version: &str,
    timestamp: i64,
    response: ApiResponse<HealthResponse>,
)
    requires
        call_ensures(health_check, (version, timestamp), response),
    ensures
        response.code == 200,
        response.message@ == "success"@,
        response.data matches Some(health) && health.status@ == "ok"@ && health.version@ == version@
            && health.timestamp == timestamp,
{
}

/// Settings that stand for numbers are used as they are. Otherwise a chunk has 32 messages, and
/// eight chunks are moderated at a time for each core, but at least 16 and at most 256.
pub proof fn settings_are_used_or_defaults_are(
    concurrency_setting: Option<&str>,
    chunk_setting: Option<&str>,
    cpu_cores: usize,
    concurrency: usize,
    size: usize,
    state: AppState,
)
    requires
        call_ensures(max_concurrency, (concurrency_setting, cpu_cores), concurrency),
        call_ensures(chunk_size, (chunk_setting,), size),
        call_ensures(
            AppState::configured,
            (concurrency_setting, chunk_setting, cpu_cores),
            state,
        ),
    ensures
        state.version@ == "0.1.0"@,
        state.max_concurrency == concurrency,
        state.chunk_size == size,
        concurrency_setting matches Some(text) ==> (parsed(text@) matches Some(number)
            ==> concurrency == number),
        chunk_setting matches Some(text) ==> (parsed(text@) matches Some(number) ==> size
            == number),
        concurrency_setting is None ==> 16 <= concurrency <= 256,
        concurrency_setting is None && 2 <= cpu_cores <= 32 ==> concurrency == 8 * cpu_cores,
        concurrency_setting is None && cpu_cores < 2 ==> concurrency == 16,
        concurrency_setting is None && cpu_cores > 32 ==> concurrency == 256,
        chunk_setting is None ==> size == 32,
        chunk_setting matches Some(text) ==> (parsed(text@) is None ==> size == 32),
{
}

/// An answer that succeeds has code 200 and carries its data; one that fails has the code and
/// the message given, and no data.
pub proof fn envelopes_carry_their_content<T>(
    data: T,
    succeeded: ApiResponse<T>,
    code: u16,
    message: String,
    failed: ApiResponse<T>,
)
    requires
        call_ensures(ApiResponse::<T>::success, (data,), succeeded),
        call_ensures(ApiResponse::<T>::error, (code, message), failed),
    ensures
        succeeded.code == 200,
        succeeded.message@ == "success"@,
        succeeded.data == Some(data),
        failed.code == code,
        failed.message@ == message@,
        failed.data is None,
{
}

/// A bad request is answered with 400 and its reason, any other error with 500 and a text of its
/// own. In a log the reason stands behind a heading.
pub proof fn errors_are_answered(error: AppError, response: ApiResponse<()>, shown: String)
    requires
        call_ensures(AppError::into_response, (error,), response),
        call_ensures(AppError::to_string, (&error,), shown),
    ensures
        response.data is None,
        error matches AppError::BadRequest(reason) ==> response.code == 400 && response.message@
            == reason@ && shown@ == "无效请求: "@ + reason@,
        error is InternalError ==> response.code == 500 && response.message@
            == "内部服务器错误"@ && shown@ == "内部服务器错误"@,
{
}

/// The strings for a kind of violation stand for that kind and no other.
pub proof fn kinds_are_told_apart_by_their_strings(kind: ViolationType, code: String, name: String)
    requires
        call_ensures(ViolationType::to_code, (&kind,), code),
        call_ensures(ViolationType::to_string, (&kind,), name),
    ensures
        code@ == "pornography"@ <==> kind == ViolationType::Pornography,
        code@ == "violence"@ <==> kind == ViolationType::Violence,
        code@ == "politics"@ <==> kind == ViolationType::Politics,
        code@ == "advertising"@ <==> kind == ViolationType::Advertising,
        code@ == "abuse"@ <==> kind == ViolationType::Abuse,
        code@ == "gambling"@ <==> kind == ViolationType::Gambling,
        code@ == "fraud"@ <==> kind == ViolationType::Fraud,
        code@ == "other"@ <==> kind == ViolationType::Other,
        name@ == "色情低俗"@ <==> kind == ViolationType::Pornography,
        name@ == "暴力血腥"@ <==> kind == ViolationType::Violence,
        name@ == "政治敏感"@ <==> kind == ViolationType::Politics,
        name@ == "广告推广"@ <==> kind == ViolationType::Advertising,
        name@ == "辱骂攻击"@ <==> kind == ViolationType::Abuse,
        name@ == "赌博相关"@ <==> kind == ViolationType::Gambling,
        name@ == "诈骗欺诈"@ <==> kind == ViolationType::Fraud,
        name@ == "其他违规"@ <==> kind == ViolationType::Other,
{
    kind_is_known_by_its_code(kind);
    kind_is_known_by_its_name(kind);
}

/// The strings for a severity stand for that severity and no other, and so do its points.
pub proof fn severities_are_told_apart(severity: Severity, code: String, name: String, score: u8)
    requires
        call_ensures(Severity::to_code, (&severity,), code),
        call_ensures(Severity::to_string, (&severity,), name),
        call_ensures(severity_score, (severity,), score),
    ensures
        code@ == "low"@ <==> severity == Severity::Low,
        code@ == "medium"@ <==> severity == Severity::Medium,
        code@ == "high"@ <==> severity == Severity::High,
        code@ == "critical"@ <==> severity == Severity::Critical,
        name@ == "低"@ <==> severity == Severity::Low,
        name@ == "中"@ <==> severity == Severity::Medium,
        name@ == "高"@ <==> severity == Severity::High,
        name@ == "严重"@ <==> severity == Severity::Critical,
        score == 10 <==> severity == Severity::Low,
        score == 25 <==> severity == Severity::Medium,
        score == 40 <==> severity == Severity::High,
        score == 100 <==> severity == Severity::Critical,
{
    severity_is_known_by_its_names(severity);
}

/// The strings for a suggestion and for a standing stand for it and no other.
pub proof fn suggestions_and_standings_are_told_apart(
    suggestion: ModerationSuggestion,
    code: String,
    status: UserStatus,
    name: String,
)
    requires
        call_ensures(ModerationSuggestion::to_code, (&suggestion,), code),
        call_ensures(UserStatus::to_string, (&status,), name),
    ensures
        code@ == "pass"@ <==> suggestion == ModerationSuggestion::Pass,
        code@ == "review"@ <==> suggestion == ModerationSuggestion::Review,
        code@ == "block"@ <==> suggestion == ModerationSuggestion::Block,
        name@ == "正常"@ <==> status == UserStatus::Normal,
        name@ == "警告"@ <==> status == UserStatus::Warned,
        name@ == "禁言"@ <==> status == UserStatus::Muted,
        name@ == "封禁"@ <==> status == UserStatus::Banned,
{
    suggestion_is_known_by_its_code(suggestion);
    status_is_known_by_its_name(status);
}

/// A message is judged a violation exactly when its lowercase form holds a pattern of the rule
/// table. The risk score is the weight of the violations, at most 100, and the suggestion
/// follows from the severities and the score.
pub proof fn message_is_judged_by_its_violations(text: &str, result: ModerationResult)
    requires
        call_ensures(moderate_message, (text,), result),
    ensures
        ({
            let critical = exists|k: int|
                0 <= k < result.violations@.len() && (#[trigger] result.violations@[k]).severity
                    == Severity::Critical;
            let high = exists|k: int|
                0 <= k < result.violations@.len() && (#[trigger] result.violations@[k]).severity
                    == Severity::High;
            &&& result.is_violation <==> holds_a_pattern(lowered(text@))
            &&& result.is_violation <==> result.violations@.len() > 0
            &&& weight(result@.violations) <= 100 ==> result.risk_score == weight(
                result@.violations,
            )
            &&& weight(result@.violations) > 100 ==> result.risk_score == 100
            &&& result.suggestion == ModerationSuggestion::Block <==> critical || (high
                && result.risk_score >= 60)
            &&& result.suggestion == ModerationSuggestion::Review <==> !critical && ((high
                && result.risk_score < 60) || (!high && result.risk_score >= 40))
            &&& result.suggestion == ModerationSuggestion::Pass <==> !critical && !high
                && result.risk_score < 40
        }),
{
    let text = lowered(text@);
    let found = result@.violations;
    assert(found == verdict(text).violations);
    violation_iff_a_pattern_occurs(text);
    verdict_on_a_text_weighs_its_violations(text);
    assert(found.len() == result.violations@.len());
    assert forall|k: int| 0 <= k < found.len() implies (#[trigger] found[k]).severity
        == result.violations@[k].severity by {
        assert(found[k] == result.violations@[k]@);
    }
    assert forall|k: int| 0 <= k < found.len() implies (
    #[trigger] result.violations@[k]).severity == found[k].severity by {
        assert(found[k] == result.violations@[k]@);
    }
}

/// Violations are judged by their weight: the verdict carries them all, its score is their
/// weight, at most 100, and its suggestion follows from their severities and the score.
pub proof fn violations_are_judged_by_their_weight(
    violations: Vec<Violation>,
    result: ModerationResult,
)
    requires
        call_ensures(judge, (violations,), result),
    ensures
        ({
            let critical = exists|k: int|
                0 <= k < violations.deep_view().len() && (
                #[trigger] violations.deep_view()[k]).severity == Severity::Critical;
            let high = exists|k: int|
                0 <= k < violations.deep_view().len() && (
                #[trigger] violations.deep_view()[k]).severity == Severity::High;
            let sum = weight(violations.deep_view());
            &&& result.violations.deep_view() == violations.deep_view()
            &&& result.is_violation <==> violations@.len() > 0
            &&& sum <= 100 ==> result.risk_score == sum
            &&& sum > 100 ==> result.risk_score == 100
            &&& result.suggestion == ModerationSuggestion::Block <==> critical || (high
                && result.risk_score >= 60)
            &&& result.suggestion == ModerationSuggestion::Review <==> !critical && ((high
                && result.risk_score < 60) || (!high && result.risk_score >= 40))
            &&& result.suggestion == ModerationSuggestion::Pass <==> !critical && !high
                && result.risk_score < 40
        }),
{
    score_weighs_the_severities(violations.deep_view());
    suggestion_follows_severity_and_score(violations.deep_view());
    assert(violations.deep_view().len() == violations@.len());
}

/// There is a verdict on a message exactly when the weight of its violations is at most 255, and
/// it is the one that is passed without asking beforehand.
pub proof fn verdict_is_passed_where_there_is_one(
    text: &str,
    judged: bool,
    result: Option<ModerationResult>,
    violations: Vec<Violation>,
    folded: &str,
)
    requires
        folded@ == lowered(text@),
        call_ensures(has_verdict, (text,), judged),
        call_ensures(checked_moderate_message, (text,), result),
        call_ensures(find_violations, (folded,), violations),
    ensures
        result is Some <==> judged,
        judged <==> weight(violations.deep_view()) <= 255,
        result matches Some(r) ==> r.violations.deep_view() == violations.deep_view()
            && (r.is_violation <==> violations@.len() > 0),
{
    points_fit_by_weight(lowered(text@));
    assert(violations.deep_view().len() == violations@.len());
}

/// A message can be moderated exactly when its content, its group and its user are given, and a
/// batch exactly when it has 1 to 5000 messages. Otherwise the error says what is wrong.
pub proof fn requests_are_checked(
    msg: &GroupChatMessage,
    single: Result<(), AppError>,
    req: &BatchModerationRequest,
    batch: Result<(), AppError>,
)
    requires
        call_ensures(validate_message, (msg,), single),
        call_ensures(validate_batch, (req,), batch),
    ensures
        single is Ok <==> msg.content@.len() > 0 && msg.group_id@.len() > 0 && msg.user_id@.len()
            > 0,
        single matches Err(e) ==> (e matches AppError::BadRequest(reason) && reason@ == if
            msg.content@.len() == 0 {
            "消息内容不能为空"@
        } else if msg.group_id@.len() == 0 {
            "群ID不能为空"@
        } else {
            "用户ID不能为空"@
        }),
        batch is Ok <==> 1 <= req.messages@.len() <= 5000,
        batch matches Err(e) ==> (e matches AppError::BadRequest(reason) && reason@ == if
            req.messages@.len() == 0 {
            "消息列表不能为空"@
        } else {
            "单次最多审核5000条消息"@
        }),
{
}

/// The answer to a message carries the ids of the message, the verdict and the time.
pub proof fn answer_is_written_from_the_verdict(
    msg: &GroupChatMessage,
    result: &ModerationResult,
    processed_at: i64,
    response: ModerationResponse,
)
    requires
        call_ensures(build_moderation_response, (msg, result, processed_at), response),
    ensures
        response.group_id@ == msg.group_id@,
        response.user_id@ == msg.user_id@,
        opt_text(response.message_id) == opt_text(msg.message_id),
        response.is_violation == result.is_violation,
        response.violations@.len() == result.violations@.len(),
        response.risk_score == result.risk_score,
        response.suggestion@ == "block"@ <==> result.suggestion == ModerationSuggestion::Block,
        response.suggestion@ == "review"@ <==> result.suggestion == ModerationSuggestion::Review,
        response.suggestion@ == "pass"@ <==> result.suggestion == ModerationSuggestion::Pass,
        response.processed_at == processed_at,
{
}

/// A message that is moderated and then answered is answered what a single message is answered:
/// the two ways agree in all but the time.
pub proof fn single_message_is_answered_as_it_is_judged<Clock: Fn() -> i64>(
    msg: &GroupChatMessage,
    clock: &Clock,
    outcome: Result<ApiResponse<ModerationResponse>, AppError>,
    text: &str,
    result: ModerationResult,
)
    requires
        text@ == msg.content@,
        call_ensures(moderate_single::<Clock>, (msg, clock), outcome),
        call_ensures(moderate_message, (text,), result),
    ensures
        outcome is Ok <==> msg.content@.len() > 0 && msg.group_id@.len() > 0 && msg.user_id@.len()
            > 0,
        outcome matches Ok(response) ==> {
            &&& response.code == 200
            &&& response.message@ == "success"@
            &&& response.data matches Some(data)
            &&& data.group_id@ == msg.group_id@
            &&& data.user_id@ == msg.user_id@
            &&& data.is_violation == result.is_violation
            &&& data.is_violation <==> holds_a_pattern(lowered(msg.content@))
            &&& data.risk_score == result.risk_score
            &&& data.violations@.len() == result.violations@.len()
            &&& data.suggestion@ == "block"@ <==> result.suggestion == ModerationSuggestion::Block
            &&& data.suggestion@ == "review"@ <==> result.suggestion
                == ModerationSuggestion::Review
            &&& data.suggestion@ == "pass"@ <==> result.suggestion == ModerationSuggestion::Pass
        },
{
    single_message_is_answered_in_full(outcome, *msg, *clock);
    violation_iff_a_pattern_occurs(lowered(msg.content@));
    assert(result@.violations.len() == result.violations@.len());
}

/// A single message is left without an answer exactly when nothing is missing and its violations
/// weigh more than 255. Otherwise it is refused exactly when something is missing.
pub proof fn single_message_is_answered_where_there_is_a_verdict<Clock: Fn() -> i64>(
    msg: &GroupChatMessage,
    clock: &Clock,
    outcome: Option<Result<ApiResponse<ModerationResponse>, AppError>>,
)
    requires
        call_ensures(checked_moderate_single::<Clock>, (msg, clock), outcome),
    ensures
        ({
            let complete = msg.content@.len() > 0 && msg.group_id@.len() > 0 && msg.user_id@.len()
                > 0;
            &&& outcome is None <==> complete && weight(
                verdict(lowered(msg.content@)).violations,
            ) > 255
            &&& outcome matches Some(answer) ==> (answer is Ok <==> complete)
            &&& outcome matches Some(Ok(response)) ==> (response.data matches Some(data)
                && tells_of(data, *msg))
        }),
{
    points_fit_by_weight(lowered(msg.content@));
    if outcome is Some {
        single_message_is_answered_in_full(outcome->0, *msg, *clock);
        if outcome->0 is Ok {
            violation_iff_a_pattern_occurs(lowered(msg.content@));
        }
    }
}

/// The list of the kinds of violation names each kind, in order, and says what it covers.
pub proof fn kinds_are_listed(response: ApiResponse<Vec<ViolationTypeInfo>>)
    requires
        call_ensures(violation_types, (), response),
    ensures
        response.code == 200,
        response.data matches Some(infos) && infos@.len() == 8 && {
            &&& infos@[0].code@ == "pornography"@ && infos@[0].name@ == "色情低俗"@
                && infos@[0].description@ == "包含色情、淫秽、低俗内容"@
            &&& infos@[1].code@ == "violence"@ && infos@[1].name@ == "暴力血腥"@
                && infos@[1].description@ == "包含暴力、血腥、恐怖内容"@
            &&& infos@[2].code@ == "politics"@ && infos@[2].name@ == "政治敏感"@
                && infos@[2].description@ == "包含政治敏感内容"@
            &&& infos@[3].code@ == "advertising"@ && infos@[3].name@ == "广告推广"@
                && infos@[3].description@ == "包含广告、推广、营销内容"@
            &&& infos@[4].code@ == "abuse"@ && infos@[4].name@ == "辱骂攻击"@
                && infos@[4].description@ == "包含辱骂、人身攻击内容"@
            &&& infos@[5].code@ == "gambling"@ && infos@[5].name@ == "赌博相关"@
                && infos@[5].description@ == "包含赌博、博彩相关内容"@
            &&& infos@[6].code@ == "fraud"@ && infos@[6].name@ == "诈骗欺诈"@
                && infos@[6].description@ == "包含诈骗、欺诈、虚假信息"@
            &&& infos@[7].code@ == "other"@ && infos@[7].name@ == "其他违规"@
                && infos@[7].description@ == "其他违规内容"@
        },
{
    let infos = response.data->0;
    listed_kind_is_spelled_out(ViolationType::Other);
    assert(infos.deep_view().len() == infos@.len());
    assert(infos.deep_view()[0] == infos@[0]@);
    assert(infos.deep_view()[1] == infos@[1]@);
    assert(infos.deep_view()[2] == infos@[2]@);
    assert(infos.deep_view()[3] == infos@[3]@);
    assert(infos.deep_view()[4] == infos@[4]@);
    assert(infos.deep_view()[5] == infos@[5]@);
    assert(infos.deep_view()[6] == infos@[6]@);
    assert(infos.deep_view()[7] == infos@[7]@);
}

/// The messages selected from a batch are those with content.
pub proof fn messages_with_content_are_selected(
    messages: Vec<GroupChatMessage>,
    selected: Vec<GroupChatMessage>,
)
    requires
        call_ensures(select_messages, (messages,), selected),
    ensures
        selected@ == messages@.filter(|m: GroupChatMessage| m.content@.len() > 0),
        forall|m: GroupChatMessage| #[trigger]
            selected@.contains(m) <==> messages@.contains(m) && m.content@.len() > 0,
{
    messages_without_content_are_skipped(messages@);
    let kept = |m: GroupChatMessage| m@.content.len() > 0;
    assert(kept =~= (|m: GroupChatMessage| m.content@.len() > 0));
}

/// Chunks put one after the other are the messages; each has at least one message and at most as
/// many as a chunk has, and every chunk but the last has exactly as many.
pub proof fn messages_are_cut_into_chunks(
    messages: Vec<GroupChatMessage>,
    size: usize,
    chunks: Vec<Vec<GroupChatMessage>>,
)
    requires
        size > 0,
        call_ensures(split_chunks, (messages, size), chunks),
    ensures
        rows(chunks@).flatten() == messages@,
        forall|k: int| 0 <= k < chunks@.len() ==> 1 <= (#[trigger] chunks@[k])@.len() <= size,
        forall|k: int| 0 <= k < chunks@.len() - 1 ==> (#[trigger] chunks@[k])@.len() == size,
{
    chunks_put_together_are_the_items(messages@, size as int);
    assert forall|k: int| 0 <= k < chunks@.len() implies 1 <= (#[trigger] chunks@[k])@.len()
        <= size && (k < chunks@.len() - 1 ==> chunks@[k]@.len() == size) by {
        assert(rows(chunks@)[k] == chunks@[k]@);
        chunks_are_full_but_the_last(messages@, size as int, k);
    }
}

/// Each message of a chunk is answered with its position in the batch, and flagged exactly when
/// its answer says that it is a violation.
pub proof fn chunk_is_answered<Clock: Fn() -> i64>(
    chunk_idx: usize,
    size: usize,
    chunk: &Vec<GroupChatMessage>,
    clock: &Clock,
    items: Vec<IndexedResponse>,
)
    requires
        call_ensures(moderate_chunk::<Clock>, (chunk_idx, size, chunk, clock), items),
    ensures
        items@.len() == chunk@.len(),
        forall|o: int|
            0 <= o < items@.len() ==> {
                let item = #[trigger] items@[o];
                &&& item.0 == chunk_idx * size + o
                &&& item.2 == item.1.is_violation
                &&& item.2 <==> holds_a_pattern(lowered(chunk@[o].content@))
                &&& tells_of(item.1, chunk@[o])
                &&& clock.ensures((), item.1.processed_at)
            },
{
    chunk_flags_its_violations(items@, chunk@, chunk_idx * size);
}

/// Sorted answers are the same answers in the order of their positions, and those with the same
/// position in the order in which they came.
pub proof fn answers_are_sorted_by_position(
    items: Vec<IndexedResponse>,
    sorted: Vec<IndexedResponse>,
)
    requires
        call_ensures(sort_by_index, (items,), sorted),
    ensures
        sorted@.to_multiset() == items@.to_multiset(),
        forall|i: int, j: int|
            0 <= i < j < sorted@.len() ==> (#[trigger] sorted@[i]).0 <= (#[trigger] sorted@[j]).0,
        forall|index: usize|
            sorted@.filter(#[trigger] has_index(index)) == items@.filter(has_index(index)),
{
    assert forall|index: usize| sorted@.filter(#[trigger] has_index(index)) == items@.filter(
        has_index(index),
    ) by {
        assert(at_index(sorted@, index) == at_index(items@, index));
    }
}

/// Collected answers are all the answers, in the order of their positions; where each is flagged
/// exactly when it says that it is a violation, the count is that of the answers that say so.
pub proof fn collected_answers_are_counted(
    items: Vec<IndexedResponse>,
    collected: (Vec<ModerationResponse>, usize),
)
    requires
        call_ensures(collect_results, (items,), collected),
        forall|i: int|
            0 <= i < items@.len() ==> (#[trigger] items@[i]).2 == items@[i].1.is_violation,
    ensures
        collected.0@.len() == items@.len(),
        collected.1 == collected.0@.filter(|r: ModerationResponse| r.is_violation).len(),
        forall|i: int|
            0 <= i < items@.len() ==> collected.0@.contains((#[trigger] items@[i]).1),
{
    let sorted = choose|sorted: Seq<IndexedResponse>| #[trigger]
        is_stable_sort(items@, sorted) && collected.0@ == responses_of(sorted)
            && collected.1 == count_violations(sorted);
    flagged_answers_are_those_that_say_so(sorted);
    items@.to_multiset_ensures();
    sorted.to_multiset_ensures();
    assert(sorted.len() == items@.len());
    assert forall|i: int| 0 <= i < sorted.len() implies (#[trigger] sorted[i]).2
        == sorted[i].1.is_violation by {
        assert(sorted.contains(sorted[i]));
        assert(items@.to_multiset().count(sorted[i]) > 0);
        assert(items@.contains(sorted[i]));
    }
    assert forall|i: int| 0 <= i < items@.len() implies collected.0@.contains(
        (#[trigger] items@[i]).1,
    ) by {
        assert(items@.contains(items@[i]));
        assert(sorted.to_multiset().count(items@[i]) > 0);
        assert(sorted.contains(items@[i]));
        let j = choose|j: int| 0 <= j < sorted.len() && sorted[j] == items@[i];
        assert(collected.0@[j] == items@[i].1);
    }
}

/// The answer to a batch holds the results, how many there are, and what was counted and timed.
pub proof fn batch_answer_holds_the_results(
    results: Vec<ModerationResponse>,
    violation_count: usize,
    duration_ms: u64,
    response: ApiResponse<BatchModerationResponse>,
)
    requires
        call_ensures(batch_response, (results, violation_count, duration_ms), response),
    ensures
        response.code == 200,
        response.message@ == "success"@,
        response.data matches Some(data) && data.results@ == results@ && data.total
            == results@.len() && data.violation_count == violation_count && data.duration_ms
            == duration_ms,
{
}

/// What a batch is answered: it is refused exactly when it has no messages or more than 5000.
/// Otherwise each message with content is answered, in order, and the answer counts the results
/// that are violations.
pub proof fn batch_is_answered<Clock: Fn() -> i64, Timer: Fn() -> u64>(
    req: BatchModerationRequest,
    size: usize,
    clock: &Clock,
    timer: &Timer,
    outcome: Result<ApiResponse<BatchModerationResponse>, AppError>,
)
    requires
        call_ensures(moderate_batch::<Clock, Timer>, (req, size, clock, timer), outcome),
    ensures
        outcome is Ok <==> 1 <= req.messages@.len() <= 5000,
        outcome matches Ok(response) ==> {
            let selected = req.messages@.filter(|m: GroupChatMessage| m.content@.len() > 0);
            &&& response.data matches Some(data)
            &&& data.total == selected.len()
            &&& data.results@.len() == selected.len()
            &&& data.violation_count == data.results@.filter(
                |r: ModerationResponse| r.is_violation,
            ).len()
            &&& forall|i: int|
                0 <= i < selected.len() ==> tells_of(#[trigger] data.results@[i], selected[i])
        },
{
    batch_is_answered_in_full(outcome, req.messages@, *clock, *timer);
}

/// A batch is left without an answer exactly when it is not refused and the violations of one of
/// its messages weigh more than 255. Otherwise it is refused exactly when it has no messages or
/// more than 5000.
pub proof fn batch_is_answered_where_there_are_verdicts<Clock: Fn() -> i64, Timer: Fn() -> u64>(
    req: BatchModerationRequest,
    size: usize,
    clock: &Clock,
    timer: &Timer,
    outcome: Option<Result<ApiResponse<BatchModerationResponse>, AppError>>,
)
    requires
        call_ensures(checked_moderate_batch::<Clock, Timer>, (req, size, clock, timer), outcome),
    ensures
        outcome is None <==> 1 <= req.messages@.len() <= 5000 && exists|i: int|
            0 <= i < req.messages@.len() && (#[trigger] req.messages@[i]).content@.len() > 0
                && weight(verdict(lowered(req.messages@[i].content@)).violations) > 255,
        outcome matches Some(answer) ==> (answer is Ok <==> 1 <= req.messages@.len() <= 5000),
        outcome matches Some(Ok(response)) ==> (response.data matches Some(data)
            && data.violation_count == data.results@.filter(
            |r: ModerationResponse| r.is_violation,
        ).len()),
{
    assert forall|i: int| 0 <= i < req.messages@.len() implies points_fit(
        lowered((#[trigger] req.messages@[i])@.content),
    ) == (weight(verdict(lowered(req.messages@[i].content@)).violations) <= 255) by {
        points_fit_by_weight(lowered(req.messages@[i].content@));
    }
    if outcome is Some {
        batch_is_answered_in_full(outcome->0, req.messages@, *clock, *timer);
    }
}

/// A chunk is left without answers exactly when the violations of one of its messages weigh more
/// than 255. Otherwise its messages are answered one by one.
pub proof fn chunk_is_answered_where_there_are_verdicts<Clock: Fn() -> i64>(
    chunk_idx: usize,
    size: usize,
    chunk: &Vec<GroupChatMessage>,
    clock: &Clock,
    items: Option<Vec<IndexedResponse>>,
)
    requires
        call_ensures(checked_moderate_chunk::<Clock>, (chunk_idx, size, chunk, clock), items),
    ensures
        items is Some <==> forall|o: int|
            0 <= o < chunk@.len() ==> weight(
                verdict(lowered((#[trigger] chunk@[o]).content@)).violations,
            ) <= 255,
        items matches Some(items) ==> items@.len() == chunk@.len() && forall|o: int|
            0 <= o < items@.len() ==> (#[trigger] items@[o]).0 == chunk_idx * size + o
                && items@[o].2 == items@[o].1.is_violation && tells_of(items@[o].1, chunk@[o]),
{
    assert forall|o: int| 0 <= o < chunk@.len() implies points_fit(
        lowered((#[trigger] chunk@[o])@.content),
    ) == (weight(verdict(lowered(chunk@[o].content@)).violations) <= 255) by {
        points_fit_by_weight(lowered(chunk@[o].content@));
    }
    if items is Some {
        chunk_flags_its_violations((items->0)@, chunk@, chunk_idx * size);
    }
}

/// A new tracker tracks nobody, and leads counts and totals to standings by its thresholds: to a
/// ban, a mute or a warning from the threshold given, or from a total of 300, 150 or 50.
pub proof fn new_tracker_goes_by_its_thresholds(
    warning: u32,
    mute: u32,
    ban: u32,
    tracker: UserViolationTracker,
    count: u32,
    total: u64,
    status: UserStatus,
    user_id: &str,
    found: Option<UserInfo>,
)
    requires
        call_ensures(UserViolationTracker::new, (warning, mute, ban), tracker),
        call_ensures(UserViolationTracker::calculate_status, (&tracker, count, total), status),
        call_ensures(UserViolationTracker::get_user, (&tracker, user_id), found),
    ensures
        status == UserStatus::Banned <==> count >= ban || total >= 300,
        status == UserStatus::Muted || status == UserStatus::Banned <==> count >= ban || count
            >= mute || total >= 150,
        status != UserStatus::Normal <==> count >= ban || count >= mute || count >= warning
            || total >= 50,
        found is None,
{
    assert(!tracker@.tracks(user_id@)) by {
        if tracker@.tracks(user_id@) {
            assert(tracker@.is_at(user_id@, tracker@.position(user_id@)));
        }
    }
}

/// Whether a listed summary says of a user what is known of that user. The count is the number
/// of the user's records, and the total the sum of their risk scores.
pub open spec fn agrees_with(summary: ViolationUserSummary, user: UserInfo) -> bool {
    &&& summary.user_id@ == user.user_id@
    &&& opt_text(summary.user_name) == opt_text(user.user_name)
    &&& summary.status == user.status
    &&& summary.status_name@ == "正常"@ <==> user.status == UserStatus::Normal
    &&& summary.status_name@ == "警告"@ <==> user.status == UserStatus::Warned
    &&& summary.status_name@ == "禁言"@ <==> user.status == UserStatus::Muted
    &&& summary.status_name@ == "封禁"@ <==> user.status == UserStatus::Banned
    &&& summary.violation_count == user.violation_count
    &&& summary.violation_count == user.records@.len()
    &&& summary.total_risk_score == user.total_risk_score
    &&& summary.total_risk_score == total_risk(user.records.deep_view())
    &&& summary.groups.deep_view() == user.groups.deep_view()
    &&& summary.last_violation_at == user.last_violation_at
}

/// Looking up a user who is listed for a number of violations finds the user, who has as many,
/// and with whom the summary agrees.
pub proof fn listed_violator_is_found(
    tracker: &UserViolationTracker,
    min_violations: u32,
    response: ViolationUserListResponse,
    k: int,
    user_id: &str,
    found: Option<UserInfo>,
)
    requires
        tracker.wf(),
        call_ensures(
            UserViolationTracker::get_violation_users,
            (tracker, min_violations),
            response,
        ),
        0 <= k < response.users@.len(),
        user_id@ == response.users@[k].user_id@,
        call_ensures(UserViolationTracker::get_user, (tracker, user_id), found),
    ensures
        response.total == response.users@.len(),
        found matches Some(user) && user.violation_count >= min_violations && agrees_with(
            response.users@[k],
            user,
        ),
{
    assert(response.users.deep_view()[k] == response.users@[k]@);
    listed_summary_agrees_with_the_lookup(tracker@, has_violations(min_violations as int), k);
    assert(found->0@.records.len() == found->0.records@.len());
}

/// Looking up a user who is listed under a standing finds the user, who has it, and with whom
/// the summary agrees.
pub proof fn user_listed_under_a_standing_is_found(
    tracker: &UserViolationTracker,
    status: UserStatus,
    users: Vec<ViolationUserSummary>,
    k: int,
    user_id: &str,
    found: Option<UserInfo>,
)
    requires
        tracker.wf(),
        call_ensures(UserViolationTracker::get_users_by_status, (tracker, status), users),
        0 <= k < users@.len(),
        user_id@ == users@[k].user_id@,
        call_ensures(UserViolationTracker::get_user, (tracker, user_id), found),
    ensures
        found matches Some(user) && user.status == status && agrees_with(users@[k], user),
{
    assert(users.deep_view()[k] == users@[k]@);
    listed_summary_agrees_with_the_lookup(tracker@, has_status(status), k);
    assert(found->0@.records.len() == found->0.records@.len());
}

/// The figures over all users agree with the lists: as many users have a standing as are listed
/// under it, and as many have violations as are listed for at least one.
pub proof fn figures_agree_with_the_lists(
    tracker: &UserViolationTracker,
    stats: UserStatistics,
    violators: ViolationUserListResponse,
    everyone: ViolationUserListResponse,
    status: UserStatus,
    listed: Vec<ViolationUserSummary>,
)
    requires
        call_ensures(UserViolationTracker::get_statistics, (tracker,), stats),
        call_ensures(UserViolationTracker::get_violation_users, (tracker, 1), violators),
        call_ensures(UserViolationTracker::get_violation_users, (tracker, 0), everyone),
        call_ensures(UserViolationTracker::get_users_by_status, (tracker, status), listed),
    ensures
        stats.users_with_violations == violators.total,
        stats.users_with_violations == tracker@.users.filter(
            |u: UserInfoView| u.violation_count > 0,
        ).len(),
        status == UserStatus::Normal ==> stats.normal_count == listed@.len(),
        status == UserStatus::Warned ==> stats.warned_count == listed@.len(),
        status == UserStatus::Muted ==> stats.muted_count == listed@.len(),
        status == UserStatus::Banned ==> stats.banned_count == listed@.len(),
        tracker.wf() ==> stats.total_tracked_users == everyone.total,
{
    statistics_count_the_users(tracker@, stats);
    if tracker.wf() {
        fewer_required_violations_list_more_users(tracker@, 0, 1);
    }
}

/// Recording a violation: looking up the user afterwards finds one more violation, a total risk
/// score that grew by that of the verdict, the message on record last and behind all earlier
/// ones, the group listed, the name that was first given, and the standing that was returned,
/// which follows from the count and the total alone. What is known of every other user stays the
/// same.
pub proof fn recorded_violation_is_looked_up(
    tracker: &mut UserViolationTracker,
    user_id: &str,
    user_name: Option<&str>,
    group_id: &str,
    content: &str,
    result: &ModerationResult,
    timestamp: i64,
    status: UserStatus,
    found: Option<UserInfo>,
)
    requires
        old(tracker).wf(),
        call_ensures(
            UserViolationTracker::record_violation,
            (tracker, user_id, user_name, group_id, content, result, timestamp),
            status,
        ),
        call_ensures(UserViolationTracker::get_user, (&*final(tracker), user_id), found),
    ensures
        final(tracker).wf(),
        final(tracker)@.thresholds == old(tracker)@.thresholds,
        found matches Some(user) && {
            let earlier = match old(tracker)@.lookup(user_id@) {
                Some(known) => known.records,
                None => Seq::empty(),
            };
            let named = old(tracker)@.lookup(user_id@) is Some && old(tracker)@.lookup(
                user_id@,
            )->0.user_name is Some;
            let record = user.records@.last();
            let banned = user.violation_count >= old(tracker)@.thresholds.ban
                || user.total_risk_score >= 300;
            let muted = user.violation_count >= old(tracker)@.thresholds.mute
                || user.total_risk_score >= 150;
            let warned = user.violation_count >= old(tracker)@.thresholds.warning
                || user.total_risk_score >= 50;
            &&& user.user_id@ == user_id@
            &&& user.status == status
            &&& status == UserStatus::Banned <==> banned
            &&& status == UserStatus::Muted <==> muted && !banned
            &&& status == UserStatus::Warned <==> warned && !muted && !banned
            &&& user.violation_count == earlier.len() + 1
            &&& user.total_risk_score == total_risk(earlier) + result.risk_score
            &&& user.last_violation_at == Some(timestamp)
            &&& user.groups.deep_view().contains(group_id@)
            &&& named ==> opt_text(user.user_name) == old(tracker)@.lookup(user_id@)->0.user_name
            &&& !named && user_name is None ==> user.user_name is None
            &&& !named && user_name is Some ==> user.user_name is Some && (user.user_name->0)@ == (
            user_name->0)@
            &&& user.records@.len() == earlier.len() + 1
            &&& user.records.deep_view().drop_last() == earlier
            &&& record.message_content@ == content@
            &&& record.group_id@ == group_id@
            &&& record.risk_score == result.risk_score
            &&& record.timestamp == timestamp
            &&& record.violation_types@.len() == result.violations@.len()
            &&& record.suggestion@ == "block"@ <==> result.suggestion
                == ModerationSuggestion::Block
            &&& record.suggestion@ == "review"@ <==> result.suggestion
                == ModerationSuggestion::Review
            &&& record.suggestion@ == "pass"@ <==> result.suggestion == ModerationSuggestion::Pass
        },
        forall|id: Seq<char>|
            id != user_id@ ==> #[trigger] final(tracker)@.lookup(id) == old(tracker)@.lookup(id),
{
    let before = old(tracker)@;
    let report = ViolationReport {
        user_name: opt_chars(user_name),
        group_id: group_id@,
        content: content@,
        result: result@,
        timestamp,
    };
    recorded_violation_is_found(before, user_id@, report);
    found_user_is_consistent(before, user_id@);
    record_repeats_the_report(report);
    let known = match before.lookup(user_id@) {
        Some(known) => known,
        None => UserInfoView::fresh(user_id@, report.user_name),
    };
    violation_is_added_to_the_user(known, report, before.thresholds);
    stored_user_is_found_and_others_are_kept(
        before,
        known.after_violation(report, before.thresholds),
    );
    let user = found->0;
    let last = user.records@.len() - 1;
    assert(user@.records.len() == user.records@.len());
    assert(user@.records[last] == user.records@[last]@);
    assert(user.records@[last]@.violation_types.len()
        == user.records@[last].violation_types@.len());
    assert(result@.violations.len() == result.violations@.len());
    assert(before.lookup(user_id@) is None ==> known.records =~= Seq::empty());
}

/// Taking an action: it fails exactly when the user is not tracked, and then changes nothing.
/// Otherwise the user is returned as looked up afterwards. A warning, a mute, a ban and a reset
/// impose their standing whatever the earlier one, and the lifting of a mute or a ban leaves the
/// one that the count and the total lead to. What is known of every other user stays the same.
pub proof fn action_taken_is_looked_up(
    tracker: &mut UserViolationTracker,
    user_id: &str,
    action: UserAction,
    reason: Option<&str>,
    timestamp: i64,
    outcome: Result<UserInfo, String>,
    found: Option<UserInfo>,
)
    requires
        old(tracker).wf(),
        call_ensures(
            UserViolationTracker::apply_action,
            (tracker, user_id, action, reason, timestamp),
            outcome,
        ),
        call_ensures(UserViolationTracker::get_user, (&*final(tracker), user_id), found),
    ensures
        final(tracker).wf(),
        final(tracker)@.thresholds == old(tracker)@.thresholds,
        outcome is Ok <==> old(tracker)@.lookup(user_id@) is Some,
        outcome matches Err(message) ==> message@ == "用户 "@ + user_id@ + " 不存在"@ && found is None
            && final(tracker)@ == old(tracker)@,
        outcome matches Ok(user) ==> {
            let known = old(tracker)@.lookup(user_id@)->0;
            let lifted = action == UserAction::Unmute || action == UserAction::Unban;
            let banned = known.violation_count >= old(tracker)@.thresholds.ban
                || known.total_risk_score >= 300;
            let muted = known.violation_count >= old(tracker)@.thresholds.mute
                || known.total_risk_score >= 150;
            let warned = known.violation_count >= old(tracker)@.thresholds.warning
                || known.total_risk_score >= 50;
            &&& found is Some && found->0@ == user@
            &&& user.user_id@ == user_id@
            &&& action == UserAction::Warn ==> user.status == UserStatus::Warned
            &&& action == UserAction::Mute ==> user.status == UserStatus::Muted
            &&& action == UserAction::Ban ==> user.status == UserStatus::Banned
            &&& action == UserAction::Reset ==> user.status == UserStatus::Normal
            &&& lifted ==> (user.status == UserStatus::Banned <==> banned)
            &&& lifted ==> (user.status == UserStatus::Muted <==> muted && !banned)
            &&& lifted ==> (user.status == UserStatus::Warned <==> warned && !muted && !banned)
            &&& user.status_updated_at == Some(timestamp)
            &&& opt_text(user.user_name) == known.user_name
            &&& user.groups.deep_view() == known.groups
            &&& action == UserAction::Reset ==> user.violation_count == 0 && user.total_risk_score
                == 0 && user.records@.len() == 0 && user.last_violation_at is None
            &&& action != UserAction::Reset ==> user.violation_count == known.violation_count
                && user.total_risk_score == known.total_risk_score && user.records.deep_view()
                == known.records && user.last_violation_at == known.last_violation_at
        },
        forall|id: Seq<char>|
            id != user_id@ ==> #[trigger] final(tracker)@.lookup(id) == old(tracker)@.lookup(id),
{
    let before = old(tracker)@;
    found_user_is_consistent(before, user_id@);
    if outcome is Ok {
        let known = before.lookup(user_id@)->0;
        let user = outcome->Ok_0;
        action_keeps_the_user_consistent(known, action, timestamp, before.thresholds);
        action_imposes_its_standing(known, action, timestamp, before.thresholds);
        stored_user_is_found_and_others_are_kept(before, user@);
        assert(user@.records.len() == user.records@.len());
    }
}

} // verus!
