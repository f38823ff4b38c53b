//! What holds of every answer.

use crate::api::{
    all_kinds, answers_single, refusal_of, response_to, type_info, violation_info, ApiResponse,
    AppError, AppErrorView, GroupChatMessage, GroupChatMessageView, ModerationResponse,
    ViolationInfo, ViolationTypeInfo,
};
use crate::kinds::{ModerationSuggestion, Severity, ViolationType};
use crate::kinds_laws::{
    kind_is_known_by_its_code, kind_is_known_by_its_name, severity_is_known_by_its_names,
    suggestion_is_known_by_its_code,
};
use crate::moderation::{
    opt_text, verdict, ModerationResult, ModerationResultView, Violation, ViolationView,
};
use crate::moderation_laws::{risk_score_is_bounded, violation_iff_a_pattern_occurs};
use crate::rules::rule_table;
use crate::score_laws::{grave_reports, place, verdict_follows_the_kinds_reported};
use crate::table_laws::reports;
use crate::text::{lowered, occurs_in};
use vstd::prelude::*;

verus! {

/// A single message is refused exactly when its content, its group or its user is missing, and
/// then as a bad request that says what is missing.
pub proof fn message_is_refused_when_something_is_missing(msg: GroupChatMessageView)
    ensures
        refusal_of(msg) is None <==> msg.content.len() > 0 && msg.group_id.len() > 0
            && msg.user_id.len() > 0,
        refusal_of(msg) matches Some(e) ==> e is BadRequest && e.status() == 400 && e.message()
            == e->0,
{
}

/// The answer to a message carries the ids of the message.
pub proof fn answer_carries_the_ids(
    msg: GroupChatMessageView,
    result: ModerationResultView,
    processed_at: i64,
)
    ensures
        response_to(msg, result, processed_at).group_id == msg.group_id,
        response_to(msg, result, processed_at).user_id == msg.user_id,
        response_to(msg, result, processed_at).message_id == msg.message_id,
{
}

/// The answer to a message reports each violation found, in order, and has a positive risk
/// score of at most 100 exactly when there is one.
pub proof fn answer_reports_every_violation(
    msg: GroupChatMessageView,
    lowered: Seq<char>,
    processed_at: i64,
)
    ensures
        ({
            let response = response_to(msg, verdict(lowered), processed_at);
            &&& response.violations.len() == verdict(lowered).violations.len()
            &&& forall|k: int|
                0 <= k < response.violations.len() ==> (
                #[trigger] response.violations[k]).violation_type == verdict(
                    lowered,
                ).violations[k].violation_type.code() && response.violations[k].matched_text
                    == verdict(lowered).violations[k].matched_text
            &&& response.is_violation <==> response.violations.len() > 0
            &&& response.is_violation <==> response.risk_score > 0
            &&& response.risk_score <= 100
        }),
{
    risk_score_is_bounded(lowered);
}

/// Every kind of violation is listed, and listed once.
pub proof fn every_kind_is_listed_once(kind: ViolationType)
    ensures
        all_kinds().contains(kind),
        all_kinds().no_duplicates(),
{
    let kinds = all_kinds();
    match kind {
        ViolationType::Pornography => assert(kinds[0] == kind),
        ViolationType::Violence => assert(kinds[1] == kind),
        ViolationType::Politics => assert(kinds[2] == kind),
        ViolationType::Advertising => assert(kinds[3] == kind),
        ViolationType::Abuse => assert(kinds[4] == kind),
        ViolationType::Gambling => assert(kinds[5] == kind),
        ViolationType::Fraud => assert(kinds[6] == kind),
        ViolationType::Other => assert(kinds[7] == kind),
    }
}

/// The machine-readable name of a kind of violation tells it from every other.
pub proof fn codes_tell_kinds_apart(a: ViolationType, b: ViolationType)
    ensures
        type_info(a).code == type_info(b).code <==> a == b,
{
    reveal_strlit("pornography");
    reveal_strlit("violence");
    reveal_strlit("politics");
    reveal_strlit("advertising");
    reveal_strlit("abuse");
    reveal_strlit("gambling");
    reveal_strlit("fraud");
    reveal_strlit("other");
    assert("pornography"@.len() == 11);
    assert("violence"@.len() == 8 && "politics"@.len() == 8 && "gambling"@.len() == 8);
    assert("violence"@[0] == 'v' && "politics"@[0] == 'p' && "gambling"@[0] == 'g');
    assert("advertising"@.len() == 11 && "pornography"@[0] == 'p' && "advertising"@[0] == 'a');
    assert("abuse"@.len() == 5 && "fraud"@.len() == 5 && "other"@.len() == 5);
    assert("abuse"@[0] == 'a' && "fraud"@[0] == 'f' && "other"@[0] == 'o');
}

/// The answer says to block, to review or to let pass exactly when the verdict does.
pub proof fn answer_spells_out_the_suggestion(
    msg: GroupChatMessageView,
    result: ModerationResultView,
    processed_at: i64,
)
    ensures
        response_to(msg, result, processed_at).suggestion == "block"@ <==> result.suggestion
            == ModerationSuggestion::Block,
        response_to(msg, result, processed_at).suggestion == "review"@ <==> result.suggestion
            == ModerationSuggestion::Review,
        response_to(msg, result, processed_at).suggestion == "pass"@ <==> result.suggestion
            == ModerationSuggestion::Pass,
{
    suggestion_is_known_by_its_code(result.suggestion);
}

/// The answer repeats the verdict and the time, and reports the violations one by one.
pub proof fn answer_repeats_the_verdict(
    msg: GroupChatMessageView,
    result: ModerationResultView,
    processed_at: i64,
)
    ensures
        ({
            let response = response_to(msg, result, processed_at);
            &&& response.is_violation == result.is_violation
            &&& response.risk_score == result.risk_score
            &&& response.processed_at == processed_at
            &&& response.violations.len() == result.violations.len()
            &&& forall|k: int|
                0 <= k < result.violations.len() ==> {
                    let info = #[trigger] response.violations[k];
                    &&& info == violation_info(result.violations[k])
                    &&& info.description == result.violations[k].description
                    &&& info.matched_text == result.violations[k].matched_text
                }
        }),
{
}

/// The report on a violation names its kind and its severity, to machines and to people, and
/// passes on what was found.
pub proof fn report_spells_out_the_violation(violation: ViolationView)
    ensures
        ({
            let info = violation_info(violation);
            let kind = violation.violation_type;
            let severity = violation.severity;
            &&& info.violation_type == "pornography"@ <==> kind == ViolationType::Pornography
            &&& info.violation_type == "violence"@ <==> kind == ViolationType::Violence
            &&& info.violation_type == "politics"@ <==> kind == ViolationType::Politics
            &&& info.violation_type == "advertising"@ <==> kind == ViolationType::Advertising
            &&& info.violation_type == "abuse"@ <==> kind == ViolationType::Abuse
            &&& info.violation_type == "gambling"@ <==> kind == ViolationType::Gambling
            &&& info.violation_type == "fraud"@ <==> kind == ViolationType::Fraud
            &&& info.violation_type == "other"@ <==> kind == ViolationType::Other
            &&& info.violation_type_name == "色情低俗"@ <==> kind == ViolationType::Pornography
            &&& info.violation_type_name == "暴力血腥"@ <==> kind == ViolationType::Violence
            &&& info.violation_type_name == "政治敏感"@ <==> kind == ViolationType::Politics
            &&& info.violation_type_name == "广告推广"@ <==> kind == ViolationType::Advertising
            &&& info.violation_type_name == "辱骂攻击"@ <==> kind == ViolationType::Abuse
            &&& info.violation_type_name == "赌博相关"@ <==> kind == ViolationType::Gambling
            &&& info.violation_type_name == "诈骗欺诈"@ <==> kind == ViolationType::Fraud
            &&& info.violation_type_name == "其他违规"@ <==> kind == ViolationType::Other
            &&& info.severity == "low"@ <==> severity == Severity::Low
            &&& info.severity == "medium"@ <==> severity == Severity::Medium
            &&& info.severity == "high"@ <==> severity == Severity::High
            &&& info.severity == "critical"@ <==> severity == Severity::Critical
            &&& info.severity_name == "低"@ <==> severity == Severity::Low
            &&& info.severity_name == "中"@ <==> severity == Severity::Medium
            &&& info.severity_name == "高"@ <==> severity == Severity::High
            &&& info.severity_name == "严重"@ <==> severity == Severity::Critical
            &&& info.description == violation.description
            &&& info.matched_text == violation.matched_text
        }),
{
    kind_is_known_by_its_code(violation.violation_type);
    kind_is_known_by_its_name(violation.violation_type);
    severity_is_known_by_its_names(violation.severity);
}

/// What a message is answered, by the kinds it is reported for: politics, two grave kinds, or a
/// grave kind with abuse is blocked; a grave kind without them is reviewed; all else passes.
pub proof fn answer_follows_the_kinds_reported(
    msg: GroupChatMessageView,
    text: Seq<char>,
    processed_at: i64,
)
    ensures
        ({
            let response = response_to(msg, verdict(text), processed_at);
            let politics = reports(verdict(text), ViolationType::Politics);
            let abuse = reports(verdict(text), ViolationType::Abuse);
            let grave = grave_reports(text);
            &&& response.suggestion == "block"@ <==> politics || grave >= 2 || (grave == 1
                && abuse)
            &&& response.suggestion == "review"@ <==> grave == 1 && !politics && !abuse
            &&& response.suggestion == "pass"@ <==> grave == 0 && !politics
        }),
{
    verdict_follows_the_kinds_reported(text);
    answer_spells_out_the_suggestion(msg, verdict(text), processed_at);
}

/// What a refused message is told: that its content is empty where it is, else that its group
/// is, else that its user is.
pub proof fn refusal_says_what_is_missing(msg: GroupChatMessageView)
    ensures
        refusal_of(msg) == Some(AppErrorView::BadRequest("消息内容不能为空"@)) <==> msg.content.len()
            == 0,
        refusal_of(msg) == Some(AppErrorView::BadRequest("群ID不能为空"@)) <==> msg.content.len() > 0
            && msg.group_id.len() == 0,
        refusal_of(msg) == Some(AppErrorView::BadRequest("用户ID不能为空"@)) <==> msg.content.len() > 0
            && msg.group_id.len() > 0 && msg.user_id.len() == 0,
        refusal_of(msg) is None <==> msg.content.len() > 0 && msg.group_id.len() > 0
            && msg.user_id.len() > 0,
{
    reveal_strlit("消息内容不能为空");
    reveal_strlit("群ID不能为空");
    reveal_strlit("用户ID不能为空");
    assert("消息内容不能为空"@.len() == 8 && "群ID不能为空"@.len() == 7 && "用户ID不能为空"@.len() == 8);
    assert("消息内容不能为空"@[0] == '消' && "用户ID不能为空"@[0] == '用');
}

/// A bad request is answered with 400 and its reason, an internal error with 500 and a text of
/// its own; in a log the reason stands behind a heading.
pub proof fn errors_are_told_apart(error: AppErrorView)
    ensures
        error.status() == 400 <==> error is BadRequest,
        error.status() == 500 <==> error is InternalError,
        error is BadRequest ==> error.message() == error->0 && error.description() == "无效请求: "@
            + error->0,
        error is InternalError ==> error.message() == "内部服务器错误"@ && error.description()
            == "内部服务器错误"@,
{
}

/// What a single message is answered. It is refused exactly when its content, group or user is
/// missing. Otherwise the answer carries its ids; it is a violation exactly when some pattern of
/// the rule table occurs in the lowercase form of the content; and the score is positive exactly
/// for a violation.
pub proof fn single_message_is_answered_in_full<Clock: Fn() -> i64>(
    outcome: Result<ApiResponse<ModerationResponse>, AppError>,
    msg: GroupChatMessage,
    clock: Clock,
)
    requires
        answers_single(outcome, msg@, clock),
    ensures
        outcome is Ok <==> msg.content@.len() > 0 && msg.group_id@.len() > 0 && msg.user_id@.len()
            > 0,
        outcome matches Err(e) ==> (e matches AppError::BadRequest(reason) && reason@ == if
            msg.content@.len() == 0 {
            "消息内容不能为空"@
        } else if msg.group_id@.len() == 0 {
            "群ID不能为空"@
        } else {
            "用户ID不能为空"@
        }),
        outcome matches Ok(response) ==> {
            &&& response.code == 200
            &&& response.message@ == "success"@
            &&& response.data matches Some(data)
            &&& clock.ensures((), data.processed_at)
            &&& data.group_id@ == msg.group_id@
            &&& data.user_id@ == msg.user_id@
            &&& opt_text(data.message_id) == opt_text(msg.message_id)
            &&& data.is_violation <==> exists|r: int, k: int|
                0 <= r < rule_table().len() && 0 <= k < rule_table()[r].patterns.len()
                    && occurs_in(
                    #[trigger] rule_table()[r].patterns[k],
                    lowered(msg.content@),
                )
            &&& data.is_violation <==> data.violations@.len() > 0
            &&& data.is_violation <==> data.risk_score > 0
            &&& data.risk_score == verdict(lowered(msg.content@)).risk_score
            &&& data.violations@.len() == verdict(lowered(msg.content@)).violations.len()
            &&& forall|k: int|
                0 <= k < data.violations@.len() ==> (#[trigger] data.violations@[k])@
                    == violation_info(verdict(lowered(msg.content@)).violations[k])
            &&& data.suggestion@ == "block"@ <==> verdict(lowered(msg.content@)).suggestion
                == ModerationSuggestion::Block
            &&& data.suggestion@ == "review"@ <==> verdict(lowered(msg.content@)).suggestion
                == ModerationSuggestion::Review
            &&& data.suggestion@ == "pass"@ <==> verdict(lowered(msg.content@)).suggestion
                == ModerationSuggestion::Pass
        },
{
    if outcome is Ok {
        let data = (outcome->Ok_0).data->0;
        let text = lowered(msg.content@);
        violation_iff_a_pattern_occurs(text);
        risk_score_is_bounded(text);
        suggestion_is_known_by_its_code(verdict(text).suggestion);
        assert(data@.violations.len() == data.violations@.len());
        assert forall|k: int| 0 <= k < data.violations@.len() implies (
        #[trigger] data.violations@[k])@ == violation_info(verdict(text).violations[k]) by {
            assert(data@.violations[k] == data.violations@[k]@);
        }
    }
}

/// The list of the kinds of violation gives each kind its place, its names and what it covers.
pub proof fn listed_kind_is_spelled_out(kind: ViolationType)
    ensures
        all_kinds().len() == 8,
        all_kinds()[place(kind)] == kind,
        kind == ViolationType::Pornography ==> type_info(kind).code == "pornography"@
            && type_info(kind).name == "色情低俗"@ && type_info(kind).description
            == "包含色情、淫秽、低俗内容"@,
        kind == ViolationType::Violence ==> type_info(kind).code == "violence"@
            && type_info(kind).name == "暴力血腥"@ && type_info(kind).description
            == "包含暴力、血腥、恐怖内容"@,
        kind == ViolationType::Politics ==> type_info(kind).code == "politics"@
            && type_info(kind).name == "政治敏感"@ && type_info(kind).description
            == "包含政治敏感内容"@,
        kind == ViolationType::Advertising ==> type_info(kind).code == "advertising"@
            && type_info(kind).name == "广告推广"@ && type_info(kind).description
            == "包含广告、推广、营销内容"@,
        kind == ViolationType::Abuse ==> type_info(kind).code == "abuse"@
            && type_info(kind).name == "辱骂攻击"@ && type_info(kind).description
            == "包含辱骂、人身攻击内容"@,
        kind == ViolationType::Gambling ==> type_info(kind).code == "gambling"@
            && type_info(kind).name == "赌博相关"@ && type_info(kind).description
            == "包含赌博、博彩相关内容"@,
        kind == ViolationType::Fraud ==> type_info(kind).code == "fraud"@
            && type_info(kind).name == "诈骗欺诈"@ && type_info(kind).description
            == "包含诈骗、欺诈、虚假信息"@,
        kind == ViolationType::Other ==> type_info(kind).code == "other"@
            && type_info(kind).name == "其他违规"@ && type_info(kind).description
            == "其他违规内容"@,
{
}

/// The model of a message holds what the message holds.
pub proof fn message_is_modelled_field_by_field(msg: GroupChatMessage)
    ensures
        msg@.group_id == msg.group_id@,
        msg@.user_id == msg.user_id@,
        msg@.user_name is Some <==> msg.user_name is Some,
        msg.user_name matches Some(name) ==> msg@.user_name == Some(name@),
        msg@.message_id is Some <==> msg.message_id is Some,
        msg.message_id matches Some(id) ==> msg@.message_id == Some(id@),
        msg@.content == msg.content@,
        msg@.message_type is Some <==> msg.message_type is Some,
        msg.message_type matches Some(kind) ==> msg@.message_type == Some(kind@),
        msg@.timestamp == msg.timestamp,
{
}

/// The model of a verdict holds what the verdict holds, violation by violation.
pub proof fn verdict_is_modelled_field_by_field(result: ModerationResult, violation: Violation)
    ensures
        result@.is_violation == result.is_violation,
        result@.risk_score == result.risk_score,
        result@.suggestion == result.suggestion,
        result@.violations.len() == result.violations@.len(),
        forall|k: int|
            0 <= k < result.violations@.len() ==> #[trigger] result@.violations[k]
                == result.violations@[k]@,
        violation@.violation_type == violation.violation_type,
        violation@.severity == violation.severity,
        violation@.description == violation.description@,
        violation@.matched_text is Some <==> violation.matched_text is Some,
        violation.matched_text matches Some(text) ==> violation@.matched_text == Some(text@),
{
}

/// The model of an answer holds what the answer holds, report by report.
pub proof fn answer_is_modelled_field_by_field(response: ModerationResponse, info: ViolationInfo)
    ensures
        response@.group_id == response.group_id@,
        response@.user_id == response.user_id@,
        response@.message_id is Some <==> response.message_id is Some,
        response.message_id matches Some(id) ==> response@.message_id == Some(id@),
        response@.is_violation == response.is_violation,
        response@.risk_score == response.risk_score,
        response@.suggestion == response.suggestion@,
        response@.processed_at == response.processed_at,
        response@.violations.len() == response.violations@.len(),
        forall|k: int|
            0 <= k < response.violations@.len() ==> #[trigger] response@.violations[k]
                == response.violations@[k]@,
        info@.violation_type == info.violation_type@,
        info@.violation_type_name == info.violation_type_name@,
        info@.description == info.description@,
        info@.matched_text is Some <==> info.matched_text is Some,
        info.matched_text matches Some(text) ==> info@.matched_text == Some(text@),
        info@.severity == info.severity@,
        info@.severity_name == info.severity_name@,
{
}

/// The models of an error and of a listed kind hold what these hold.
pub proof fn error_and_listed_kind_are_modelled(error: AppError, info: ViolationTypeInfo)
    ensures
        error@ is BadRequest <==> error is BadRequest,
        error matches AppError::BadRequest(reason) ==> error@ == AppErrorView::BadRequest(reason@),
        info@.code == info.code@,
        info@.name == info.name@,
        info@.description == info.description@,
{
}

} // verus!
