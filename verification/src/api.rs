//! The requests that the service answers, and its answers.

use crate::kinds::{ModerationSuggestion, ViolationType};
use crate::kinds_laws::suggestion_is_known_by_its_code;
use crate::moderation::{
    has_verdict, moderate_message, opt_text, points_fit, verdict, ModerationResult,
    ModerationResultView, Violation, ViolationView,
};
use crate::text::lowered;
use vstd::prelude::*;

verus! {

/// Why a request is not answered.
#[derive(Debug, Clone)]
pub enum AppError {
    BadRequest(String),
    InternalError,
}

/// The mathematical content of an [`AppError`].
pub enum AppErrorView {
    BadRequest(Seq<char>),
    InternalError,
}

impl View for AppError {
    type V = AppErrorView;

    open spec fn view(&self) -> AppErrorView {
        match self {
            AppError::BadRequest(reason) => AppErrorView::BadRequest(reason@),
            AppError::InternalError => AppErrorView::InternalError,
        }
    }
}

impl AppErrorView {
    /// The status code of the answer.
    pub open spec fn status(self) -> u16 {
        match self {
            AppErrorView::BadRequest(_) => 400,
            AppErrorView::InternalError => 500,
        }
    }

    /// The message of the answer.
    pub open spec fn message(self) -> Seq<char> {
        match self {
            AppErrorView::BadRequest(reason) => reason,
            AppErrorView::InternalError => "内部服务器错误"@,
        }
    }

    /// The error as it is shown in a log.
    pub open spec fn description(self) -> Seq<char> {
        match self {
            AppErrorView::BadRequest(reason) => "无效请求: "@ + reason,
            AppErrorView::InternalError => "内部服务器错误"@,
        }
    }
}

impl AppError {
    /// The error as it is shown in a log.
    pub fn to_string(&self) -> (s: String)
        ensures
            s@ == self@.description(),
    {
        match self {
            AppError::BadRequest(reason) => {
                let mut s = "无效请求: ".to_owned();
                s.append(reason.as_str());
                s
            },
            AppError::InternalError => "内部服务器错误".to_owned(),
        }
    }

    /// The answer to a request that failed.
    pub fn into_response(self) -> (response: ApiResponse<()>)
        ensures
            response.code == self@.status(),
            response.message@ == self@.message(),
            response.data is None,
    {
        match self {
            AppError::BadRequest(reason) => ApiResponse::error(400, reason),
            AppError::InternalError => {
                let message = self.to_string();
                ApiResponse::error(500, message)
            },
        }
    }
}

/// The envelope of every answer.
#[derive(Debug, Clone)]
pub struct ApiResponse<T> {
    pub code: u16,
    pub message: String,
    pub data: Option<T>,
}

impl<T> ApiResponse<T> {
    /// The answer that carries `data`.
    pub fn success(data: T) -> (response: Self)
        ensures
            response.code == 200,
            response.message@ == "success"@,
            response.data == Some(data),
    {
        ApiResponse { code: 200, message: "success".to_owned(), data: Some(data) }
    }

    /// The answer that carries no data.
    pub fn error(code: u16, message: String) -> (response: Self)
        ensures
            response.code == code,
            response.message == message,
            response.data is None,
    {
        ApiResponse { code, message, data: None }
    }
}

/// A message posted to a group.
#[derive(Debug)]
pub struct GroupChatMessage {
    pub group_id: String,
    pub user_id: String,
    pub user_name: Option<String>,
    pub message_id: Option<String>,
    pub content: String,
    pub message_type: Option<String>,
    pub timestamp: Option<i64>,
}

/// The mathematical content of a [`GroupChatMessage`].
pub struct GroupChatMessageView {
    pub group_id: Seq<char>,
    pub user_id: Seq<char>,
    pub user_name: Option<Seq<char>>,
    pub message_id: Option<Seq<char>>,
    pub content: Seq<char>,
    pub message_type: Option<Seq<char>>,
    pub timestamp: Option<i64>,
}

impl View for GroupChatMessage {
    type V = GroupChatMessageView;

    open spec fn view(&self) -> GroupChatMessageView {
        GroupChatMessageView {
            group_id: self.group_id@,
            user_id: self.user_id@,
            user_name: opt_text(self.user_name),
            message_id: opt_text(self.message_id),
            content: self.content@,
            message_type: opt_text(self.message_type),
            timestamp: self.timestamp,
        }
    }
}

impl DeepView for GroupChatMessage {
    type V = GroupChatMessageView;

    open spec fn deep_view(&self) -> GroupChatMessageView {
        self@
    }
}

/// A copy of an optional string.
pub fn clone_opt(text: &Option<String>) -> (copy: Option<String>)
    ensures
        opt_text(copy) == opt_text(*text),
{
    match text {
        Some(s) => Some(s.clone()),
        None => None,
    }
}

impl Clone for GroupChatMessage {
    fn clone(&self) -> (copy: Self)
        ensures
            copy@ == self@,
    {
        GroupChatMessage {
            group_id: self.group_id.clone(),
            user_id: self.user_id.clone(),
            user_name: clone_opt(&self.user_name),
            message_id: clone_opt(&self.message_id),
            content: self.content.clone(),
            message_type: clone_opt(&self.message_type),
            timestamp: self.timestamp,
        }
    }
}

/// A violation as it is reported to clients.
#[derive(Debug, Clone)]
pub struct ViolationInfo {
    pub violation_type: String,
    pub violation_type_name: String,
    pub description: String,
    pub matched_text: Option<String>,
    pub severity: String,
    pub severity_name: String,
}

/// The mathematical content of a [`ViolationInfo`].
pub struct ViolationInfoView {
    pub violation_type: Seq<char>,
    pub violation_type_name: Seq<char>,
    pub description: Seq<char>,
    pub matched_text: Option<Seq<char>>,
    pub severity: Seq<char>,
    pub severity_name: Seq<char>,
}

impl View for ViolationInfo {
    type V = ViolationInfoView;

    open spec fn view(&self) -> ViolationInfoView {
        ViolationInfoView {
            violation_type: self.violation_type@,
            violation_type_name: self.violation_type_name@,
            description: self.description@,
            matched_text: opt_text(self.matched_text),
            severity: self.severity@,
            severity_name: self.severity_name@,
        }
    }
}

impl DeepView for ViolationInfo {
    type V = ViolationInfoView;

    open spec fn deep_view(&self) -> ViolationInfoView {
        self@
    }
}

/// The report on one violation.
pub open spec fn violation_info(violation: ViolationView) -> ViolationInfoView {
    ViolationInfoView {
        violation_type: violation.violation_type.code(),
        violation_type_name: violation.violation_type.name(),
        description: violation.description,
        matched_text: violation.matched_text,
        severity: violation.severity.code(),
        severity_name: violation.severity.name(),
    }
}

/// The reports on the violations of a verdict, in order.
pub open spec fn violation_infos(violations: Seq<ViolationView>) -> Seq<ViolationInfoView> {
    violations.map_values(|v: ViolationView| violation_info(v))
}

/// Reports the violations of a verdict.
pub fn to_violation_info(result: &ModerationResult) -> (infos: Vec<ViolationInfo>)
    ensures
        infos.deep_view() == violation_infos(result@.violations),
{
    let mut infos: Vec<ViolationInfo> = Vec::new();
    let n: usize = result.violations.len();
    let mut i: usize = 0;
    while i < n
        invariant
            n == result.violations@.len(),
            i <= n,
            infos@.len() == i,
            forall|k: int|
                0 <= k < i ==> (#[trigger] infos@[k])@ == violation_info(result.violations@[k]@),
        decreases n - i,
    {
        let violation: &Violation = &result.violations[i];
        infos.push(
            ViolationInfo {
                violation_type: violation.violation_type.to_code(),
                violation_type_name: violation.violation_type.to_string(),
                description: violation.description.clone(),
                matched_text: clone_opt(&violation.matched_text),
                severity: violation.severity.to_code(),
                severity_name: violation.severity.to_string(),
            },
        );
        i += 1;
    }
    assert(infos.deep_view() =~= violation_infos(result@.violations));
    infos
}

/// The answer to one moderated message.
#[derive(Debug, Clone)]
pub struct ModerationResponse {
    pub group_id: String,
    pub user_id: String,
    pub message_id: Option<String>,
    pub is_violation: bool,
    pub violations: Vec<ViolationInfo>,
    pub risk_score: u8,
    pub suggestion: String,
    pub processed_at: i64,
}

/// The mathematical content of a [`ModerationResponse`].
pub struct ModerationResponseView {
    pub group_id: Seq<char>,
    pub user_id: Seq<char>,
    pub message_id: Option<Seq<char>>,
    pub is_violation: bool,
    pub violations: Seq<ViolationInfoView>,
    pub risk_score: int,
    pub suggestion: Seq<char>,
    pub processed_at: i64,
}

impl View for ModerationResponse {
    type V = ModerationResponseView;

    open spec fn view(&self) -> ModerationResponseView {
        ModerationResponseView {
            group_id: self.group_id@,
            user_id: self.user_id@,
            message_id: opt_text(self.message_id),
            is_violation: self.is_violation,
            violations: self.violations.deep_view(),
            risk_score: self.risk_score as int,
            suggestion: self.suggestion@,
            processed_at: self.processed_at,
        }
    }
}

impl DeepView for ModerationResponse {
    type V = ModerationResponseView;

    open spec fn deep_view(&self) -> ModerationResponseView {
        self@
    }
}

/// The answer to a message on which the given verdict was passed at the given time.
pub open spec fn response_to(
    msg: GroupChatMessageView,
    result: ModerationResultView,
    processed_at: i64,
) -> ModerationResponseView {
    ModerationResponseView {
        group_id: msg.group_id,
        user_id: msg.user_id,
        message_id: msg.message_id,
        is_violation: result.is_violation,
        violations: violation_infos(result.violations),
        risk_score: result.risk_score,
        suggestion: result.suggestion.code(),
        processed_at,
    }
}

/// Seconds since the epoch as a timestamp. A clock that stands before the epoch reads 0.
pub fn get_current_timestamp(seconds_since_epoch: Option<u64>) -> (timestamp: i64)
    ensures
        timestamp == match seconds_since_epoch {
            Some(seconds) => seconds as i64,
            None => 0i64,
        },
{
    match seconds_since_epoch {
        Some(seconds) => seconds as i64,
        None => 0,
    }
}

/// Writes the answer to a message on which a verdict was passed.
pub fn build_moderation_response(
    msg: &GroupChatMessage,
    result: &ModerationResult,
    processed_at: i64,
) -> (response: ModerationResponse)
    ensures
        response@ == response_to(msg@, result@, processed_at),
        response.group_id@ == msg.group_id@,
        response.user_id@ == msg.user_id@,
        opt_text(response.message_id) == opt_text(msg.message_id),
        response.is_violation == result.is_violation,
        response.violations@.len() == result.violations@.len(),
        response.risk_score == result.risk_score,
        response.suggestion@ == "block"@ <==> result.suggestion == ModerationSuggestion::Block,
        response.suggestion@ == "review"@ <==> result.suggestion == ModerationSuggestion::Review,
        response.suggestion@ == "pass"@ <==> result.suggestion == ModerationSuggestion::Pass,
        response.processed_at == processed_at,
{
    let violations = to_violation_info(result);
    proof {
        suggestion_is_known_by_its_code(result.suggestion);
        assert(violations.deep_view().len() == violations@.len());
    }
    ModerationResponse {
        group_id: msg.group_id.clone(),
        user_id: msg.user_id.clone(),
        message_id: clone_opt(&msg.message_id),
        is_violation: result.is_violation,
        violations,
        risk_score: result.risk_score,
        suggestion: result.suggestion.to_code(),
        processed_at,
    }
}

/// Why a single message is refused, if it is: its content, its group and its user are needed,
/// and are looked at in this order.
pub open spec fn refusal_of(msg: GroupChatMessageView) -> Option<AppErrorView> {
    if msg.content.len() == 0 {
        Some(AppErrorView::BadRequest("消息内容不能为空"@))
    } else if msg.group_id.len() == 0 {
        Some(AppErrorView::BadRequest("群ID不能为空"@))
    } else if msg.user_id.len() == 0 {
        Some(AppErrorView::BadRequest("用户ID不能为空"@))
    } else {
        None
    }
}

/// Checks that a single message can be moderated.
pub fn validate_message(msg: &GroupChatMessage) -> (checked: Result<(), AppError>)
    ensures
        match checked {
            Ok(_) => refusal_of(msg@) is None,
            Err(e) => refusal_of(msg@) == Some(e@),
        },
        checked is Ok <==> msg.content@.len() > 0 && msg.group_id@.len() > 0 && msg.user_id@.len()
            > 0,
{
    if msg.content.as_str().is_empty() {
        return Err(AppError::BadRequest("消息内容不能为空".to_owned()));
    }
    if msg.group_id.as_str().is_empty() {
        return Err(AppError::BadRequest("群ID不能为空".to_owned()));
    }
    if msg.user_id.as_str().is_empty() {
        return Err(AppError::BadRequest("用户ID不能为空".to_owned()));
    }
    Ok(())
}

/// Whether `outcome` is what a single message is answered, at a time that the clock gave.
pub open spec fn answers_single<Clock: Fn() -> i64>(
    outcome: Result<ApiResponse<ModerationResponse>, AppError>,
    msg: GroupChatMessageView,
    clock: Clock,
) -> bool {
    match outcome {
        Ok(response) => {
            &&& refusal_of(msg) is None
            &&& response.code == 200
            &&& response.message@ == "success"@
            &&& response.data matches Some(data)
            &&& data@ == response_to(msg, verdict(lowered(msg.content)), data.processed_at)
            &&& clock.ensures((), data.processed_at)
        },
        Err(e) => refusal_of(msg) == Some(e@),
    }
}

/// Answers the request to moderate a single message. The clock is read when the message has
/// been judged.
pub fn moderate_single<Clock: Fn() -> i64>(msg: &GroupChatMessage, clock: &Clock) -> (outcome:
    Result<ApiResponse<ModerationResponse>, AppError>)
    requires
        refusal_of(msg@) is None ==> points_fit(lowered(msg@.content)),
        clock.requires(()),
    ensures
        answers_single(outcome, msg@, *clock),
{
    match validate_message(msg) {
        Ok(_) => {},
        Err(e) => {
            return Err(e);
        },
    }
    let result = moderate_message(msg.content.as_str());
    let processed_at: i64 = clock();
    Ok(ApiResponse::success(build_moderation_response(msg, &result, processed_at)))
}

/// Answers the request to moderate a single message. There is no answer to a message on which
/// there is no verdict.
pub fn checked_moderate_single<Clock: Fn() -> i64>(msg: &GroupChatMessage, clock: &Clock) -> (
    outcome: Option<Result<ApiResponse<ModerationResponse>, AppError>>)
    requires
        clock.requires(()),
    ensures
        match outcome {
            Some(answer) => (refusal_of(msg@) is None ==> points_fit(lowered(msg@.content)))
                && answers_single(answer, msg@, *clock),
            None => refusal_of(msg@) is None && !points_fit(lowered(msg@.content)),
        },
{
    match validate_message(msg) {
        Ok(_) => if has_verdict(msg.content.as_str()) {
            Some(moderate_single(msg, clock))
        } else {
            None
        },
        Err(e) => Some(Err(e)),
    }
}

/// The answer to a health check.
#[derive(Debug, Clone)]
pub struct HealthResponse {
    pub status: String,
    pub version: String,
    pub timestamp: i64,
}

/// Answers a health check.
pub fn health_check(version: &str, timestamp: i64) -> (response: ApiResponse<HealthResponse>)
    ensures
        response.code == 200,
        response.message@ == "success"@,
        response.data matches Some(health) && health.status@ == "ok"@ && health.version@ == version@
            && health.timestamp == timestamp,
{
    ApiResponse::success(
        HealthResponse { status: "ok".to_owned(), version: version.to_owned(), timestamp },
    )
}

/// A kind of violation as it is listed to clients.
#[derive(Debug, Clone)]
pub struct ViolationTypeInfo {
    pub code: String,
    pub name: String,
    pub description: String,
}

/// The mathematical content of a [`ViolationTypeInfo`].
pub struct ViolationTypeInfoView {
    pub code: Seq<char>,
    pub name: Seq<char>,
    pub description: Seq<char>,
}

impl View for ViolationTypeInfo {
    type V = ViolationTypeInfoView;

    open spec fn view(&self) -> ViolationTypeInfoView {
        ViolationTypeInfoView {
            code: self.code@,
            name: self.name@,
            description: self.description@,
        }
    }
}

impl DeepView for ViolationTypeInfo {
    type V = ViolationTypeInfoView;

    open spec fn deep_view(&self) -> ViolationTypeInfoView {
        self@
    }
}

/// What a kind of violation covers.
pub open spec fn coverage_of(kind: ViolationType) -> Seq<char> {
    match kind {
        ViolationType::Pornography => "包含色情、淫秽、低俗内容"@,
        ViolationType::Violence => "包含暴力、血腥、恐怖内容"@,
        ViolationType::Politics => "包含政治敏感内容"@,
        ViolationType::Advertising => "包含广告、推广、营销内容"@,
        ViolationType::Abuse => "包含辱骂、人身攻击内容"@,
        ViolationType::Gambling => "包含赌博、博彩相关内容"@,
        ViolationType::Fraud => "包含诈骗、欺诈、虚假信息"@,
        ViolationType::Other => "其他违规内容"@,
    }
}

/// The entry of a kind of violation in the list for clients.
pub open spec fn type_info(kind: ViolationType) -> ViolationTypeInfoView {
    ViolationTypeInfoView { code: kind.code(), name: kind.name(), description: coverage_of(kind) }
}

/// All kinds of violation, in the order in which they are listed.
pub open spec fn all_kinds() -> Seq<ViolationType> {
    seq![
        ViolationType::Pornography,
        ViolationType::Violence,
        ViolationType::Politics,
        ViolationType::Advertising,
        ViolationType::Abuse,
        ViolationType::Gambling,
        ViolationType::Fraud,
        ViolationType::Other,
    ]
}

fn violation_type_info(kind: ViolationType) -> (info: ViolationTypeInfo)
    ensures
        info@ == type_info(kind),
{
    let description = match kind {
        ViolationType::Pornography => "包含色情、淫秽、低俗内容",
        ViolationType::Violence => "包含暴力、血腥、恐怖内容",
        ViolationType::Politics => "包含政治敏感内容",
        ViolationType::Advertising => "包含广告、推广、营销内容",
        ViolationType::Abuse => "包含辱骂、人身攻击内容",
        ViolationType::Gambling => "包含赌博、博彩相关内容",
        ViolationType::Fraud => "包含诈骗、欺诈、虚假信息",
        ViolationType::Other => "其他违规内容",
    };
    ViolationTypeInfo {
        code: kind.to_code(),
        name: kind.to_string(),
        description: description.to_owned(),
    }
}

/// Answers the request to list the kinds of violation.
pub fn violation_types() -> (response: ApiResponse<Vec<ViolationTypeInfo>>)
    ensures
        response.code == 200,
        response.message@ == "success"@,
        response.data matches Some(infos) && infos.deep_view() == all_kinds().map_values(
            |kind: ViolationType| type_info(kind),
        ),
{
    let infos = vec![
        violation_type_info(ViolationType::Pornography),
        violation_type_info(ViolationType::Violence),
        violation_type_info(ViolationType::Politics),
        violation_type_info(ViolationType::Advertising),
        violation_type_info(ViolationType::Abuse),
        violation_type_info(ViolationType::Gambling),
        violation_type_info(ViolationType::Fraud),
        violation_type_info(ViolationType::Other),
    ];
    assert(infos.deep_view() =~= all_kinds().map_values(|kind: ViolationType| type_info(kind)));
    ApiResponse::success(infos)
}

} // verus!
