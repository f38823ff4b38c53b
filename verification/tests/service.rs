use std::cell::Cell;

use group_chat_moderation::api::{
    build_moderation_response, checked_moderate_single, get_current_timestamp, health_check,
    moderate_single, to_violation_info, validate_message, violation_types, ApiResponse, AppError,
    GroupChatMessage,
};
use group_chat_moderation::batch::{
    batch_response, checked_moderate_batch, checked_moderate_chunk, collect_results,
    moderate_batch, moderate_chunk, select_messages, sort_by_index, split_chunks, validate_batch,
    BatchModerationRequest, IndexedResponse,
};
use group_chat_moderation::config::{chunk_size, max_concurrency, AppState};
use group_chat_moderation::moderation::moderate_message;

fn message(group: &str, user: &str, content: &str) -> GroupChatMessage {
    GroupChatMessage {
        group_id: group.to_string(),
        user_id: user.to_string(),
        user_name: None,
        message_id: None,
        content: content.to_string(),
        message_type: None,
        timestamp: None,
    }
}

#[test]
fn test_health_check() {
    let body = health_check("test", 1234);
    assert_eq!(body.code, 200);
    assert_eq!(body.message, "success");
    let data = body.data.unwrap();
    assert_eq!(data.status, "ok");
    assert_eq!(data.version, "test");
    assert_eq!(data.timestamp, 1234);
}

#[test]
fn test_moderate_clean_message() {
    let msg = GroupChatMessage {
        group_id: "group1".to_string(),
        user_id: "user1".to_string(),
        user_name: Some("测试用户".to_string()),
        message_id: Some("msg001".to_string()),
        content: "你好，今天天气真好".to_string(),
        message_type: Some("text".to_string()),
        timestamp: Some(1234567890),
    };
    let body = moderate_single(&msg, &|| 99).unwrap();
    assert_eq!(body.code, 200);
    let data = body.data.unwrap();
    assert!(!data.is_violation);
    assert_eq!(data.risk_score, 0);
    assert_eq!(data.suggestion, "pass");
    assert_eq!(data.group_id, "group1");
    assert_eq!(data.user_id, "user1");
    assert_eq!(data.message_id.as_deref(), Some("msg001"));
    assert_eq!(data.processed_at, 99);
}

#[test]
fn test_moderate_violation_message() {
    let body = moderate_single(&message("group1", "user1", "加微信abc123免费领取"), &|| 5).unwrap();
    let data = body.data.unwrap();
    assert!(data.is_violation);
    assert!(data.risk_score > 0);
    assert_eq!(data.violations[0].violation_type, "advertising");
    assert_eq!(data.violations[0].violation_type_name, "广告推广");
    assert_eq!(data.violations[0].severity, "low");
    assert_eq!(data.violations[0].severity_name, "低");
}

#[test]
fn test_moderate_empty_content() {
    let error = moderate_single(&message("group1", "user1", ""), &|| 5).unwrap_err();
    let response = error.into_response();
    assert_eq!(response.code, 400);
    assert_eq!(response.message, "消息内容不能为空");
    assert!(response.data.is_none());
}

#[test]
fn missing_parts_are_refused_in_order() {
    let reasons: Vec<String> = [
        message("", "", ""),
        message("", "", "x"),
        message("g", "", "x"),
    ]
    .iter()
    .map(|m| validate_message(m).unwrap_err().into_response().message)
    .collect();
    assert_eq!(
        reasons,
        vec![
            "消息内容不能为空".to_string(),
            "群ID不能为空".to_string(),
            "用户ID不能为空".to_string(),
        ]
    );
    assert!(validate_message(&message("g", "u", "x")).is_ok());
}

#[test]
fn errors_are_answered() {
    let internal = AppError::InternalError;
    assert_eq!(internal.to_string(), "内部服务器错误");
    let answer = internal.into_response();
    assert_eq!(answer.code, 500);
    assert_eq!(answer.message, "内部服务器错误");
    let bad = AppError::BadRequest("x".to_string());
    assert_eq!(bad.to_string(), "无效请求: x");
    assert_eq!(bad.into_response().message, "x");
}

#[test]
fn envelopes() {
    let ok = ApiResponse::success(7);
    assert_eq!((ok.code, ok.message.as_str(), ok.data), (200, "success", Some(7)));
    let bad: ApiResponse<i32> = ApiResponse::error(404, "gone".to_string());
    assert_eq!((bad.code, bad.message.as_str(), bad.data), (404, "gone", None));
}

#[test]
fn no_answer_without_a_verdict() {
    let msg = message("g", "u", "台独 杀人 色情 赌博 刷单");
    assert!(checked_moderate_single(&msg, &|| 1).is_none());
    assert!(checked_moderate_single(&message("g", "u", "台独"), &|| 1).unwrap().is_ok());
    assert!(checked_moderate_single(&message("g", "u", ""), &|| 1).unwrap().is_err());
}

#[test]
fn responses_repeat_the_verdict() {
    let msg = message("g", "u", "法轮功大法好");
    let result = moderate_message(&msg.content);
    let infos = to_violation_info(&result);
    assert_eq!(infos.len(), 1);
    assert_eq!(infos[0].violation_type, "politics");
    assert_eq!(infos[0].violation_type_name, "政治敏感");
    assert_eq!(infos[0].description, "包含政治敏感内容");
    assert_eq!(infos[0].matched_text.as_deref(), Some("法轮功"));
    assert_eq!(infos[0].severity, "critical");
    assert_eq!(infos[0].severity_name, "严重");
    let response = build_moderation_response(&msg, &result, 42);
    assert_eq!(response.suggestion, "block");
    assert_eq!(response.risk_score, 100);
    assert_eq!(response.processed_at, 42);
}

#[test]
fn timestamps() {
    assert_eq!(get_current_timestamp(Some(1700000000)), 1700000000);
    assert_eq!(get_current_timestamp(None), 0);
}

#[test]
fn the_kinds_are_listed() {
    let response = violation_types();
    assert_eq!(response.code, 200);
    let types = response.data.unwrap();
    assert_eq!(types.len(), 8);
    assert_eq!(types[0].code, "pornography");
    assert_eq!(types[0].name, "色情低俗");
    assert_eq!(types[0].description, "包含色情、淫秽、低俗内容");
    assert_eq!(types[6].description, "包含诈骗、欺诈、虚假信息");
    assert_eq!(types[7].code, "other");
    assert_eq!(types[7].description, "其他违规内容");
}

fn hundred_messages() -> Vec<GroupChatMessage> {
    let mut messages = Vec::new();
    for i in 0..100 {
        let content = if i % 5 == 0 {
            format!("加微信user{}免费领取礼品", i)
        } else if i % 7 == 0 {
            format!("傻逼你好{}", i)
        } else {
            format!("正常消息内容 {}", i)
        };
        messages.push(GroupChatMessage {
            group_id: format!("group_{}", i % 3),
            user_id: format!("user_{}", i),
            user_name: None,
            message_id: Some(format!("msg_{}", i)),
            content,
            message_type: None,
            timestamp: None,
        });
    }
    messages
}

#[test]
fn test_batch_moderation_concurrent() {
    let req = BatchModerationRequest { messages: hundred_messages() };
    let body = moderate_batch(req, 16, &|| 7, &|| 3).unwrap();
    assert_eq!(body.code, 200);
    let data = body.data.unwrap();
    assert_eq!(data.total, 100);
    assert!(data.violation_count > 0);
    assert!(data.duration_ms < 5000);
    assert_eq!(data.violation_count, 32);
    for (i, result) in data.results.iter().enumerate() {
        assert_eq!(result.message_id, Some(format!("msg_{}", i)));
        assert_eq!(result.is_violation, i % 5 == 0 || i % 7 == 0);
        assert_eq!(result.processed_at, 7);
    }
}

#[test]
fn chunks_may_finish_in_any_order() {
    let messages = select_messages(hundred_messages());
    let chunks = split_chunks(messages, 16);
    assert_eq!(chunks.len(), 7);
    assert_eq!(chunks[6].len(), 4);
    let mut completed: Vec<IndexedResponse> = Vec::new();
    for k in [3, 0, 6, 2, 5, 1, 4] {
        completed.extend(moderate_chunk(k, 16, &chunks[k], &|| k as i64));
    }
    let (results, violation_count) = collect_results(completed);
    assert_eq!(violation_count, 32);
    let answer = batch_response(results, violation_count, 11);
    assert_eq!(answer.code, 200);
    let data = answer.data.unwrap();
    assert_eq!(data.total, 100);
    assert_eq!(data.violation_count, 32);
    assert_eq!(data.duration_ms, 11);
    for (i, result) in data.results.iter().enumerate() {
        assert_eq!(result.user_id, format!("user_{}", i));
        assert_eq!(result.processed_at, (i / 16) as i64);
    }
}

#[test]
fn test_batch_moderation_empty_list() {
    let req = BatchModerationRequest { messages: vec![] };
    let error = moderate_batch(req, 16, &|| 0, &|| 0).unwrap_err();
    let response = error.into_response();
    assert_eq!(response.code, 400);
    assert_eq!(response.message, "消息列表不能为空");
}

#[test]
fn test_batch_moderation_skips_empty_content() {
    let messages = vec![message("g1", "u1", ""), message("g1", "u2", "正常消息")];
    let req = BatchModerationRequest { messages };
    let data = moderate_batch(req, 16, &|| 0, &|| 0).unwrap().data.unwrap();
    assert_eq!(data.total, 1);
    assert_eq!(data.results[0].user_id, "u2");
}

#[test]
fn batches_have_a_largest_size() {
    let full: Vec<GroupChatMessage> = (0..5000).map(|_| message("g", "u", "x")).collect();
    assert!(validate_batch(&BatchModerationRequest { messages: full }).is_ok());
    let over: Vec<GroupChatMessage> = (0..5001).map(|_| message("g", "u", "x")).collect();
    let error = validate_batch(&BatchModerationRequest { messages: over }).unwrap_err();
    assert_eq!(error.into_response().message, "单次最多审核5000条消息");
}

#[test]
fn a_batch_of_blanks_has_no_results() {
    let req = BatchModerationRequest { messages: vec![message("g", "u", "")] };
    let data = moderate_batch(req, 4, &|| 0, &|| 0).unwrap().data.unwrap();
    assert_eq!(data.total, 0);
    assert_eq!(data.violation_count, 0);
}

#[test]
fn no_batch_answer_without_a_verdict() {
    let grave = "台独 杀人 色情 赌博 刷单";
    let chunk = vec![message("g", "u", "x"), message("g", "u", grave)];
    assert!(checked_moderate_chunk(0, 2, &chunk, &|| 0).is_none());
    let req = BatchModerationRequest { messages: chunk };
    assert!(checked_moderate_batch(req, 2, &|| 0, &|| 0).is_none());
    let fine = vec![message("g", "u", "x")];
    let items = checked_moderate_chunk(3, 2, &fine, &|| 0).unwrap();
    assert_eq!(items[0].0, 6);
    let req = BatchModerationRequest { messages: fine };
    assert!(checked_moderate_batch(req, 2, &|| 0, &|| 0).unwrap().is_ok());
}

#[test]
fn sorting_is_stable() {
    let result = moderate_message("x");
    let item = |index: usize, user: &str| -> IndexedResponse {
        (index, build_moderation_response(&message("g", user, "x"), &result, 0), false)
    };
    let sorted = sort_by_index(vec![item(2, "a"), item(1, "b"), item(2, "c"), item(0, "d"), item(1, "e")]);
    let order: Vec<(usize, String)> = sorted.into_iter().map(|i| (i.0, i.1.user_id)).collect();
    let expected: Vec<(usize, String)> = [(0, "d"), (1, "b"), (1, "e"), (2, "a"), (2, "c")]
        .iter()
        .map(|(k, u)| (*k, u.to_string()))
        .collect();
    assert_eq!(order, expected);
}

#[test]
fn chunks_divide_evenly() {
    let chunks = split_chunks((0..6).map(|_| message("g", "u", "x")).collect(), 3);
    assert_eq!(chunks.iter().map(|c| c.len()).collect::<Vec<usize>>(), vec![3, 3]);
    assert!(split_chunks(Vec::new(), 3).is_empty());
}

#[test]
fn copies_of_messages_are_equal() {
    let mut msg = message("g", "u", "x");
    msg.user_name = Some("n".to_string());
    msg.timestamp = Some(3);
    let copy = msg.clone();
    assert_eq!(copy.user_name.as_deref(), Some("n"));
    assert_eq!(copy.content, "x");
    assert_eq!(copy.timestamp, Some(3));
}

#[test]
fn settings_are_read() {
    assert_eq!(max_concurrency(Some("12"), 4), 12);
    assert_eq!(max_concurrency(Some("+7"), 4), 7);
    assert_eq!(chunk_size(Some("0064")), 64);
    assert_eq!(chunk_size(Some("0")), 0);
}

#[test]
fn settings_that_are_no_numbers_are_ignored() {
    for text in ["", "+", " 12", "12 ", "-1", "1_000", "x", "99999999999999999999999", "++1"] {
        assert_eq!(chunk_size(Some(text)), 32);
        assert_eq!(max_concurrency(Some(text), 4), 32);
    }
}

#[test]
fn default_concurrency() {
    assert_eq!(max_concurrency(None, 1), 16);
    assert_eq!(max_concurrency(None, 2), 16);
    assert_eq!(max_concurrency(None, 3), 24);
    assert_eq!(max_concurrency(None, 32), 256);
    assert_eq!(max_concurrency(None, 64), 256);
    assert_eq!(chunk_size(None), 32);
    let state = AppState::configured(None, Some("5"), 8);
    assert_eq!(state.version, "0.1.0");
    assert_eq!(state.max_concurrency, 64);
    assert_eq!(state.chunk_size, 5);
}

#[test]
fn the_clock_is_read_only_for_judged_messages() {
    let reads = Cell::new(0);
    let clock = || {
        reads.set(reads.get() + 1);
        reads.get()
    };
    assert!(moderate_single(&message("g", "u", ""), &clock).is_err());
    assert_eq!(reads.get(), 0);
    let data = moderate_single(&message("g", "u", "x"), &clock).unwrap().data.unwrap();
    assert_eq!(data.processed_at, 1);
}
