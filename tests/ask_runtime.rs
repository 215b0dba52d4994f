use coda_ask::answers::{validate_and_normalize_answers, AnswerError};
use coda_ask::clock::{
    format_iso_utc, is_past_retention, is_session_expired, parse_requested_at_iso,
    session_expiry_iso, session_expiry_time, session_timeout_duration,
};
use coda_ask::model::{
    AskAnswer, AskNote, AskOption, AskQuestion, AskRequestBatch, AskResponseBatch,
    AskResponseStatus, AskSocketRequest, SubmitAskResponsePayload, SubmitAskResponseStatus,
};
use coda_ask::protocol::{build_expired_response, validate_socket_request, ProtocolError};
use coda_ask::store::{AskRuntimeState, StoreError, SubmitError};
use coda_ask::text::{is_blank, normalize_optional_text};
use std::sync::mpsc;
use std::time::Duration;
use time::format_description::well_known::Rfc3339;
use time::{Duration as TimeDuration, OffsetDateTime};

fn build_request(timeout_ms: u64, requested_at_iso: &str, require_note: bool) -> AskSocketRequest {
    AskSocketRequest {
        request_type: "ask_request".to_string(),
        ask_id: "ask-test-1".to_string(),
        request: AskRequestBatch {
            questions: vec![AskQuestion {
                header: "Scope".to_string(),
                id: "scope_choice".to_string(),
                question: "Choose scope".to_string(),
                options: vec![
                    AskOption {
                        label: "Ship now (Recommended)".to_string(),
                        description: "Fast path".to_string(),
                    },
                    AskOption {
                        label: "Expand".to_string(),
                        description: "Broader path".to_string(),
                    },
                ],
            }],
            note: Some(AskNote {
                label: "Reason".to_string(),
                required: require_note,
            }),
        },
        timeout_ms,
        requested_at_iso: requested_at_iso.to_string(),
    }
}

fn now_nanos() -> i128 {
    OffsetDateTime::now_utc().unix_timestamp_nanos()
}

fn option_answer(id: &str, index: usize) -> AskAnswer {
    AskAnswer {
        id: id.to_string(),
        selected_label: "sent by caller".to_string(),
        selected_index: Some(index),
        used_other: false,
        other_text: None,
    }
}

fn other_answer(id: &str, text: Option<&str>) -> AskAnswer {
    AskAnswer {
        id: id.to_string(),
        selected_label: "sent by caller".to_string(),
        selected_index: None,
        used_other: true,
        other_text: text.map(|t| t.to_string()),
    }
}

fn two_question_batch() -> AskRequestBatch {
    let mut batch = build_request(0, "2026-02-19T00:00:00Z", false).request;
    batch.questions.push(AskQuestion {
        header: "Risk".to_string(),
        id: "risk".to_string(),
        question: "How risky?".to_string(),
        options: vec![
            AskOption { label: "Low".to_string(), description: String::new() },
            AskOption { label: "High".to_string(), description: String::new() },
        ],
    });
    batch
}

fn answered_payload(answers: Vec<AskAnswer>, note: Option<&str>) -> SubmitAskResponsePayload {
    SubmitAskResponsePayload {
        ask_id: "ask-test-1".to_string(),
        answers,
        note: note.map(|n| n.to_string()),
        status: SubmitAskResponseStatus::Answered,
    }
}

#[test]
fn submits_answered_response_and_normalizes_payload() {
    let mut state = AskRuntimeState::new();
    let (sender, receiver) = mpsc::channel::<AskResponseBatch>();

    state
        .insert_pending_session(build_request(0, "2026-02-19T00:00:00Z", true), sender, now_nanos())
        .expect("session should be inserted");

    let outcome = state.submit_response(
        SubmitAskResponsePayload {
            ask_id: "ask-test-1".to_string(),
            answers: vec![AskAnswer {
                id: "scope_choice".to_string(),
                selected_label: "ignored by backend".to_string(),
                selected_index: Some(1),
                used_other: false,
                other_text: None,
            }],
            note: Some("  because impact is low  ".to_string()),
            status: SubmitAskResponseStatus::Answered,
        },
        now_nanos(),
    );
    outcome.result.expect("valid response should be accepted");
    let delivery = outcome.delivery.expect("a resolution should be produced");
    delivery.sender.send(delivery.response).expect("waiter should be listening");

    let response = receiver
        .recv_timeout(Duration::from_millis(200))
        .expect("response should be sent to socket waiter");

    assert_eq!(response.status, AskResponseStatus::Answered);
    assert_eq!(response.note.as_deref(), Some("because impact is low"));
    assert_eq!(response.answers.len(), 1);
    assert_eq!(response.answers[0].selected_label, "Expand");
}

#[test]
fn keeps_session_pending_when_payload_validation_fails() {
    let mut state = AskRuntimeState::new();
    let (sender, _receiver) = mpsc::channel::<AskResponseBatch>();

    state
        .insert_pending_session(build_request(0, "2026-02-19T00:00:00Z", false), sender, now_nanos())
        .expect("session should be inserted");

    let outcome = state.submit_response(
        SubmitAskResponsePayload {
            ask_id: "ask-test-1".to_string(),
            answers: Vec::new(),
            note: None,
            status: SubmitAskResponseStatus::Answered,
        },
        now_nanos(),
    );

    assert!(outcome.result.is_err());
    assert!(outcome.delivery.is_none());

    let listing = state.list_pending_sessions(now_nanos());
    assert_eq!(listing.sessions.len(), 1);
}

#[test]
fn marks_pending_session_as_expired_when_timeout_has_passed() {
    let mut state = AskRuntimeState::new();
    let (sender, _receiver) = mpsc::channel::<AskResponseBatch>();
    let requested_at_iso = (OffsetDateTime::now_utc() - TimeDuration::seconds(1))
        .format(&Rfc3339)
        .expect("recent timestamp should format");

    state
        .insert_pending_session(build_request(1, &requested_at_iso, false), sender, now_nanos())
        .expect("session should be inserted");

    let listing = state.list_pending_sessions(now_nanos());

    assert_eq!(listing.sessions.len(), 1);
    assert!(listing.sessions[0].is_expired);
}

#[test]
fn rejects_submission_when_session_is_expired_and_emits_expired_response() {
    let mut state = AskRuntimeState::new();
    let (sender, receiver) = mpsc::channel::<AskResponseBatch>();

    state
        .insert_pending_session(build_request(1, "2000-01-01T00:00:00Z", false), sender, now_nanos())
        .expect("session should be inserted");

    let outcome = state.submit_response(
        SubmitAskResponsePayload {
            ask_id: "ask-test-1".to_string(),
            answers: Vec::new(),
            note: None,
            status: SubmitAskResponseStatus::Cancelled,
        },
        now_nanos(),
    );

    assert!(outcome.result.is_err());
    let delivery = outcome.delivery.expect("expired resolution should be produced");
    delivery.sender.send(delivery.response).expect("waiter should be listening");

    let response = receiver
        .recv_timeout(Duration::from_millis(200))
        .expect("expired response should be forwarded");

    assert_eq!(response.status, AskResponseStatus::Expired);
}

#[test]
fn insert_then_list_shows_the_new_session_once() {
    let mut state = AskRuntimeState::new();
    let notice = state
        .insert_pending_session(build_request(0, "2026-02-19T00:00:00Z", false), 7u8, now_nanos())
        .expect("session should be inserted");
    assert_eq!(notice.ask_id, "ask-test-1");
    assert_eq!(notice.requested_at_iso, "2026-02-19T00:00:00Z");
    assert_eq!(notice.first_question_text.as_deref(), Some("Choose scope"));

    let listing = state.list_pending_sessions(now_nanos());
    let matching = listing.sessions.iter().filter(|s| s.ask_id == "ask-test-1").count();
    assert_eq!(matching, 1);
    assert_eq!(listing.sessions[0].expires_at_iso, None);
    assert!(!listing.sessions[0].is_expired);
    assert!(listing.expired.is_empty());
}

#[test]
fn duplicate_insert_is_refused_and_first_session_kept() {
    let mut state = AskRuntimeState::new();
    state
        .insert_pending_session(build_request(0, "2026-02-19T00:00:00Z", false), 1u8, now_nanos())
        .expect("first insert should succeed");
    let mut second = build_request(5000, "2026-03-01T00:00:00Z", true);
    second.request.questions[0].question = "Another question".to_string();
    let refused = state.insert_pending_session(second, 2u8, now_nanos());
    assert_eq!(
        refused.unwrap_err(),
        StoreError::DuplicateSession { ask_id: "ask-test-1".to_string() }
    );
    assert_eq!(state.len(), 1);
    let removed = state.remove_pending_session("ask-test-1").expect("first session is there");
    assert_eq!(removed.response_sender, 1u8);
    assert_eq!(removed.timeout_ms, 0);
    assert_eq!(removed.requested_at_iso, "2026-02-19T00:00:00Z");
}

#[test]
fn remove_is_idempotent() {
    let mut state = AskRuntimeState::new();
    state
        .insert_pending_session(build_request(0, "2026-02-19T00:00:00Z", false), 1u8, now_nanos())
        .expect("insert should succeed");
    assert!(state.remove_pending_session("ask-test-1").is_some());
    assert!(state.remove_pending_session("ask-test-1").is_none());
    assert_eq!(state.len(), 0);
}

#[test]
fn listing_is_sorted_by_request_timestamp() {
    let mut state = AskRuntimeState::new();
    let mut later = build_request(0, "2026-02-20T00:00:00Z", false);
    later.ask_id = "later".to_string();
    let mut earlier = build_request(0, "2026-02-18T00:00:00Z", false);
    earlier.ask_id = "earlier".to_string();
    let mut middle = build_request(0, "2026-02-19T00:00:00Z", false);
    middle.ask_id = "middle".to_string();
    state.insert_pending_session(later, 0u8, now_nanos()).unwrap();
    state.insert_pending_session(earlier, 0u8, now_nanos()).unwrap();
    state.insert_pending_session(middle, 0u8, now_nanos()).unwrap();
    let listing = state.list_pending_sessions(now_nanos());
    let ids: Vec<&str> = listing.sessions.iter().map(|s| s.ask_id.as_str()).collect();
    assert_eq!(ids, vec!["earlier", "middle", "later"]);
}

#[test]
fn answered_labels_come_from_options_not_from_caller() {
    let mut state = AskRuntimeState::new();
    let mut request = build_request(0, "2026-02-19T00:00:00Z", false);
    request.request = two_question_batch();
    state.insert_pending_session(request, 3u8, now_nanos()).unwrap();
    let outcome = state.submit_response(
        answered_payload(
            vec![option_answer("risk", 0), option_answer("scope_choice", 1)],
            None,
        ),
        now_nanos(),
    );
    assert_eq!(outcome.result, Ok(()));
    let delivery = outcome.delivery.expect("resolved");
    assert_eq!(delivery.sender, 3u8);
    let response = delivery.response;
    assert_eq!(response.ask_id, "ask-test-1");
    assert_eq!(response.status, AskResponseStatus::Answered);
    assert_eq!(response.source, "tauri-ui");
    assert!(response.answered_at_iso.is_some());
    assert_eq!(response.answers.len(), 2);
    assert_eq!(response.answers[0].id, "scope_choice");
    assert_eq!(response.answers[0].selected_label, "Expand");
    assert_eq!(response.answers[1].id, "risk");
    assert_eq!(response.answers[1].selected_label, "Low");
    assert_eq!(state.len(), 0);
}

#[test]
fn second_resolution_finds_nothing() {
    let mut state = AskRuntimeState::new();
    state
        .insert_pending_session(build_request(0, "2026-02-19T00:00:00Z", false), 0u8, now_nanos())
        .unwrap();
    let first = state.submit_response(
        SubmitAskResponsePayload {
            ask_id: "ask-test-1".to_string(),
            answers: Vec::new(),
            note: Some("   ".to_string()),
            status: SubmitAskResponseStatus::Cancelled,
        },
        now_nanos(),
    );
    assert_eq!(first.result, Ok(()));
    let response = first.delivery.expect("resolved").response;
    assert_eq!(response.status, AskResponseStatus::Cancelled);
    assert!(response.answers.is_empty());
    assert_eq!(response.note, None);
    let second = state.submit_response(answered_payload(vec![option_answer("scope_choice", 0)], None), now_nanos());
    assert_eq!(
        second.result,
        Err(SubmitError::NotFound { ask_id: "ask-test-1".to_string() })
    );
    assert!(second.delivery.is_none());
}

#[test]
fn required_note_missing_is_rejected_and_session_kept() {
    let mut state = AskRuntimeState::new();
    state
        .insert_pending_session(build_request(0, "2026-02-19T00:00:00Z", true), 0u8, now_nanos())
        .unwrap();
    let outcome = state.submit_response(
        answered_payload(vec![option_answer("scope_choice", 0)], Some("  \t ")),
        now_nanos(),
    );
    assert_eq!(outcome.result, Err(SubmitError::Invalid(AnswerError::NoteRequired)));
    assert_eq!(state.len(), 1);
}

#[test]
fn swept_session_is_resolved_expired_and_then_not_found() {
    let mut state = AskRuntimeState::new();
    let (sender, receiver) = mpsc::channel::<AskResponseBatch>();
    state
        .insert_pending_session(build_request(1, "2000-01-01T00:00:00Z", false), sender, now_nanos())
        .unwrap();
    let deliveries = state.sweep_expired_sessions(now_nanos());
    assert_eq!(deliveries.len(), 1);
    for delivery in deliveries {
        delivery.sender.send(delivery.response).unwrap();
    }
    let response = receiver.recv_timeout(Duration::from_millis(200)).unwrap();
    assert_eq!(response.status, AskResponseStatus::Expired);
    assert_eq!(response.ask_id, "ask-test-1");
    assert_eq!(response.answered_at_iso, None);
    let outcome = state.submit_response(answered_payload(Vec::new(), None), now_nanos());
    assert_eq!(
        outcome.result,
        Err(SubmitError::NotFound { ask_id: "ask-test-1".to_string() })
    );
}

#[test]
fn sweep_keeps_sessions_inside_retention_window() {
    let mut state = AskRuntimeState::new();
    let requested_at = parse_requested_at_iso("2026-02-19T00:00:00Z", 0);
    state
        .insert_pending_session(build_request(1000, "2026-02-19T00:00:00Z", false), 0u8, 0)
        .unwrap();
    let expiry = requested_at + 1_000_000_000;
    assert!(state.sweep_expired_sessions(expiry + 30_000_000_000).is_empty());
    assert_eq!(state.len(), 1);
    assert_eq!(state.sweep_expired_sessions(expiry + 30_000_000_001).len(), 1);
    assert_eq!(state.len(), 0);
}

#[test]
fn used_other_with_index_is_rejected() {
    let batch = two_question_batch();
    let mut bad = other_answer("scope_choice", Some("custom"));
    bad.selected_index = Some(0);
    let result = validate_and_normalize_answers(&batch, vec![bad, option_answer("risk", 1)]);
    assert_eq!(
        result.unwrap_err(),
        AnswerError::IndexWithOther { question_id: "scope_choice".to_string() }
    );
}

#[test]
fn other_text_without_used_other_is_rejected() {
    let batch = two_question_batch();
    let mut bad = option_answer("risk", 1);
    bad.other_text = Some("extra".to_string());
    let result = validate_and_normalize_answers(&batch, vec![option_answer("scope_choice", 0), bad]);
    assert_eq!(
        result.unwrap_err(),
        AnswerError::OtherTextWithoutOther { question_id: "risk".to_string() }
    );
}

#[test]
fn other_answer_is_trimmed_and_labelled_other() {
    let batch = two_question_batch();
    let result = validate_and_normalize_answers(
        &batch,
        vec![option_answer("risk", 1), other_answer("scope_choice", Some("  my way "))],
    )
    .expect("answers should validate");
    assert_eq!(result[0].selected_label, "Other");
    assert_eq!(result[0].other_text.as_deref(), Some("my way"));
    assert_eq!(result[0].selected_index, None);
    assert!(result[0].used_other);
    assert_eq!(result[1].selected_label, "High");
}

#[test]
fn blank_other_text_is_rejected() {
    let batch = two_question_batch();
    let result = validate_and_normalize_answers(
        &batch,
        vec![other_answer("scope_choice", Some("   ")), option_answer("risk", 1)],
    );
    assert_eq!(
        result.unwrap_err(),
        AnswerError::OtherTextRequired { question_id: "scope_choice".to_string() }
    );
}

#[test]
fn answer_validation_faults() {
    let batch = two_question_batch();
    assert_eq!(
        validate_and_normalize_answers(&batch, vec![option_answer("risk", 0)]).unwrap_err(),
        AnswerError::CountMismatch
    );
    assert_eq!(
        validate_and_normalize_answers(&batch, vec![option_answer("risk", 0), option_answer("risk", 1)])
            .unwrap_err(),
        AnswerError::DuplicateId
    );
    assert_eq!(
        validate_and_normalize_answers(&batch, vec![option_answer("risk", 0), option_answer("other", 1)])
            .unwrap_err(),
        AnswerError::Missing { question_id: "scope_choice".to_string() }
    );
    let mut no_index = option_answer("scope_choice", 0);
    no_index.selected_index = None;
    assert_eq!(
        validate_and_normalize_answers(&batch, vec![no_index, option_answer("risk", 0)]).unwrap_err(),
        AnswerError::IndexRequired { question_id: "scope_choice".to_string() }
    );
    assert_eq!(
        validate_and_normalize_answers(&batch, vec![option_answer("scope_choice", 2), option_answer("risk", 0)])
            .unwrap_err(),
        AnswerError::IndexOutOfRange { index: 2, question_id: "scope_choice".to_string() }
    );
}

#[test]
fn socket_request_checks() {
    assert_eq!(validate_socket_request(&build_request(0, "x", false)), Ok(()));
    let mut wrong_type = build_request(0, "x", false);
    wrong_type.request_type = "ask_response".to_string();
    assert_eq!(validate_socket_request(&wrong_type), Err(ProtocolError::UnsupportedType));
    let mut blank_id = build_request(0, "x", false);
    blank_id.ask_id = "  ".to_string();
    assert_eq!(validate_socket_request(&blank_id), Err(ProtocolError::BlankAskId));
    let mut no_questions = build_request(0, "x", false);
    no_questions.request.questions.clear();
    assert_eq!(validate_socket_request(&no_questions), Err(ProtocolError::NoQuestions));
    let mut blank_question = build_request(0, "x", false);
    blank_question.request.questions[0].id = " ".to_string();
    assert_eq!(validate_socket_request(&blank_question), Err(ProtocolError::BlankQuestionId));
    let mut repeated = build_request(0, "x", false);
    repeated.request = two_question_batch();
    repeated.request.questions[1].id = "scope_choice".to_string();
    assert_eq!(validate_socket_request(&repeated), Err(ProtocolError::DuplicateQuestionId));
}

#[test]
fn timeout_policy_values() {
    assert_eq!(session_timeout_duration(0), None);
    assert_eq!(session_timeout_duration(1), Some(1_000_000));
    assert_eq!(session_timeout_duration(u64::MAX), Some(i64::MAX as i128 * 1_000_000));
    assert_eq!(session_expiry_time(5, 0), None);
    assert_eq!(session_expiry_time(5, 2), Some(2_000_005));
    assert_eq!(session_expiry_time(i128::MAX, 1), None);
    assert!(!is_session_expired(0, 0, i128::MAX));
    assert!(!is_session_expired(0, 1, 999_999));
    assert!(is_session_expired(0, 1, 1_000_000));
    assert!(!is_past_retention(0, 1, 30_001_000_000));
    assert!(is_past_retention(0, 1, 30_001_000_001));
    assert!(!is_past_retention(0, 1, i128::MIN));
}

#[test]
fn timestamps_parse_and_format() {
    let parsed = parse_requested_at_iso("2026-02-19T00:00:00Z", 42);
    assert_eq!(parsed, 1_771_459_200_000_000_000);
    assert_eq!(parse_requested_at_iso("not a timestamp", 42), 42);
    assert_eq!(format_iso_utc(1_771_459_200_000_000_000), "2026-02-19T00:00:00Z");
    assert_eq!(format_iso_utc(0), "1970-01-01T00:00:00Z");
    assert_eq!(format_iso_utc(i128::MAX), "1970-01-01T00:00:00Z");
    assert_eq!(
        session_expiry_iso(1_771_459_200_000_000_000, 60_000).as_deref(),
        Some("2026-02-19T00:01:00Z")
    );
    assert_eq!(session_expiry_iso(0, 0), None);
}

#[test]
fn text_normalization() {
    assert_eq!(normalize_optional_text(Some("  a b  ".to_string())).as_deref(), Some("a b"));
    assert_eq!(normalize_optional_text(Some(" \n ".to_string())), None);
    assert_eq!(normalize_optional_text(None), None);
    assert!(is_blank("  "));
    assert!(is_blank(""));
    assert!(!is_blank(" x "));
}

#[test]
fn expired_response_shape() {
    let response = build_expired_response("abc");
    assert_eq!(response.ask_id, "abc");
    assert_eq!(response.status, AskResponseStatus::Expired);
    assert!(response.answers.is_empty());
    assert_eq!(response.note, None);
    assert_eq!(response.answered_at_iso, None);
    assert_eq!(response.source, "tauri-ui");
}
