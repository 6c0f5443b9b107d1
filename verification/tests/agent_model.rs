//! The search for an answer among the models.

use capability_router::agent::clean::{
    canonicalize, clean_json_response, clean_unfenced, extract_task_id,
};
use capability_router::agent::hint::TaskHint;
use capability_router::agent::model::{
    backoff_delay, inquire, judge_reply, list_names, model_headers, parse_model_priority,
    rate_limit_delay, ModelAction, ModelCall, ModelEvent, DEFAULT_MODEL_PRIORITY,
    MIN_COMPLETION_TOKENS, OPENAI_DIRECT_ENDPOINT,
};
use capability_router::agent::parts::FwaParts;
use capability_router::wire::json_from_bytes;
use capability_router::Json;

fn doc(text: &str) -> Json {
    json_from_bytes(text.as_bytes()).unwrap()
}

fn names(list: &[&str]) -> Vec<String> {
    list.iter().map(|s| s.to_string()).collect()
}

fn status(code: u16) -> ModelEvent {
    ModelEvent::Status { code, retry_after: None }
}

fn answer(text: &str) -> ModelEvent {
    ModelEvent::Body(Some(
        format!(r#"{{"choices": [{{"message": {{"content": "{text}"}}}}]}}"#).into_bytes(),
    ))
}

#[test]
fn pauses_double_and_are_stretched() {
    assert_eq!(backoff_delay(0), 1000);
    assert_eq!(backoff_delay(1), 1137);
    assert_eq!(backoff_delay(2), 2274);
    assert_eq!(backoff_delay(3), 4411);
    assert_eq!(backoff_delay(4), 8548);
    assert_eq!(backoff_delay(5), 16685);
    assert_eq!(backoff_delay(100), 16000 + 13700 % 3201);
    assert!(backoff_delay(u32::MAX) <= 19200);
}

#[test]
fn a_model_may_ask_for_a_pause() {
    let asked = |s: &str| rate_limit_delay(&Some(s.to_string()), 2);
    assert_eq!(asked("7"), 7000);
    assert_eq!(asked("30"), 30000);
    assert_eq!(asked("31"), 30000);
    assert_eq!(asked("18446744073709551615"), 30000);
    assert_eq!(asked("soon"), 2274);
    assert_eq!(asked("-1"), 2274);
    assert_eq!(rate_limit_delay(&None, 1), 1137);
}

#[test]
fn without_a_key_nothing_is_sent() {
    let (call, action) = ModelCall::start("", names(&["a"]), 1);
    assert!(matches!(action, ModelAction::GiveUp(why) if why == "OPENAI_API_KEY not set"));
    assert_eq!(call.model(), Some("a"));
}

#[test]
fn without_models_there_is_no_answer() {
    let (_, action) = ModelCall::start("k", vec![], 1);
    assert!(matches!(action, ModelAction::GiveUp(why)
        if why == "All models failed (empty, truncated, short, rate-limited, or HTTP error)"));
}

#[test]
fn a_failing_model_is_asked_three_times() {
    let (mut call, first) = ModelCall::start("k", names(&["a", "b"]), 1);
    assert!(matches!(first, ModelAction::Send));
    assert!(matches!(call.step(ModelEvent::Failed), ModelAction::WaitThenSend(1137)));
    assert!(matches!(call.step(status(503)), ModelAction::WaitThenSend(2274)));
    assert_eq!(call.model(), Some("a"));
    assert!(matches!(call.step(ModelEvent::Failed), ModelAction::Send));
    assert_eq!(call.model(), Some("b"));
    let limited = ModelEvent::Status { code: 429, retry_after: Some("3".to_string()) };
    assert!(matches!(call.step(limited), ModelAction::WaitThenSend(3000)));
    assert!(matches!(call.step(status(429)), ModelAction::WaitThenSend(2274)));
    assert!(matches!(call.step(status(429)), ModelAction::GiveUp(_)));
    assert_eq!(call.model(), None);
    assert!(matches!(call.step(answer("late")), ModelAction::GiveUp(_)));
}

#[test]
fn a_search_sends_three_requests_for_each_model_at_most() {
    let (mut call, _) = ModelCall::start("k", names(&["a", "b", "c"]), 1);
    let mut sends = 1;
    for _ in 0..50 {
        match call.step(ModelEvent::Failed) {
            ModelAction::Send | ModelAction::WaitThenSend(_) => sends += 1,
            _ => {}
        }
    }
    assert_eq!(sends, 9);
}

#[test]
fn a_refusal_turns_to_the_next_model_at_once() {
    for code in [302u16, 400, 401, 404, 600, 999] {
        let (mut call, _) = ModelCall::start("k", names(&["a", "b"]), 1);
        assert!(matches!(call.step(status(code)), ModelAction::Send), "{code}");
        assert_eq!(call.model(), Some("b"));
    }
}

#[test]
fn an_answer_ends_the_search() {
    let (mut call, _) = ModelCall::start("k", names(&["a", "b"]), 1);
    assert!(matches!(call.step(status(200)), ModelAction::ReadBody));
    match call.step(answer("  yes ")) {
        ModelAction::Finish { text, model } => {
            assert_eq!(text, "yes");
            assert_eq!(model, "a");
        }
        other => panic!("{other:?}"),
    }
}

#[test]
fn an_answer_that_is_no_use_turns_to_the_next_model() {
    for body in [None, Some(b"{".to_vec()), Some(b"{}".to_vec()), Some(b"[]".to_vec())] {
        let (mut call, _) = ModelCall::start("k", names(&["a", "b"]), 1);
        assert!(matches!(call.step(ModelEvent::Body(body)), ModelAction::Send));
        assert_eq!(call.model(), Some("b"));
    }
}

#[test]
fn answers_are_judged() {
    let reply = |content: &str, finish: &str, tokens: &str| {
        doc(&format!(
            r#"{{"choices": [{{"message": {{"content": {content}}}, "finish_reason": {finish}}}], "usage": {{"completion_tokens": {tokens}}}}}"#
        ))
    };
    let ok = Some("hi".to_string());
    assert_eq!(judge_reply(&reply("\" hi \"", "\"stop\"", "5"), 5), ok);
    assert_eq!(judge_reply(&reply("\" hi \"", "\"stop\"", "4"), 5), None);
    assert_eq!(judge_reply(&reply("\" hi \"", "\"stop\"", "0"), 5), ok);
    assert_eq!(judge_reply(&reply("\" hi \"", "\"stop\"", "1.5"), 5), ok);
    assert_eq!(judge_reply(&reply("\" hi \"", "\"length\"", "4"), 5), ok);
    assert_eq!(judge_reply(&reply("\" \\n\"", "\"length\"", "9"), 5), None);
    assert_eq!(judge_reply(&reply("7", "\"stop\"", "9"), 5), None);
    assert_eq!(judge_reply(&doc(r#"{"choices": []}"#), 0), None);
    assert_eq!(judge_reply(&Json::Null, 0), None);
}

#[test]
fn answers_are_cleaned() {
    assert_eq!(clean_json_response("```json\n{\"b\": 1, \"a\": 2}\n```\n"), r#"{"a":2,"b":1}"#);
    assert_eq!(clean_json_response("```\n[1, 2]\n```"), "[1,2]");
    assert_eq!(clean_json_response("```JSON\nplain words\n```"), "plain words");
    assert_eq!(clean_json_response("  hello  "), "hello");
    assert_eq!(clean_json_response("{not json}"), "{not json}");
    assert_eq!(clean_json_response("[1, 2"), "[1, 2");
    assert_eq!(clean_json_response("see ```x```"), "see ```x```");
    assert_eq!(clean_json_response(" [ 1.50 ] "), "[1.5]");
    assert_eq!(clean_unfenced("ignored", Some(" {\"a\": 1} ".to_string())), r#"{"a":1}"#);
    assert_eq!(clean_unfenced(" kept ", None), "kept");
    assert_eq!(canonicalize(" \"quoted\" "), " \"quoted\" ");
}

#[test]
fn the_task_is_named_under_its_heading() {
    assert_eq!(extract_task_id("# Task ID\nabc-1\nrest"), Some("abc-1".to_string()));
    assert_eq!(
        extract_task_id("# Task ID\na b\n# Task ID\n\u{e9}-2\n# Task ID\nc\n"),
        Some("\u{e9}-2".to_string())
    );
    assert_eq!(extract_task_id("# Task ID\nfwa-17"), None);
    assert_eq!(extract_task_id("#Task ID\nx\n"), None);
    assert_eq!(extract_task_id("# Task ID\n\nx\n"), None);
    assert_eq!(extract_task_id("Task ID\nabc\n"), None);
}

#[test]
fn models_are_listed_between_commas() {
    assert_eq!(list_names(" a, b ,,c,"), names(&["a", "b", "c"]));
    assert_eq!(list_names(""), Vec::<String>::new());
    let default = names(&["gpt-5.4-2026-03-05", "gpt-5.4", "gpt-5.5"]);
    assert_eq!(parse_model_priority(None), default);
    assert_eq!(parse_model_priority(Some(" , ")), default);
    assert_eq!(parse_model_priority(Some(DEFAULT_MODEL_PRIORITY)), default);
    assert_eq!(parse_model_priority(Some("x")), names(&["x"]));
    assert_eq!(MIN_COMPLETION_TOKENS, 1);
}

#[test]
fn a_request_tells_and_shows() {
    let parts = FwaParts {
        question: "How many?".to_string(),
        images: vec![],
        pdf_texts: vec![],
        bbox_texts: vec![],
        text_files: vec![],
        video_frames: vec![],
    };
    let inquiry = inquire(&parts);
    assert_eq!(inquiry.hint, TaskHint::Numerical);
    let request = json_from_bytes(&inquiry.request_body("m-1")).unwrap();
    assert_eq!(request.str_field("model"), Some("m-1"));
    assert_eq!(request.str_field("reasoning_effort"), Some("high"));
    assert_eq!(request.get("max_completion_tokens").unwrap().as_u64(), Some(4096));
    let messages = request.array_field("messages").unwrap();
    assert_eq!(messages.len(), 2);
    assert_eq!(messages[0].str_field("role"), Some("system"));
    assert!(messages[0].str_field("content").unwrap().starts_with("You are a vision-language analyst"));
    assert_eq!(messages[1].str_field("role"), Some("user"));
    let shown = messages[1].array_field("content").unwrap();
    assert_eq!(shown[0].str_field("text"), Some("How many?"));
    assert_eq!(
        model_headers("k").list,
        vec![
            ("Authorization".to_string(), "Bearer k".to_string()),
            ("Content-Type".to_string(), "application/json".to_string()),
        ]
    );
    assert_eq!(OPENAI_DIRECT_ENDPOINT, "https://api.openai.com/v1/chat/completions");
}
