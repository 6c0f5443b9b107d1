//! Tasks of the agent, from envelope to answer.

use capability_router::agent::task::{
    agent_card, answer_reply, assign_ids, closing_events, event_stream_headers, health, ids_of,
    json_rpc_error, opening_events, read_task, report, AppState, TaskIds, TaskRequest, TaskStep,
    DEFAULT_PORT,
};
use capability_router::wire::{json_from_bytes, json_to_text};
use capability_router::Json;

fn ids() -> TaskIds {
    TaskIds {
        task_id: "t".to_string(),
        context_id: "c".to_string(),
        artifact_id: "a".to_string(),
    }
}

fn run(body: &str) -> TaskRequest {
    match read_task(body.as_bytes()) {
        TaskStep::Run(request) => request,
        TaskStep::Reply(reply) => panic!("{}", String::from_utf8(reply.body).unwrap()),
    }
}

fn refused(body: &str) -> String {
    match read_task(body.as_bytes()) {
        TaskStep::Run(request) => panic!("{request:?}"),
        TaskStep::Reply(reply) => {
            assert_eq!(reply.status, 200);
            String::from_utf8(reply.body).unwrap()
        }
    }
}

#[test]
fn a_body_that_spells_nothing_is_refused() {
    let text = refused("{");
    assert!(text.starts_with(
        r#"{"error":{"code":-32700,"message":"Parse error: EOF while parsing"#
    ));
    assert!(text.ends_with(r#""id":null,"jsonrpc":"2.0"}"#));
}

#[test]
fn an_envelope_without_a_message_is_refused() {
    assert_eq!(
        refused(r#"{"id": "r1", "params": {}}"#),
        r#"{"error":{"code":-32602,"message":"Missing params.message"},"id":"r1","jsonrpc":"2.0"}"#
    );
    assert!(refused("[]").contains(r#""id":null"#));
}

#[test]
fn a_task_is_read() {
    let r = run(
        r#"{"id": 7, "method": "message/stream", "params": {"message": {"contextId": "k", "x": 1}}}"#,
    );
    assert_eq!(json_to_text(&r.rpc_id), "7");
    assert!(r.stream);
    assert_eq!(r.context_id, Some("k".to_string()));
    assert_eq!(json_to_text(&r.message), r#"{"contextId":"k","x":1}"#);

    let r = run(r#"{"method": "message/send", "params": {"message": {"contextId": ""}}}"#);
    assert_eq!(json_to_text(&r.rpc_id), "null");
    assert!(!r.stream);
    assert_eq!(r.context_id, None);
    assert!(!run(r#"{"params": {"message": null}}"#).stream);
}

fn is_random_id(id: &str) -> bool {
    let b = id.as_bytes();
    b.len() == 36
        && b.iter().enumerate().all(|(i, c)| match i {
            8 | 13 | 18 | 23 => *c == b'-',
            14 => *c == b'4',
            19 => b"89ab".contains(c),
            _ => b"0123456789abcdef".contains(c),
        })
}

#[test]
fn identifiers_are_new_but_for_the_conversation() {
    let named = assign_ids(&run(r#"{"params": {"message": {"contextId": "k"}}}"#));
    assert_eq!(named.context_id, "k");
    assert!(is_random_id(&named.task_id) && is_random_id(&named.artifact_id));
    let other = assign_ids(&run(r#"{"params": {"message": {}}}"#));
    assert!(is_random_id(&other.context_id));
    assert_ne!(other.task_id, named.task_id);
    assert_ne!(other.task_id, other.artifact_id);
}

#[test]
fn each_identifier_goes_where_it_belongs() {
    let given = |body: &str| {
        let r = ids_of(&run(body), "t".to_string(), "c".to_string(), "a".to_string());
        (r.task_id, r.context_id, r.artifact_id)
    };
    let all = |t: &str, c: &str, a: &str| (t.to_string(), c.to_string(), a.to_string());
    assert_eq!(given(r#"{"params": {"message": {"contextId": "k"}}}"#), all("t", "k", "a"));
    assert_eq!(given(r#"{"params": {"message": {}}}"#), all("t", "c", "a"));
}

#[test]
fn an_error_takes_the_place_of_an_answer() {
    assert_eq!(
        report(Ok(("yes".to_string(), "m".to_string()))),
        ("yes".to_string(), "m".to_string())
    );
    assert_eq!(
        report(Err("no key".to_string())),
        ("ERROR: no key".to_string(), "error".to_string())
    );
}

#[test]
fn a_task_is_answered_at_once() {
    let reply = answer_reply(&Json::Str("r".to_string()), &ids(), "42 \"meters\"");
    assert_eq!(reply.status, 200);
    assert_eq!(
        reply.headers.list,
        vec![("content-type".to_string(), "application/json".to_string())]
    );
    assert_eq!(
        String::from_utf8(reply.body.clone()).unwrap(),
        r#"{"id":"r","jsonrpc":"2.0","result":{"artifacts":[{"artifactId":"a","name":"answer","parts":[{"kind":"text","text":"42 \"meters\""}]}],"contextId":"c","history":[],"id":"t","kind":"task","status":{"state":"completed"}}}"#
    );
    let back = json_from_bytes(&reply.body).unwrap();
    assert_eq!(back.nested("result", "id").unwrap().as_str(), Some("t"));
}

#[test]
fn a_stream_tells_of_one_task() {
    let rpc_id = Json::Null;
    let (submitted, working) = opening_events(&rpc_id, &ids());
    let (artifact, completed) = closing_events(&rpc_id, &ids(), "done");
    let text = |b: Vec<u8>| String::from_utf8(b).unwrap();
    assert_eq!(
        text(submitted),
        "data: {\"id\":null,\"jsonrpc\":\"2.0\",\"result\":{\"contextId\":\"c\",\"id\":\"t\",\"kind\":\"task\",\"status\":{\"state\":\"submitted\"}}}\n\n"
    );
    assert_eq!(
        text(working),
        "data: {\"id\":null,\"jsonrpc\":\"2.0\",\"result\":{\"contextId\":\"c\",\"kind\":\"status-update\",\"status\":{\"state\":\"working\"},\"taskId\":\"t\"}}\n\n"
    );
    assert_eq!(
        text(artifact),
        "data: {\"id\":null,\"jsonrpc\":\"2.0\",\"result\":{\"append\":false,\"artifact\":{\"artifactId\":\"a\",\"name\":\"answer\",\"parts\":[{\"kind\":\"text\",\"text\":\"done\"}]},\"contextId\":\"c\",\"kind\":\"artifact-update\",\"lastChunk\":true,\"taskId\":\"t\"}}\n\n"
    );
    assert_eq!(
        text(completed),
        "data: {\"id\":null,\"jsonrpc\":\"2.0\",\"result\":{\"contextId\":\"c\",\"final\":true,\"kind\":\"status-update\",\"status\":{\"state\":\"completed\"},\"taskId\":\"t\"}}\n\n"
    );
    let names: Vec<String> = event_stream_headers().list.into_iter().map(|h| h.0).collect();
    assert_eq!(
        names,
        vec![
            "content-type",
            "cache-control",
            "x-accel-buffering",
            "transfer-encoding",
            "connection"
        ]
    );
}

#[test]
fn errors_keep_the_identifier() {
    let reply = json_rpc_error(&json_from_bytes(b"[1]").unwrap(), -1, "m");
    assert_eq!(
        String::from_utf8(reply.body).unwrap(),
        r#"{"error":{"code":-1,"message":"m"},"id":[1],"jsonrpc":"2.0"}"#
    );
}

#[test]
fn the_agent_tells_about_itself() {
    assert_eq!(
        String::from_utf8(health().body).unwrap(),
        r#"{"service":"fwa-agentx","status":"ready","version":"1.0.0"}"#
    );
    let state = AppState {
        openai_api_key: String::new(),
        model_priority: vec![],
        min_completion_tokens: 1,
        agent_card_url: format!("http://0.0.0.0:{DEFAULT_PORT}/"),
    };
    let card = json_from_bytes(&agent_card(&state.agent_card_url).body).unwrap();
    assert_eq!(card.str_field("url"), Some("http://0.0.0.0:8090/"));
    assert_eq!(card.str_field("name"), Some("fba_purple_agent"));
    assert_eq!(card.array_field("defaultInputModes").unwrap().len(), 6);
    assert_eq!(
        json_to_text(card.get("skills").unwrap()),
        r#"[{"description":"Vision agent for field work safety analysis.","examples":["Check PPE compliance status from factory images.","Count safety violations in warehouse video.","Analyze factory incident from camera footage."],"id":"fba_field_work_agent","name":"fba_purple_agent","tags":["field_work","vision","safety","factory","warehouse"]}]"#
    );
}

#[test]
fn a_stream_reads_as_four_events() {
    let answer = "one\n\ntwo\r\ndata: three";
    let (a, b) = opening_events(&Json::Null, &ids());
    let (c, d) = closing_events(&Json::Null, &ids(), answer);
    let stream = String::from_utf8([a, b, c, d].concat()).unwrap();
    let events: Vec<&str> = stream.split_terminator("\n\n").collect();
    assert_eq!(events.len(), 4);
    let documents: Vec<Json> = events
        .iter()
        .map(|e| json_from_bytes(e.strip_prefix("data: ").unwrap().as_bytes()).unwrap())
        .collect();
    let artifact = documents[2].nested("result", "artifact").unwrap();
    assert_eq!(artifact.array_field("parts").unwrap()[0].str_field("text"), Some(answer));
    assert!(documents[3].nested("result", "final").is_some());
}
