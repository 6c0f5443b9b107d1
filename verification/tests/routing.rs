//! Routing, from bytes to a decision.

use capability_router::card::{agent_card, capability_description, health, skill};
use capability_router::probe::{CapabilityProbe, ResponseShape, Upstream};
use capability_router::probes::fwa::FwaProbe;
use capability_router::registry::{build_probes, Probe, UpstreamUrls};
use capability_router::routing::{
    decide, handle_task, rank, route, scoring_summary, show_score, AppState, Decision,
    RouteOutcome, Scored,
};
use capability_router::skeleton::payload_skeleton;
use capability_router::wire::{json_from_bytes, json_to_text};
use capability_router::Json;

fn no_urls() -> UpstreamUrls {
    UpstreamUrls {
        vuln_repro: None,
        policy_tooluse: None,
        text_codegen: None,
        vision_qa: None,
        gui_agent: None,
    }
}

fn state() -> AppState<Probe> {
    AppState { probes: build_probes(no_urls()), agent_url: "http://router".to_string() }
}

fn doc(text: &str) -> Json {
    json_from_bytes(text.as_bytes()).unwrap()
}

fn request(parts: &str) -> String {
    format!("{{\"params\": {{\"message\": {{\"parts\": {parts}}}}}}}")
}

fn reply_of(outcome: RouteOutcome) -> (u16, String) {
    match outcome {
        RouteOutcome::Reply(reply) => (reply.status, String::from_utf8(reply.body).unwrap()),
        RouteOutcome::Forward(sent) => panic!("forwarded to {}", sent.url),
    }
}

#[test]
fn a_question_about_an_image_goes_out_byte_for_byte() {
    let body = format!(
        "  {} \n",
        request(
            r#"[{"kind": "text", "text": "q"}, {"kind": "file", "file": {"mimeType": "image/png"}}]"#
        )
    );
    match handle_task(&state(), body.clone().into_bytes()) {
        RouteOutcome::Forward(sent) => {
            assert_eq!(sent.url, "http://fwa-agentx:8090");
            assert_eq!(sent.body, body.into_bytes());
            assert_eq!(sent.probe_name, "vision-qa");
            assert_eq!(sent.response_shape, ResponseShape::Json);
            assert_eq!(sent.timeout_secs, 900);
            assert_eq!(
                sent.headers.list,
                vec![("content-type".to_string(), "application/json".to_string())]
            );
        }
        RouteOutcome::Reply(reply) => panic!("replied {}", reply.status),
    }
}

#[test]
fn each_capability_has_its_specialist() {
    let urls = UpstreamUrls { policy_tooluse: Some("http://pi".to_string()), ..no_urls() };
    let probes = build_probes(urls);
    let told: Vec<(&str, String, ResponseShape)> = probes
        .iter()
        .map(|p| (p.name(), p.upstream().url.clone(), p.upstream().response_shape))
        .collect();
    assert_eq!(
        told,
        vec![
            ("vuln-repro", "http://cybergym-agentx:9019".to_string(), ResponseShape::Sse),
            ("policy-tooluse", "http://pi".to_string(), ResponseShape::Json),
            ("text-codegen", "http://netarena-agentx:9019".to_string(), ResponseShape::Json),
            ("vision-qa", "http://fwa-agentx:8090".to_string(), ResponseShape::Json),
            ("gui-agent", "http://osworld-agentx:8080".to_string(), ResponseShape::Json),
        ]
    );
    for (parts, best, score) in [
        (r#"[{"kind": "data", "data": {"exit_code": 0}}]"#, 0usize, 95u32),
        (r#"[{"kind": "data", "data": {"bootstrap": true}}]"#, 1, 70),
        (r#"[{"kind": "text", "text": "q"}]"#, 2, 45),
        (r#"[{"kind": "file", "file": {"name": "a.jpg"}}]"#, 3, 60),
        (r#"[{"kind": "data", "data": {"action_space": 1, "observation": 1}}]"#, 4, 90),
    ] {
        assert_eq!(
            decide(&probes, &doc(&request(parts))),
            Decision::Route(Scored { score, probe: best })
        );
    }
}

#[test]
fn of_equal_scores_the_earlier_probe_wins() {
    let up = |url: &str| Upstream { url: url.to_string(), response_shape: ResponseShape::Json };
    let probes = vec![FwaProbe::new(up("http://one")), FwaProbe::new(up("http://two"))];
    let req = doc(&request(r#"[{"kind": "file", "file": {"name": "a.jpg"}}]"#));
    assert_eq!(decide(&probes, &req), Decision::Route(Scored { score: 60, probe: 0 }));
    match route(&probes, &req, b"x".to_vec()) {
        RouteOutcome::Forward(sent) => assert_eq!(sent.url, "http://one"),
        RouteOutcome::Reply(reply) => panic!("replied {}", reply.status),
    }
}

#[test]
fn tools_and_context_are_not_enough_without_a_session() {
    let req = doc(&request(
        r#"[{"data": {"tools": [{"function": {"name": 1, "parameters": 2}}], "benchmark_context": [1]}}]"#,
    ));
    assert_eq!(decide(&state().probes, &req), Decision::Unsure(34));
    let session = doc(&request(
        r#"[{"data": {"context_id": "c", "messages": [1]}}]"#,
    ));
    assert_eq!(decide(&state().probes, &session), Decision::Route(Scored { score: 65, probe: 1 }));
}

#[test]
fn an_unclear_request_is_refused() {
    let body = request(r#"[{"data": {"tools": [{"function": {"name": 1, "parameters": 2}}]}}]"#);
    let (status, text) = reply_of(handle_task(&state(), body.into_bytes()));
    assert_eq!(status, 422);
    assert_eq!(
        text,
        r#"{"error":{"code":-32603,"message":"Request did not match any capability shape with sufficient confidence (top=0.25 < 0.35). The router refuses to guess to avoid polluting leaderboards with misrouted submissions."},"id":null,"jsonrpc":"2.0"}"#
    );
    assert_eq!(decide(&state().probes, &doc("{}")), Decision::Unsure(0));
}

#[test]
fn a_body_that_is_no_json_is_refused() {
    let (status, text) = reply_of(handle_task(&state(), b"{".to_vec()));
    assert_eq!(status, 400);
    assert!(text.contains("Body is not valid JSON: EOF while parsing"), "{text}");
    assert!(text.contains("-32603"));
}

#[test]
fn without_probes_nothing_is_routed() {
    let probes: Vec<Probe> = Vec::new();
    let req = doc("{}");
    assert_eq!(decide(&probes, &req), Decision::NoProbes);
    let (status, text) = reply_of(route(&probes, &req, Vec::new()));
    assert_eq!(status, 500);
    assert!(text.contains("No probes registered"));
}

#[test]
fn the_ranking_is_told_best_first() {
    let probes = build_probes(no_urls());
    let req = doc(&request(
        r#"[{"kind": "data", "data": {"exit_code": 1}}, {"kind": "file", "file": {"name": "a.png"}}]"#,
    ));
    let ranking = rank(&probes, &req);
    assert_eq!(
        scoring_summary(&probes, &ranking),
        "vuln-repro=0.95 vision-qa=0.60 policy-tooluse=0.00 text-codegen=0.00 gui-agent=0.00"
    );
    assert_eq!(show_score(100), "1.00");
    assert_eq!(show_score(7), "0.07");
}

#[test]
fn the_card_lists_a_skill_for_each_probe() {
    let probes = build_probes(no_urls());
    let card = agent_card(&probes, "http://me", "1.2.3");
    let text = json_to_text(&card);
    assert!(text.starts_with(
        r#"{"capabilities":{"pushNotifications":false,"streaming":true},"defaultInputModes":["text","file","application/json"],"defaultOutputModes":["text","file","application/json"],"description":"Universal purple agent"#
    ));
    assert!(text.contains(
        r#""name":"for-the-cloud-purple-router","preferredTransport":"JSONRPC","protocolVersion":"0.3.0","skills":[{"description":"Vulnerability reproduction"#
    ));
    assert!(text.ends_with(r#""url":"http://me","version":"1.2.3"}"#));
    assert_eq!(card.array_field("skills").unwrap().len(), 5);
    assert_eq!(
        json_to_text(&skill("vision-qa")),
        r#"{"description":"Question answering grounded in visual document inputs (images, scans).","id":"vision-qa","name":"vision-qa","tags":["agentx","purple","vision-qa"]}"#
    );
}

#[test]
fn capabilities_are_described() {
    assert!(capability_description("policy-tooluse").starts_with("Policy-constrained tool use"));
    assert!(capability_description("text-codegen").starts_with("Code generation against"));
    assert!(capability_description("gui-agent").starts_with("GUI agent"));
    assert_eq!(capability_description("something else"), "Capability handler.");
    assert_eq!(
        json_to_text(&health("0.1.0")),
        r#"{"service":"universal-router","status":"ok","version":"0.1.0"}"#
    );
}

#[test]
fn the_skeleton_shows_structure_alone() {
    let req = doc(
        r#"{"params": {"history": [], "contextId": "outer", "message": {"parts": [
            {"root": {"kind": "text", "text": "secret"}}, {"text": "x"}, {"kind": "file"}]}}}"#,
    );
    let s = payload_skeleton(&req).unwrap();
    assert_eq!(s.part_kinds, vec!["text", "?", "file"]);
    assert!(s.has_history);
    assert_eq!(s.context_id, "outer");
    assert_eq!(s.param_names, vec!["contextId", "history", "message"]);

    let bare = payload_skeleton(&doc(r#"{"params": {"message": {"contextId": 3}}}"#)).unwrap();
    assert_eq!(bare.part_kinds, Vec::<String>::new());
    assert!(!bare.has_history);
    assert_eq!(bare.context_id, "<none>");
    assert!(payload_skeleton(&doc("{}")).is_none());
    assert!(payload_skeleton(&doc(r#"{"params": {}}"#)).is_none());
}
