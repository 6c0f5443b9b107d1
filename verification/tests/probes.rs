//! The probes, on requests that are and are not theirs.

use capability_router::probe::{CapabilityProbe, ResponseShape, Upstream};
use capability_router::probes::cybergym::CyberGymProbe;
use capability_router::probes::fwa::FwaProbe;
use capability_router::probes::netarena::NetArenaProbe;
use capability_router::probes::osworld::OsworldProbe;
use capability_router::probes::pibench::PiBenchProbe;
use capability_router::wire::json_from_bytes;
use capability_router::Json;

fn up() -> Upstream {
    Upstream { url: "http://test".into(), response_shape: ResponseShape::Json }
}

fn doc(text: &str) -> Json {
    json_from_bytes(text.as_bytes()).unwrap()
}

fn build(parts: &str) -> Json {
    doc(&format!("{{\"params\": {{\"message\": {{\"parts\": {parts}}}}}}}"))
}

fn fraction(hundredths: u32) -> f32 {
    hundredths as f32 / 100.0
}

fn scores(parts: &str) -> [u32; 5] {
    let req = build(parts);
    [
        CyberGymProbe::new(up()).score(&req),
        PiBenchProbe::new(up()).score(&req),
        NetArenaProbe::new(up()).score(&req),
        FwaProbe::new(up()).score(&req),
        OsworldProbe::new(up()).score(&req),
    ]
}

#[test]
fn fwa_image_plus_text_still_scores_high() {
    let probe = FwaProbe::new(up());
    let req = build(
        r#"[
        {"kind": "text", "text": "How many workers?"},
        {"kind": "file", "file": {"name": "scene.jpg", "mimeType": "image/jpeg"}}
    ]"#,
    );
    let s = fraction(probe.score(&req));
    assert!(s > 0.85, "image+text should score ≥0.85, got {s}");
}

#[test]
fn fwa_pdf_plus_text_now_scores_above_threshold() {
    let probe = FwaProbe::new(up());
    let req = build(
        r#"[
        {"kind": "text", "text": "List the items in this checklist."},
        {"kind": "file", "file": {"name": "manual.pdf", "mimeType": "application/pdf"}}
    ]"#,
    );
    let s = fraction(probe.score(&req));
    assert!(s >= 0.7, "pdf+text must clear 0.35 threshold with margin, got {s}");
}

#[test]
fn fwa_txt_plus_text_now_scores_above_threshold() {
    let probe = FwaProbe::new(up());
    let req = build(
        r#"[
        {"kind": "text", "text": "What are the business hours?"},
        {"kind": "file", "file": {"name": "Store_Manual_A.txt", "mimeType": "text/plain"}}
    ]"#,
    );
    let s = fraction(probe.score(&req));
    assert!(s >= 0.7, "txt+text must clear 0.35 threshold with margin, got {s}");
}

#[test]
fn fwa_yields_archive_to_vuln_repro() {
    let probe = FwaProbe::new(up());
    let req = build(
        r#"[
        {"kind": "text", "text": "Analyze this."},
        {"kind": "file", "file": {"name": "src.tar.gz", "mimeType": "application/gzip"}}
    ]"#,
    );
    assert_eq!(fraction(probe.score(&req)), 0.0);
}

#[test]
fn fwa_yields_gui_to_osworld() {
    let probe = FwaProbe::new(up());
    let req = build(
        r#"[
        {"kind": "text", "text": "Open the file manager."},
        {"kind": "data", "data": {"env_config": {"action_space": "pyautogui"}}},
        {"kind": "file", "file": {"name": "screen.png", "mimeType": "image/png"}}
    ]"#,
    );
    assert_eq!(fraction(probe.score(&req)), 0.0);
}

#[test]
fn fwa_text_only_does_not_claim_text_codegen() {
    let probe = FwaProbe::new(up());
    let req = build(
        r#"[
        {"kind": "text", "text": "Write a function to process this graph."}
    ]"#,
    );
    assert_eq!(fraction(probe.score(&req)), 0.0);
}

fn osworld_payload() -> Json {
    doc(
        r#"{
        "params": { "message": {
            "kind": "message", "role": "user", "messageId": "abc",
            "contextId": "ctx-1",
            "parts": [
                { "kind": "text", "text": "Open the file manager and create a folder named Reports." },
                { "kind": "data", "data": { "env_config": {
                    "action_space": "pyautogui",
                    "observation_type": "screenshot"
                }}},
                { "kind": "file", "file": { "bytes": "iVBORw0KGgo=", "mimeType": "image/png" }}
            ]
        }}
    }"#,
    )
}

fn fwa_payload() -> Json {
    doc(
        r#"{
        "params": { "message": {
            "kind": "message", "role": "user", "messageId": "x",
            "parts": [
                { "kind": "text", "text": "How many workers are wearing helmets?" },
                { "kind": "file", "file": { "bytes": "iVBORw0KGgo=", "mimeType": "image/jpeg" }}
            ]
        }}
    }"#,
    )
}

#[test]
fn osworld_routes_to_gui_agent() {
    let osw = OsworldProbe::new(up());
    let fwa = FwaProbe::new(up());
    let p = osworld_payload();
    let osw_score = fraction(osw.score(&p));
    let fwa_score = fraction(fwa.score(&p));
    println!("OSWorld payload -> gui-agent={osw_score:.2} vision-qa={fwa_score:.2}");
    assert!(osw_score > 0.9, "gui-agent must score high, got {osw_score}");
    assert_eq!(fwa_score, 0.0, "vision-qa must yield, got {fwa_score}");
    assert!(osw_score > fwa_score);
}

#[test]
fn fwa_still_routes_to_vision_qa() {
    let osw = OsworldProbe::new(up());
    let fwa = FwaProbe::new(up());
    let p = fwa_payload();
    let osw_score = fraction(osw.score(&p));
    let fwa_score = fraction(fwa.score(&p));
    println!("FWA payload -> gui-agent={osw_score:.2} vision-qa={fwa_score:.2}");
    assert_eq!(osw_score, 0.0, "gui-agent must not claim vision-QA");
    assert!(fwa_score > 0.8, "vision-qa must still win, got {fwa_score}");
}

#[test]
fn probes_tell_their_names_and_endpoints() {
    assert_eq!(CyberGymProbe::new(up()).name(), "vuln-repro");
    assert_eq!(PiBenchProbe::new(up()).name(), "policy-tooluse");
    assert_eq!(NetArenaProbe::new(up()).name(), "text-codegen");
    assert_eq!(FwaProbe::new(up()).name(), "vision-qa");
    assert_eq!(OsworldProbe::new(up()).name(), "gui-agent");
    assert_eq!(OsworldProbe::new(up()).upstream().url, "http://test");
    assert_eq!(OsworldProbe::new(up()).upstream().response_shape, ResponseShape::Json);
}

#[test]
fn requests_without_parts_fit_nothing() {
    for text in [
        "{}",
        "null",
        "[]",
        r#"{"params": {}}"#,
        r#"{"params": {"message": {"parts": "none"}}}"#,
        r#"{"params": {"message": {"parts": []}}}"#,
    ] {
        let req = doc(text);
        assert_eq!(CyberGymProbe::new(up()).score(&req), 0);
        assert_eq!(PiBenchProbe::new(up()).score(&req), 0);
        assert_eq!(NetArenaProbe::new(up()).score(&req), 0);
        assert_eq!(FwaProbe::new(up()).score(&req), 0);
        assert_eq!(OsworldProbe::new(up()).score(&req), 0);
    }
}

#[test]
fn vuln_repro_scores_its_signals() {
    assert_eq!(scores(r#"[{"kind": "file", "file": {"name": "SRC.TGZ"}}]"#)[0], 85);
    assert_eq!(scores(r#"[{"kind": "file", "file": {"name": "src.tar"}}]"#)[0], 85);
    assert_eq!(scores(r#"[{"kind": "file", "file": {"name": "fix.patch"}}]"#)[0], 75);
    assert_eq!(scores(r#"[{"kind": "file", "file": {"name": "fix.diff"}}]"#)[0], 75);
    assert_eq!(scores(r#"[{"kind": "data", "data": {"exit_code": null}}]"#)[0], 95);
    assert_eq!(
        scores(
            r#"[{"kind": "file", "file": {"name": "fix.diff"}},
                {"kind": "file", "file": {"name": "src.tar.gz"}},
                {"kind": "data", "data": {"exit_code": 1}}]"#
        )[0],
        95
    );
    assert_eq!(scores(r#"[{"type": "file", "file": {"name": "src.tar.gz"}}]"#)[0], 0);
    assert_eq!(scores(r#"[{"kind": "file", "file": {"name": "src.zip"}}]"#)[0], 0);
}

#[test]
fn policy_tooluse_adds_up_its_signals() {
    let tools = r#""tools": [{"type": "x"}, {"function": {"name": "f", "parameters": {}}}]"#;
    let context = r#""benchmark_context": [1]"#;
    let part = |members: &str| format!("[{{\"data\": {{{members}}}}}]");
    assert_eq!(scores(&part(r#""bootstrap": true"#))[1], 70);
    assert_eq!(scores(&part(r#""bootstrap": "true""#))[1], 0);
    assert_eq!(scores(&part(r#""context_id": "c", "messages": [1]"#))[1], 65);
    assert_eq!(scores(&part(r#""context_id": "", "messages": [1]"#))[1], 0);
    assert_eq!(scores(&part(r#""context_id": "c", "messages": []"#))[1], 0);
    assert_eq!(scores(&part(tools))[1], 25);
    assert_eq!(scores(&part(context))[1], 10);
    assert_eq!(scores(&part(&format!("{tools}, {context}")))[1], 34);
    assert_eq!(scores(&part(&format!(r#""bootstrap": true, {tools}"#)))[1], 95);
    assert_eq!(
        scores(&part(&format!(r#""context_id": "c", "messages": [1], {tools}, {context}"#)))[1],
        100
    );
    assert_eq!(scores(&part(&format!(r#""bootstrap": true, {tools}, {context}"#)))[1], 100);
    assert_eq!(
        scores(r#"[{"kind": "text", "text": "hi"}, {"data": {"bootstrap": true}}]"#)[1],
        0
    );
}

#[test]
fn text_codegen_takes_what_nobody_claims() {
    assert_eq!(scores(r#"[{"kind": "text", "text": "hi"}]"#), [0, 0, 45, 0, 0]);
    assert_eq!(scores(r#"[{"type": "text", "text": "hi"}]"#)[2], 45);
    assert_eq!(scores(r#"[{"kind": "text", "text": ""}]"#)[2], 0);
    assert_eq!(scores(r#"[{"kind": "data", "data": {"query": "hi"}}]"#)[2], 45);
    assert_eq!(scores(r#"[{"kind": 1, "type": "text", "text": "hi"}]"#)[2], 0);
    assert_eq!(
        scores(r#"[{"kind": "text", "text": "hi"}, {"kind": "file"}]"#)[2],
        0
    );
    for key in ["bootstrap", "messages", "tools", "exit_code", "context_id"] {
        let parts = format!(
            r#"[{{"kind": "text", "text": "hi"}}, {{"kind": "data", "data": {{"{key}": 0}}}}]"#
        );
        assert_eq!(scores(&parts)[2], 0, "{key}");
    }
}

#[test]
fn vision_qa_weighs_files_and_questions() {
    assert_eq!(scores(r#"[{"kind": "file", "file": {"name": "a.webp"}}]"#)[3], 60);
    assert_eq!(scores(r#"[{"kind": "file", "file": {"name": "notes.md"}}]"#)[3], 40);
    assert_eq!(scores(r#"[{"kind": "file", "file": {"name": "Bounding_Box"}}]"#)[3], 40);
    assert_eq!(scores(r#"[{"kind": "file", "file": {"mimeType": "TEXT/CSV"}}]"#)[3], 40);
    assert_eq!(
        scores(r#"[{"kind": "file", "file": {"name": "a.csv"}}, {"kind": "text", "text": "q"}]"#)[3],
        75
    );
    assert_eq!(
        scores(
            r#"[{"kind": "file", "file": {"name": "a.png"}},
                {"kind": "file", "file": {"name": "fix.patch"}},
                {"kind": "text", "text": "q"}]"#
        )[3],
        0
    );
    for gui in [
        r#"{"action_space": 1}"#,
        r#"{"accessibility_tree": 1}"#,
        r#"{"a11y_tree": 1}"#,
        r#"{"terminal": 1}"#,
    ] {
        let parts = format!(
            r#"[{{"kind": "file", "file": {{"name": "a.png"}}}}, {{"kind": "data", "data": {gui}}}]"#
        );
        assert_eq!(scores(&parts)[3], 0, "{gui}");
    }
}

#[test]
fn gui_agent_needs_a_contract_or_two_signals() {
    let contract = r#"{"kind": "data", "data": {"action_space": 1, "screen_size": 2}}"#;
    let nested = r#"{"kind": "data", "data": {"env_config": {"action_space": 1, "observation": 2}}}"#;
    let half = r#"{"kind": "data", "data": {"action_space": 1}}"#;
    let tree = r#"{"kind": "data", "data": {"a11y_tree": 1}}"#;
    let shot = r#"{"kind": "file", "file": {"name": "s.jpeg"}}"#;
    assert_eq!(scores(&format!("[{contract}]"))[4], 90);
    assert_eq!(scores(&format!("[{nested}]"))[4], 90);
    assert_eq!(scores(&format!("[{nested}, {shot}]"))[4], 97);
    assert_eq!(scores(&format!("[{nested}, {tree}]"))[4], 97);
    assert_eq!(scores(&format!("[{half}, {shot}]"))[4], 0);
    assert_eq!(scores(&format!("[{tree}, {shot}]"))[4], 75);
    assert_eq!(scores(&format!("[{tree}]"))[4], 0);
    assert_eq!(scores(&format!("[{shot}]"))[4], 0);
}

#[test]
fn envelopes_around_parts_make_no_difference() {
    let parts = [
        r#"{"kind": "text", "text": "q"}"#,
        r#"{"kind": "file", "file": {"name": "a.png"}}"#,
        r#"{"kind": "data", "data": {"exit_code": 0}}"#,
    ];
    let plain = scores(&format!("[{}]", parts.join(",")));
    let wrapped: Vec<String> = parts.iter().map(|p| format!("{{\"root\": {p}}}")).collect();
    assert_eq!(plain, [95, 0, 0, 90, 0]);
    assert_eq!(scores(&format!("[{}]", wrapped.join(","))), plain);
}

#[test]
fn words_and_order_make_no_difference() {
    let a = r#"[{"kind": "text", "text": "exit_code"}, {"kind": "file", "file": {"name": "a.pdf"}}]"#;
    let b = r#"[{"kind": "file", "file": {"name": "a.pdf"}}, {"kind": "text", "text": "FWA"}]"#;
    assert_eq!(scores(a), [0, 0, 0, 75, 0]);
    assert_eq!(scores(b), scores(a));
}

#[test]
fn the_words_of_a_query_make_no_difference() {
    let ask = |q: &str| format!(r#"[{{"kind": "data", "data": {{"query": "{q}"}}}}]"#);
    assert_eq!(scores(&ask("graph")), [0, 0, 45, 0, 0]);
    assert_eq!(scores(&ask("exit_code")), scores(&ask("graph")));
}

#[test]
fn tool_names_make_no_difference() {
    let with = |name: &str| {
        format!(
            r#"[{{"data": {{"tools": [{{"function": {{"name": {name}, "parameters": {{}}}}}}]}}}}]"#
        )
    };
    assert_eq!(scores(&with("\"record_decision\""))[1], 25);
    assert_eq!(scores(&with("null"))[1], 25);
}

#[test]
fn only_the_parts_count() {
    let a = doc(
        r#"{"id": 1, "method": "message/send", "params": {"message": {"messageId": "fwa-7", "parts": [{"kind": "text", "text": "q"}]}}}"#,
    );
    let b = build(r#"[{"kind": "text", "text": "q"}]"#);
    assert_eq!(NetArenaProbe::new(up()).score(&a), 45);
    assert_eq!(NetArenaProbe::new(up()).score(&b), 45);
    assert_eq!(FwaProbe::new(up()).score(&a), FwaProbe::new(up()).score(&b));
}

#[test]
fn more_parts_never_lower_a_strong_signal() {
    let contract = r#"{"kind": "data", "data": {"action_space": 1, "observation_type": 2}}"#;
    let patch = r#"{"kind": "file", "file": {"name": "fix.diff"}}"#;
    let more = r#"{"kind": "text", "text": "q"}, {"kind": "file", "file": {"name": "a.png"}}"#;
    assert_eq!(scores(&format!("[{contract}]"))[4], 90);
    assert_eq!(scores(&format!("[{contract}, {more}]"))[4], 97);
    assert_eq!(scores(&format!("[{patch}]"))[0], 75);
    assert_eq!(scores(&format!("[{patch}, {more}]"))[0], 75);
}

#[test]
fn stronger_capabilities_leave_nothing_to_code_generation() {
    let text = r#"{"kind": "text", "text": "q"}"#;
    for (other, i) in [
        (r#"{"kind": "file", "file": {"name": "a.tgz"}}"#, 0),
        (r#"{"kind": "data", "data": {"exit_code": 1}}"#, 0),
        (r#"{"kind": "file", "file": {"name": "a.md"}}"#, 3),
    ] {
        let s = scores(&format!("[{text}, {other}]"));
        assert!(s[i] > 0, "{other}");
        assert_eq!(s[2], 0, "{other}");
    }
    let gui = r#"{"kind": "data", "data": {"action_space": 1, "observation": 1}}"#;
    let s = scores(&format!("[{text}, {gui}]"));
    assert_eq!((s[2], s[4]), (0, 90));
    for data in [
        r#"{"accessibility_tree": "x"}"#,
        r#"{"a11y_tree": 1}"#,
        r#"{"terminal": 1}"#,
        r#"{"action_space": 1}"#,
        r#"{"env_config": {"action_space": 1}}"#,
        r#"{"benchmark_context": [1]}"#,
    ] {
        let parts = format!(r#"[{{"kind": "text", "text": "Go"}}, {{"kind": "data", "data": {data}}}]"#);
        assert_eq!(scores(&parts)[2], 0, "{data}");
    }
    let other = r#"[{"kind": "text", "text": "Go"}, {"kind": "data", "data": {"env_config": {}, "benchmark_context": []}}]"#;
    assert_eq!(scores(other)[2], 45);
}
