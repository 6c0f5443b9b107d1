//! What is sent to a specialist and what its answer becomes.

use capability_router::forward::{
    after_send, error_json, forward, forward_json, forward_json_as_sse, upstream_failure,
    ForwardStep, SendOutcome,
};
use capability_router::http::HttpReply;
use capability_router::probe::{ResponseShape, Upstream};
use capability_router::wire::json_from_bytes;

fn text(reply: HttpReply) -> (u16, String) {
    (reply.status, String::from_utf8(reply.body).unwrap())
}

fn headers(reply: &HttpReply) -> Vec<(&str, &str)> {
    reply.headers.list.iter().map(|h| (h.0.as_str(), h.1.as_str())).collect()
}

#[test]
fn an_error_is_a_json_rpc_error() {
    let reply = error_json(502, "it \"broke\"\n".to_string());
    assert_eq!(headers(&reply), vec![("content-type", "application/json")]);
    let back = json_from_bytes(&reply.body).unwrap();
    assert_eq!(back.nested("error", "message").unwrap().as_str(), Some("it \"broke\"\n"));
    assert_eq!(
        text(reply),
        (
            502,
            r#"{"error":{"code":-32603,"message":"it \"broke\"\n"},"id":null,"jsonrpc":"2.0"}"#
                .to_string()
        )
    );
}

#[test]
fn a_request_holds_the_body_as_it_came() {
    let upstream = Upstream { url: "http://u".to_string(), response_shape: ResponseShape::Sse };
    let sent = forward(&upstream, vec![0, 255, 10], "vuln-repro");
    assert_eq!(sent.url, "http://u");
    assert_eq!(sent.body, vec![0, 255, 10]);
    assert_eq!(sent.response_shape, ResponseShape::Sse);
}

#[test]
fn a_specialist_that_cannot_be_reached_is_reported() {
    match after_send(ResponseShape::Json, "gui-agent", SendOutcome::Failed("refused".to_string())) {
        ForwardStep::Reply(reply) => {
            let (status, body) = text(reply);
            assert_eq!(status, 502);
            assert!(body.contains("Upstream gui-agent unreachable: refused"));
        }
        other => panic!("{other:?}"),
    }
}

#[test]
fn the_status_and_the_shape_decide() {
    for status in [100u16, 199, 300, 404, 500, 599] {
        assert!(matches!(
            after_send(ResponseShape::Sse, "p", SendOutcome::Status(status)),
            ForwardStep::ReadFailure
        ));
    }
    assert!(matches!(
        after_send(ResponseShape::Json, "p", SendOutcome::Status(200)),
        ForwardStep::ReadJson
    ));
    assert!(matches!(
        after_send(ResponseShape::JsonAsSse, "p", SendOutcome::Status(299)),
        ForwardStep::ReadJsonAsSse
    ));
    match after_send(ResponseShape::Sse, "vuln-repro", SendOutcome::Status(200)) {
        ForwardStep::Stream(h) => {
            assert_eq!(h.list.len(), 5);
            assert_eq!(h.list[0], ("content-type".to_string(), "text/event-stream".to_string()));
            assert_eq!(h.list[4], ("x-router-probe".to_string(), "vuln-repro".to_string()));
        }
        other => panic!("{other:?}"),
    }
}

#[test]
fn a_failure_is_passed_on_with_what_was_said() {
    let (status, body) = text(upstream_failure("vision-qa", "503 Service Unavailable", "busy"));
    assert_eq!(status, 502);
    assert!(body.contains("Upstream vision-qa returned 503 Service Unavailable: busy"));
}

#[test]
fn json_is_passed_on_byte_for_byte() {
    let reply = forward_json("vision-qa", Ok(vec![1, 2, 3]));
    assert_eq!(
        headers(&reply),
        vec![
            ("content-type", "application/json"),
            ("x-router-probe", "vision-qa"),
            ("connection", "close"),
        ]
    );
    assert_eq!((reply.status, reply.body), (200, vec![1, 2, 3]));
    let (status, body) = text(forward_json("vision-qa", Err("cut".to_string())));
    assert_eq!(status, 502);
    assert!(body.contains("Upstream vision-qa body read failed: cut"));
}

#[test]
fn json_can_become_one_event() {
    let reply = forward_json_as_sse("gui-agent", Ok(b" \n{\"a\": 1}\t".to_vec()));
    assert_eq!(
        headers(&reply),
        vec![
            ("content-type", "text/event-stream"),
            ("cache-control", "no-cache"),
            ("x-accel-buffering", "no"),
            ("x-router-probe", "gui-agent"),
        ]
    );
    assert_eq!(text(reply), (200, "data: {\"a\": 1}\n\n".to_string()));
    let lines = forward_json_as_sse("gui-agent", Ok(b"{\"a\":1,\n\n\"b\":2}\n".to_vec()));
    assert_eq!(
        text(lines),
        (200, "data: {\"a\":1,\ndata: \ndata: \"b\":2}\n\n".to_string())
    );
    let returns = forward_json_as_sse("gui-agent", Ok(b"[1,\r\n2,\r3]".to_vec()));
    assert_eq!(text(returns), (200, "data: [1,\ndata: 2,\ndata: 3]\n\n".to_string()));
    let broken = forward_json_as_sse("gui-agent", Ok(vec![b'a', 0xff, b'b']));
    assert_eq!(text(broken), (200, "data: a\u{fffd}b\n\n".to_string()));
    let (status, body) = text(forward_json_as_sse("gui-agent", Err("cut".to_string())));
    assert_eq!(status, 502);
    assert!(body.contains("Upstream gui-agent body read failed: cut"));
}
