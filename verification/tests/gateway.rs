use rustygate::config::Config;
use rustygate::handlers::{
    forward_request, health_check, is_streaming, proxy_handler, ProxyAction, ProxyInput,
    ProxyRequest, ProxyStage, UpstreamRequest,
};
use rustygate::proxy::{handle_normal_response, Passthrough};

fn config() -> Config {
    Config::from_env(&vec![
        ("OPENAI_API_KEY".to_string(), "sk-secret".to_string()),
        ("RATE_LIMIT_TIMEOUT".to_string(), "12".to_string()),
    ])
    .unwrap()
}

fn request(accept: Option<&str>) -> ProxyRequest {
    ProxyRequest { path: "chat/completions".to_string(), accept: accept.map(str::to_string) }
}

fn pair(name: &str, value: &str) -> (String, String) {
    (name.to_string(), value.to_string())
}

fn answered(status: u16, content_type: Option<&str>) -> ProxyInput {
    ProxyInput::Answered { status, content_type: content_type.map(str::to_string) }
}

#[test]
fn health_check_says_ok() {
    assert_eq!(health_check(), "OK");
}

#[test]
fn request_first_asks_for_one_credit() {
    let (stage, action) =
        proxy_handler(&config(), ProxyStage::Idle, ProxyInput::Request(request(None)));
    assert_eq!(stage, ProxyStage::AwaitingCredit(request(None)));
    assert_eq!(action, ProxyAction::Acquire { permits: 1, timeout_secs: 12 });
}

#[test]
fn admitted_request_has_its_body_read() {
    let (stage, action) = proxy_handler(
        &config(),
        ProxyStage::AwaitingCredit(request(Some("text/event-stream"))),
        ProxyInput::Admitted,
    );
    assert_eq!(stage, ProxyStage::ReadingBody(request(Some("text/event-stream"))));
    assert_eq!(action, ProxyAction::ReadBody);
}

#[test]
fn request_that_timed_out_is_one_too_many() {
    let (stage, action) = proxy_handler(
        &config(),
        ProxyStage::AwaitingCredit(request(None)),
        ProxyInput::TimedOut,
    );
    assert_eq!(stage, ProxyStage::Done);
    assert_eq!(action, ProxyAction::Reject(429));
}

#[test]
fn body_goes_to_the_upstream_with_the_credential() {
    let (stage, action) = proxy_handler(
        &config(),
        ProxyStage::ReadingBody(request(None)),
        ProxyInput::Body(b"{\"stream\":true}".to_vec()),
    );
    assert_eq!(stage, ProxyStage::Forwarding);
    assert_eq!(
        action,
        ProxyAction::Forward(UpstreamRequest {
            url: "https://api.openai.com/v1/chat/completions".to_string(),
            headers: vec![
                pair("Authorization", "Bearer sk-secret"),
                pair("Content-Type", "application/json"),
            ],
            body: b"{\"stream\":true}".to_vec(),
        })
    );
}

#[test]
fn accept_header_of_the_client_is_forwarded() {
    let upstream = forward_request(&config(), request(Some("text/event-stream")), Vec::new());
    assert_eq!(
        upstream.headers,
        vec![
            pair("Authorization", "Bearer sk-secret"),
            pair("Content-Type", "application/json"),
            pair("Accept", "text/event-stream"),
        ]
    );
    assert!(upstream.body.is_empty());
    let empty_path =
        forward_request(&config(), ProxyRequest { path: String::new(), accept: None }, vec![1]);
    assert_eq!(empty_path.url, "https://api.openai.com/v1/");
    assert_eq!(empty_path.body, vec![1]);
}

#[test]
fn unreadable_body_is_a_bad_request() {
    let (stage, action) = proxy_handler(
        &config(),
        ProxyStage::ReadingBody(request(None)),
        ProxyInput::BodyUnreadable,
    );
    assert_eq!(stage, ProxyStage::Done);
    assert_eq!(action, ProxyAction::Reject(400));
}

#[test]
fn unreachable_upstream_is_a_bad_gateway() {
    let (stage, action) =
        proxy_handler(&config(), ProxyStage::Forwarding, ProxyInput::Unreachable);
    assert_eq!(stage, ProxyStage::Done);
    assert_eq!(action, ProxyAction::Reject(502));
}

#[test]
fn event_stream_answer_is_streamed() {
    for content_type in ["text/event-stream", "text/event-stream; charset=utf-8", "x text/event-stream"] {
        let (stage, action) =
            proxy_handler(&config(), ProxyStage::Forwarding, answered(200, Some(content_type)));
        assert_eq!(stage, ProxyStage::Done);
        assert_eq!(action, ProxyAction::Stream);
    }
}

#[test]
fn other_answer_is_passed_through() {
    for content_type in [Some("application/json"), Some("Text/Event-Stream"), Some(""), None] {
        let (stage, action) =
            proxy_handler(&config(), ProxyStage::Forwarding, answered(404, content_type));
        assert_eq!(stage, ProxyStage::Done);
        assert_eq!(action, ProxyAction::Buffer { status: 404 });
    }
}

#[test]
fn is_streaming_looks_for_the_media_type() {
    assert!(is_streaming(Some("text/event-stream")));
    assert!(is_streaming(Some("application/x; text/event-stream")));
    assert!(!is_streaming(Some("text/event-strea")));
    assert!(!is_streaming(Some("text/plain")));
    assert!(!is_streaming(None));
}

#[test]
fn report_out_of_turn_is_a_server_error() {
    let steps = vec![
        (ProxyStage::Idle, ProxyInput::Admitted),
        (ProxyStage::Idle, ProxyInput::Body(Vec::new())),
        (ProxyStage::AwaitingCredit(request(None)), ProxyInput::Request(request(None))),
        (ProxyStage::AwaitingCredit(request(None)), ProxyInput::Unreachable),
        (ProxyStage::ReadingBody(request(None)), ProxyInput::TimedOut),
        (ProxyStage::ReadingBody(request(None)), answered(200, None)),
        (ProxyStage::Forwarding, ProxyInput::BodyUnreadable),
        (ProxyStage::Forwarding, ProxyInput::Admitted),
        (ProxyStage::Done, ProxyInput::Request(request(None))),
        (ProxyStage::Done, ProxyInput::Admitted),
        (ProxyStage::Done, answered(200, Some("text/event-stream"))),
    ];
    for (stage, input) in steps {
        let (next, action) = proxy_handler(&config(), stage, input);
        assert_eq!(next, ProxyStage::Done);
        assert_eq!(action, ProxyAction::Reject(500));
    }
}

#[test]
fn whole_way_of_a_streaming_request() {
    let config = config();
    let (stage, action) =
        proxy_handler(&config, ProxyStage::Idle, ProxyInput::Request(request(Some("*/*"))));
    assert!(matches!(action, ProxyAction::Acquire { .. }));
    let (stage, action) = proxy_handler(&config, stage, ProxyInput::Admitted);
    assert_eq!(action, ProxyAction::ReadBody);
    let (stage, action) = proxy_handler(&config, stage, ProxyInput::Body(b"{}".to_vec()));
    assert!(matches!(action, ProxyAction::Forward(_)));
    let (stage, action) = proxy_handler(&config, stage, answered(200, Some("text/event-stream")));
    assert_eq!(action, ProxyAction::Stream);
    assert_eq!(stage, ProxyStage::Done);
}

#[test]
fn normal_response_keeps_status_and_body() {
    assert_eq!(
        handle_normal_response(200, Some(b"{\"ok\":true}".to_vec())),
        Ok(Passthrough {
            status: 200,
            content_type: "application/json",
            body: b"{\"ok\":true}".to_vec()
        })
    );
    assert_eq!(
        handle_normal_response(503, Some(Vec::new())),
        Ok(Passthrough { status: 503, content_type: "application/json", body: Vec::new() })
    );
}

#[test]
fn normal_response_with_a_number_that_is_no_status_is_ok() {
    for (given, expected) in [(0u16, 200u16), (99, 200), (100, 100), (999, 999), (1000, 200), (65535, 200)] {
        let reply = handle_normal_response(given, Some(vec![1, 2])).unwrap();
        assert_eq!(reply.status, expected);
        assert_eq!(reply.body, vec![1, 2]);
    }
}

#[test]
fn normal_response_without_body_is_a_bad_gateway() {
    assert_eq!(handle_normal_response(200, None), Err(502));
    assert_eq!(handle_normal_response(7, None), Err(502));
}
