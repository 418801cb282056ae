use service::router::{handler, response, ContentType, MsgBody, Outcome, Request, Response};
use service::utils;
use service::HttpService;

const CONFIG: &str = r#"[
  {"method": "GET", "path": "/api/users/", "response": {"success": true, "data": {"id": 7}}, "wait": 120},
  {"method": "DELETE", "path": "/api/users/", "response": {"success": false, "data": null}}
]"#;

fn registry() -> utils::APIs {
    utils::apis(CONFIG).ok().unwrap()
}

fn request(method: &str, path: &str, body: &str) -> Request {
    Request {
        method: String::from(method),
        path: String::from(path),
        query: None,
        headers: Vec::new(),
        body: body.as_bytes().to_vec(),
    }
}

fn text_of(resp: &Response) -> String {
    match &resp.body {
        MsgBody::Text(s) => s.clone(),
        MsgBody::Raw(_) => panic!("expected a text body"),
    }
}

#[test]
fn health_always_answers_the_fixed_payload() {
    let apis = registry();
    let mut req = request("GET", "/api/health/", "ignored, not even JSON");
    req.headers.push((String::from("x-anything"), String::from("whatever")));
    match handler(req, &apis).unwrap() {
        Outcome::Respond { wait_ms, response } => {
            assert_eq!(wait_ms, 0);
            assert_eq!(response.status, 200);
            assert!(matches!(response.content_type, ContentType::Json));
            assert_eq!(text_of(&response), "{\"success\":true}");
        },
        _ => panic!("expected a direct response"),
    }
}

#[test]
fn post_echo_returns_body_query_and_headers() {
    let apis = registry();
    let req = Request {
        method: String::from("POST"),
        path: String::from("/api/post"),
        query: Some(String::from("a=b")),
        headers: vec![(String::from("content-type"), String::from("application/json"))],
        body: "{\"x\":1}".as_bytes().to_vec(),
    };
    match handler(req, &apis).unwrap() {
        Outcome::Respond { wait_ms, response } => {
            assert_eq!(wait_ms, 0);
            assert_eq!(response.status, 200);
            assert_eq!(
                text_of(&response),
                "{\"body\":{\"x\":1},\"query\":\"a=b\",\"headers\":{\"content-type\":\"application/json\"}}"
            );
        },
        _ => panic!("expected a direct response"),
    }
}

#[test]
fn post_echo_without_query_writes_null_and_deduplicates_headers() {
    let apis = registry();
    let req = Request {
        method: String::from("POST"),
        path: String::from("/api/post"),
        query: None,
        headers: vec![
            (String::from("accept"), String::from("1")),
            (String::from("accept"), String::from("2")),
        ],
        body: "[]".as_bytes().to_vec(),
    };
    match handler(req, &apis).unwrap() {
        Outcome::Respond { response, .. } => {
            assert_eq!(
                text_of(&response),
                "{\"body\":[],\"query\":null,\"headers\":{\"accept\":\"1\"}}"
            );
        },
        _ => panic!("expected a direct response"),
    }
}

#[test]
fn get_echo_returns_the_raw_body() {
    let apis = registry();
    let req = request("GET", "/api/get", "anything at all");
    match handler(req, &apis).unwrap() {
        Outcome::Respond { response, .. } => {
            assert_eq!(response.status, 200);
            assert!(matches!(response.content_type, ContentType::Json));
            match response.body {
                MsgBody::Raw(b) => assert_eq!(b, b"anything at all".to_vec()),
                _ => panic!("expected the raw body"),
            }
        },
        _ => panic!("expected a direct response"),
    }
}

#[test]
fn asset_routes_are_delegated() {
    let apis = registry();
    match handler(request("GET", "/socket/file/", ""), &apis).unwrap() {
        Outcome::ServeAsset { path, content_type } => {
            assert_eq!(path, "web-socket.html");
            assert!(matches!(content_type, ContentType::Unset));
        },
        _ => panic!("expected an asset outcome"),
    }
    match handler(request("GET", "/conver/settings/", ""), &apis).unwrap() {
        Outcome::ServeAsset { path, content_type } => {
            assert_eq!(path, "conver-settings.toml");
            assert!(matches!(content_type, ContentType::PlainText));
        },
        _ => panic!("expected an asset outcome"),
    }
}

#[test]
fn post_root_answers_the_fixed_literal() {
    let apis = registry();
    match handler(request("POST", "/", ""), &apis).unwrap() {
        Outcome::Respond { response, .. } => {
            assert_eq!(response.status, 200);
            assert_eq!(text_of(&response), "POST Response");
        },
        _ => panic!("expected a direct response"),
    }
}

#[test]
fn socket_route_upgrades_on_the_handshake_headers() {
    let apis = registry();
    let mut req = request("GET", "/socket", "");
    req.headers.push((String::from("connection"), String::from("keep-alive, Upgrade")));
    req.headers.push((String::from("upgrade"), String::from("WebSocket")));
    assert!(matches!(handler(req, &apis).unwrap(), Outcome::Upgrade));

    let mut plain = request("GET", "/socket", "");
    plain.headers.push((String::from("connection"), String::from("keep-alive")));
    match handler(plain, &apis).unwrap() {
        Outcome::Respond { response, .. } => {
            assert_eq!(response.status, 200);
            assert!(matches!(response.content_type, ContentType::Unset));
            assert_eq!(text_of(&response), "Hello HTTP!");
        },
        _ => panic!("expected the plain greeting"),
    }
}

#[test]
fn registry_hit_carries_payload_and_wait() {
    let apis = registry();
    let req = request("GET", "/api/users/", "{}");
    match handler(req, &apis).unwrap() {
        Outcome::Respond { wait_ms, response } => {
            assert_eq!(wait_ms, 120);
            assert_eq!(response.status, 200);
            assert_eq!(text_of(&response), "{\"success\":true,\"data\":{\"id\": 7}}");
        },
        _ => panic!("expected a direct response"),
    }
}

#[test]
fn unmatched_requests_get_not_found() {
    let apis = registry();
    let req = request("GET", "/no/such/route", "null");
    match handler(req, &apis).unwrap() {
        Outcome::Respond { wait_ms, response } => {
            assert_eq!(wait_ms, 0);
            assert_eq!(response.status, 404);
            assert!(matches!(response.content_type, ContentType::Json));
            assert_eq!(text_of(&response), "NOT-FOUND");
        },
        _ => panic!("expected a direct response"),
    }
}

#[test]
fn malformed_fallback_body_yields_500_and_the_task_lives_on() {
    let apis = registry();
    let service = HttpService;
    let bad = request("GET", "/no/such/route", "{not json");
    match service.call(bad, &apis) {
        Outcome::Respond { wait_ms, response } => {
            assert_eq!(wait_ms, 0);
            assert_eq!(response.status, 500);
            assert_eq!(
                text_of(&response),
                "{\"success\":false,\"message\":\"INTERNAL_SERVER_ERROR\"}"
            );
        },
        _ => panic!("expected the internal-error response"),
    }
    // The same service value keeps answering afterwards.
    match service.call(request("GET", "/api/health/", ""), &apis) {
        Outcome::Respond { response, .. } => assert_eq!(response.status, 200),
        _ => panic!("expected a direct response"),
    }
}

#[test]
fn malformed_post_body_yields_500() {
    let apis = registry();
    let service = HttpService;
    let bad = request("POST", "/api/post", "\u{fffd}not json");
    match service.call(bad, &apis) {
        Outcome::Respond { response, .. } => assert_eq!(response.status, 500),
        _ => panic!("expected the internal-error response"),
    }
}

#[test]
fn a_body_that_is_not_utf8_counts_as_malformed() {
    let apis = registry();
    let service = HttpService;
    let bad = Request {
        method: String::from("POST"),
        path: String::from("/api/post"),
        query: None,
        headers: Vec::new(),
        body: vec![0xff, 0xfe, 0x7b],
    };
    match service.call(bad, &apis) {
        Outcome::Respond { response, .. } => assert_eq!(response.status, 500),
        _ => panic!("expected the internal-error response"),
    }
}

#[test]
fn response_builder_labels_json() {
    let r = response(String::from("x"), 418);
    assert_eq!(r.status, 418);
    assert!(matches!(r.content_type, ContentType::Json));
    assert_eq!(text_of(&r), "x");
}

#[test]
fn registry_delay_suspends_without_blocking_other_requests() {
    let apis = std::sync::Arc::new(registry());
    let runtime = tokio::runtime::Builder::new_multi_thread()
        .worker_threads(1)
        .enable_time()
        .build()
        .unwrap();
    let slow_apis = apis.clone();
    let (slow_elapsed, fast_elapsed) = runtime.block_on(async move {
        let start = std::time::Instant::now();
        let slow = tokio::spawn(async move {
            let req = Request {
                method: String::from("GET"),
                path: String::from("/api/users/"),
                query: None,
                headers: Vec::new(),
                body: b"{}".to_vec(),
            };
            match handler(req, &slow_apis).unwrap() {
                Outcome::Respond { wait_ms, .. } => {
                    tokio::time::sleep(std::time::Duration::from_millis(wait_ms)).await;
                    start.elapsed()
                },
                _ => panic!("expected a direct response"),
            }
        });
        let fast_apis = apis.clone();
        let fast = tokio::spawn(async move {
            let req = Request {
                method: String::from("DELETE"),
                path: String::from("/api/users/"),
                query: None,
                headers: Vec::new(),
                body: b"{}".to_vec(),
            };
            match handler(req, &fast_apis).unwrap() {
                Outcome::Respond { wait_ms, .. } => {
                    tokio::time::sleep(std::time::Duration::from_millis(wait_ms)).await;
                    start.elapsed()
                },
                _ => panic!("expected a direct response"),
            }
        });
        (slow.await.unwrap(), fast.await.unwrap())
    });
    assert!(slow_elapsed >= std::time::Duration::from_millis(120));
    assert!(fast_elapsed < std::time::Duration::from_millis(120));
}
