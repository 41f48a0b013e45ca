use handy_enhance::protocol::{Request, Response};

#[test]
fn every_request_reports_its_own_id() {
    let cases = [
        (Request::Ping { id: 1 }, 1),
        (
            Request::Load {
                id: 2,
                path: "m.gguf".to_string(),
                threads: None,
                ctx: None,
                gpu_layers: None,
            },
            2,
        ),
        (
            Request::Generate {
                id: 3,
                system: "s".to_string(),
                user: "u".to_string(),
                max_tokens: None,
                no_think: None,
            },
            3,
        ),
        (Request::Unload { id: 4 }, 4),
        (Request::Shutdown { id: 5 }, 5),
    ];
    for (req, want) in cases {
        assert_eq!(req.id(), want);
    }
}

#[test]
fn a_bare_success_carries_nothing_else() {
    let r = Response::ok(9);
    assert_eq!(r.id, 9);
    assert!(r.ok);
    assert!(r.text.is_none() && r.error.is_none() && r.elapsed_ms.is_none());
}

#[test]
fn a_generation_carries_its_text_and_timing() {
    let r = Response::generated(7, "hi".to_string(), 12);
    assert!(r.ok);
    assert_eq!(r.text.as_deref(), Some("hi"));
    assert_eq!(r.elapsed_ms, Some(12));
    assert!(r.error.is_none());
}

#[test]
fn a_failure_carries_its_reason_and_no_text() {
    let r = Response::error(7, "boom");
    assert!(!r.ok);
    assert_eq!(r.error.as_deref(), Some("boom"));
    assert!(r.text.is_none());
}
