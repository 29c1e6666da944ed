//! The admin promotion surface and the probes.
use scripture_ops::admin_http::{
    parse_promote_request, promote_body, promote_request, tokens_equal, AdminParseError,
    PromoteRequest, MAX_ADMIN_REQUEST_BYTES,
};
use scripture_ops::http::{
    admin_response, admin_step, admin_step_of_bytes, any_effective_writer, assemble_failed_reply,
    is_liveness_path, legacy_ready, live_status, not_ready_body, parse_candidate_term, probe_path,
    probe_path_of_bytes, probe_reply, probe_response, promote_gate, promote_reply, StandbyState,
    standby_disposition, AdminStep, HttpReply,
};

/// Reads the body as the service does: one object, one whole number, nothing else.
fn decode(body: &str) -> Option<u64> {
    let value: serde_json::Value = serde_json::from_str(body).ok()?;
    let object = value.as_object()?;
    if object.len() != 1 {
        return None;
    }
    object.get("candidate_term")?.as_u64()
}

fn parse(raw: &[u8]) -> Result<PromoteRequest, AdminParseError> {
    parse_promote_request(raw, "secret-token", decode)
}

fn request(auth: &str, body: &str) -> Vec<u8> {
    format!(
        "POST /v1/promote HTTP/1.1\r\nAuthorization: {auth}\r\nContent-Length: {}\r\n\r\n{body}",
        body.len()
    )
    .into_bytes()
}

#[test]
fn accepts_exact_authorized_json() {
    let raw = request("Bearer secret-token", r#"{"candidate_term":2}"#);
    let parsed = parse(&raw).expect("ok");
    assert_eq!(parsed.candidate_term, 2);
}

#[test]
fn authorization_header_is_case_insensitive() {
    let body = r#"{"candidate_term":3}"#;
    let raw = format!(
        "POST /v1/promote HTTP/1.1\r\naUtHoRiZaTiOn: Bearer secret-token\r\nContent-Length: {}\r\n\r\n{body}",
        body.len()
    );
    parse(raw.as_bytes()).expect("ok");
}

#[test]
fn the_bearer_scheme_is_case_insensitive() {
    let raw = b"POST /v1/promote HTTP/1.1\r\nAuthorization: BEARER secret-token\r\nContent-Length: 20\r\n\r\n{\"candidate_term\":2}";
    assert_eq!(parse(raw).map(|parsed| parsed.candidate_term), Ok(2));
    for scheme in ["bearer", "bEaReR"] {
        let raw = request(&format!("{scheme}   secret-token "), r#"{"candidate_term":4}"#);
        assert_eq!(parse(&raw).map(|parsed| parsed.candidate_term), Ok(4));
    }
    for auth in ["Bearer", "Bearersecret-token", "Basic secret-token", "Bearer SECRET-token"] {
        let raw = request(auth, r#"{"candidate_term":4}"#);
        assert_eq!(parse(&raw), Err(AdminParseError::Unauthorized), "{auth}");
    }
}

#[test]
fn rejects_missing_bearer() {
    let body = r#"{"candidate_term":2}"#;
    let raw = format!(
        "POST /v1/promote HTTP/1.1\r\nContent-Length: {}\r\n\r\n{body}",
        body.len()
    );
    assert_eq!(parse(raw.as_bytes()), Err(AdminParseError::Unauthorized));
}

#[test]
fn rejects_wrong_bearer() {
    let raw = request("Bearer other", r#"{"candidate_term":2}"#);
    assert_eq!(parse(&raw), Err(AdminParseError::Unauthorized));
}

#[test]
fn rejects_trailing_json_garbage() {
    let raw = request("Bearer secret-token", r#"{"candidate_term":2}garbage"#);
    assert!(matches!(parse(&raw), Err(AdminParseError::BadRequest(_))));
}

#[test]
fn rejects_prefix_json_without_full_object_end() {
    let body = r#"{"candidate_term":2"#;
    let raw = request("Bearer secret-token", body);
    assert!(matches!(parse(&raw), Err(AdminParseError::BadRequest(_))));
}

#[test]
fn rejects_zero_term() {
    let raw = request("Bearer secret-token", r#"{"candidate_term":0}"#);
    assert_eq!(
        parse(&raw),
        Err(AdminParseError::BadRequest("candidate_term must be >= 1"))
    );
}

#[test]
fn rejects_missing_content_length() {
    let raw = b"POST /v1/promote HTTP/1.1\r\nAuthorization: Bearer secret-token\r\n\r\n{\"candidate_term\":2}";
    assert!(matches!(parse(raw), Err(AdminParseError::BadRequest(_))));
}

#[test]
fn rejects_wrong_path() {
    let body = r#"{"candidate_term":2}"#;
    let raw = format!(
        "POST /v1/other HTTP/1.1\r\nAuthorization: Bearer secret-token\r\nContent-Length: {}\r\n\r\n{body}",
        body.len()
    );
    assert_eq!(parse(raw.as_bytes()), Err(AdminParseError::NotFound));
}

#[test]
fn rejects_incomplete_body() {
    let raw = b"POST /v1/promote HTTP/1.1\r\nAuthorization: Bearer secret-token\r\nContent-Length: 40\r\n\r\n{\"candidate_term\":2}";
    assert_eq!(parse(raw), Err(AdminParseError::Incomplete));
}

#[test]
fn unauthorized_bodies_are_never_decoded() {
    let raw = request("Bearer other", r#"{"candidate_term":2}"#);
    let answer = parse_promote_request(&raw, "secret-token", |_| unreachable!("not decoded"));
    assert_eq!(answer, Err(AdminParseError::Unauthorized));
    assert_eq!(promote_body(&raw, "secret-token"), Err(AdminParseError::Unauthorized));
    let raw = request("Bearer secret-token", r#"{"candidate_term":2}"#);
    assert_eq!(
        promote_body(&raw, "secret-token"),
        Ok(r#"{"candidate_term":2}"#.to_owned())
    );
}

#[test]
fn admin_requests_without_an_end_of_headers_are_incomplete() {
    assert_eq!(parse(b""), Err(AdminParseError::Incomplete));
    assert_eq!(parse(b"POST /v1/promote HTTP/1.1\r\n"), Err(AdminParseError::Incomplete));
    assert!(MAX_ADMIN_REQUEST_BYTES == 4096);
}

#[test]
fn bytes_that_are_no_text_are_a_bad_request() {
    let raw = [b"POST /v1/promote HTTP/1.1\r\nX: ".as_slice(), &[0xff], b"\r\n\r\n"].concat();
    assert!(matches!(parse(&raw), Err(AdminParseError::BadRequest(_))));
}

#[test]
fn decoded_terms_are_checked() {
    assert_eq!(promote_request(Some(1)), Ok(PromoteRequest { candidate_term: 1 }));
    assert_eq!(
        promote_request(Some(0)),
        Err(AdminParseError::BadRequest("candidate_term must be >= 1"))
    );
    assert!(matches!(promote_request(None), Err(AdminParseError::BadRequest(_))));
}

#[test]
fn admin_parse_errors_have_words() {
    let mut words = vec![
        AdminParseError::Incomplete.message(),
        AdminParseError::NotFound.message(),
        AdminParseError::Unauthorized.message(),
        AdminParseError::BadRequest("bad content-length").message(),
    ];
    assert!(words[3].contains("bad content-length"));
    words.sort();
    words.dedup();
    assert_eq!(words.len(), 4);
}

#[test]
fn tokens_are_compared_byte_by_byte() {
    assert!(tokens_equal(b"abc", b"abc"));
    assert!(!tokens_equal(b"abc", b"abd"));
    assert!(!tokens_equal(b"abc", b"ab"));
    assert!(tokens_equal(b"", b""));
}

#[test]
fn probe_paths_come_from_the_request_line() {
    assert_eq!(probe_path("GET /livez HTTP/1.1\r\nHost: x\r\n\r\n"), "/livez");
    assert_eq!(probe_path("GET"), "/status");
    assert_eq!(probe_path(""), "/status");
    assert_eq!(probe_path_of_bytes(b"GET /readyz HTTP/1.1\r\n"), "/readyz");
    assert_eq!(probe_path_of_bytes(&[b'G', b' ', b'/', 0xff]), "/\u{fffd}");
}

#[test]
fn readiness_needs_readiness_and_liveness_does_not() {
    assert!(is_liveness_path("/livez"));
    assert!(!is_liveness_path("/readyz"));
    assert_eq!(
        probe_reply("/readyz", true, false, "not-ready: Standby\n", "s"),
        HttpReply { code: 503, body: "not-ready: Standby\n".to_owned() }
    );
    assert_eq!(
        probe_reply("/readyz", true, true, "no", "s"),
        HttpReply { code: 200, body: "ready\n".to_owned() }
    );
    for ready in [true, false] {
        assert_eq!(probe_reply("/livez", true, ready, "no", "s").code, 200);
        assert_eq!(probe_reply("/livez", false, ready, "no", "s").code, 503);
    }
    assert_eq!(
        probe_reply("/status", true, false, "no", "state\n"),
        HttpReply { code: 200, body: "state\n".to_owned() }
    );
}

#[test]
fn probe_words_name_the_disposition() {
    assert!(not_ready_body("Standby").contains("Standby"));
    assert!(legacy_ready(true, true));
    assert!(!legacy_ready(true, false));
    assert!(!legacy_ready(false, true));
    assert_ne!(standby_disposition(true), standby_disposition(false));
}

#[test]
fn live_status_lists_each_assignment() {
    let writers = vec![("a".to_owned(), true), ("b".to_owned(), false)];
    assert_eq!(
        live_status("activated\n", &writers),
        "activated\nlive authority (re-observed from the root):\nassignment_id=a effective_writer=true\nassignment_id=b effective_writer=false\n"
    );
    assert!(any_effective_writer(&writers));
    assert!(!any_effective_writer(&vec![("b".to_owned(), false)]));
}

#[test]
fn replies_carry_their_length() {
    let reply = HttpReply { code: 503, body: "not-alive\n".to_owned() };
    let text = probe_response(&reply);
    assert!(text.starts_with("HTTP/1.1 503 Service Unavailable\r\n"));
    assert!(text.contains("Content-Length: 10\r\n"));
    assert!(text.ends_with("\r\n\r\nnot-alive\n"));
    let text = admin_response(&HttpReply { code: 401, body: "unauthorized\n".to_owned() });
    assert!(text.starts_with("HTTP/1.1 401 Unauthorized\r\n"));
}

#[test]
fn promotion_over_the_admin_port_needs_the_token() {
    let asked = "POST /v1/promote HTTP/1.1\r\nAuthorization: Bearer t\r\n\r\n{\"candidate_term\":7}";
    assert_eq!(admin_step(asked, "t"), AdminStep::Promote(7));
    assert_eq!(admin_step_of_bytes(asked.as_bytes(), "t"), AdminStep::Promote(7));
    let refused = AdminStep::Answer(HttpReply { code: 401, body: "unauthorized\n".to_owned() });
    assert_eq!(admin_step(asked, "other"), refused);
    assert_eq!(
        admin_step("GET / HTTP/1.1\r\n\r\n", "t"),
        AdminStep::Answer(HttpReply { code: 404, body: "not found\n".to_owned() })
    );
    assert_eq!(
        admin_step("", "t"),
        AdminStep::Answer(HttpReply { code: 400, body: "bad request\n".to_owned() })
    );
}

#[test]
fn candidate_terms_are_read_from_the_body() {
    assert_eq!(parse_candidate_term(" {\"candidate_term\":12} "), Ok(12));
    assert_eq!(parse_candidate_term("  "), Err("candidate_term required".to_owned()));
    assert_eq!(
        parse_candidate_term("{\"term\":1}"),
        Err("body must be {\"candidate_term\":N}".to_owned())
    );
    assert_eq!(
        parse_candidate_term("{\"candidate_term\":x}"),
        Err("candidate_term must be an integer".to_owned())
    );
}

#[test]
fn promotions_are_gated_and_answered() {
    assert_eq!(promote_gate(false, false), None);
    assert_eq!(promote_gate(true, false).expect("refused").body, "already serving\n");
    assert_eq!(promote_gate(false, true).expect("refused").body, "promote in flight\n");
    assert_eq!(promote_reply(Ok(())).body, "promoted\n");
    let mut gate = StandbyState::new();
    assert_eq!(gate.ask(), None);
    assert_eq!(gate.ask().expect("refused").body, "promote in flight\n");
    assert_eq!(gate.settle(Err("root moved".to_owned())).code, 409);
    assert_eq!(gate.ask(), None);
    assert_eq!(gate.settle(Ok(())).code, 200);
    assert_eq!(gate.ask().expect("refused").body, "already serving\n");
    let refused = promote_reply(Err("root moved".to_owned()));
    assert_eq!((refused.code, refused.body.as_str()), (409, "promote refused: root moved\n"));
    let failed = assemble_failed_reply("no store");
    assert_eq!((failed.code, failed.body.as_str()), (500, "assemble failed: no store\n"));
}
