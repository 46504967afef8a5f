use kube::{
    check_method, classify_document, handle_api_errors, is_failure_status, payload_for_kind,
    resolve_item, Error, ErrorResponse, Payload, TransportFault,
};

fn not_found() -> ErrorResponse {
    ErrorResponse {
        status: "Failure".to_string(),
        message: "not found".to_string(),
        reason: "NotFound".to_string(),
        code: 404,
    }
}

#[test]
fn not_found_document_is_api_error() {
    let body = r#"{"status":"Failure","message":"not found","reason":"NotFound","code":404}"#;
    match handle_api_errors(body, 404, Some(not_found())) {
        Err(Error::Api(e)) => {
            assert_eq!(e.reason, "NotFound");
            assert_eq!(e.code, 404);
        }
        other => panic!("unexpected {:?}", other),
    }
}

#[test]
fn unparsable_error_body_is_synthesized() {
    match handle_api_errors("oops", 404, None) {
        Err(Error::Api(e)) => {
            assert_eq!(e.reason, "Failed to parse error data");
            assert!(e.message.contains("oops"));
            assert_eq!(e.code, 404);
            assert_eq!(e.status, "404 Not Found");
        }
        other => panic!("unexpected {:?}", other),
    }
}

#[test]
fn server_error_without_document() {
    match handle_api_errors("", 503, None) {
        Err(Error::Api(e)) => {
            assert_eq!(e.status, "503 Service Unavailable");
            assert_eq!(e.code, 503);
            assert_eq!(e.message, "");
        }
        other => panic!("unexpected {:?}", other),
    }
}

#[test]
fn success_status_passes() {
    assert_eq!(handle_api_errors("{}", 200, None), Ok(()));
    assert_eq!(handle_api_errors("oops", 399, Some(not_found())), Ok(()));
    assert_eq!(handle_api_errors("oops", 600, None), Ok(()));
}

#[test]
fn failure_status_bounds() {
    assert!(!is_failure_status(399));
    assert!(is_failure_status(400));
    assert!(is_failure_status(499));
    assert!(is_failure_status(500));
    assert!(is_failure_status(599));
    assert!(!is_failure_status(600));
}

#[test]
fn status_kind_selects_status() {
    let body = r#"{"kind":"Status","apiVersion":"v1","status":"Success"}"#;
    assert_eq!(classify_document(body), Ok(Payload::Status));
}

#[test]
fn other_kind_selects_object() {
    assert_eq!(classify_document(r#"{"kind":"Pod","metadata":{}}"#), Ok(Payload::Object));
    assert_eq!(classify_document(r#"{"metadata":{}}"#), Ok(Payload::Object));
    assert_eq!(classify_document(r#"{"kind":7}"#), Ok(Payload::Object));
    assert_eq!(classify_document(r#"[1,2]"#), Ok(Payload::Object));
}

#[test]
fn non_json_body_is_decode_error() {
    assert!(matches!(classify_document("oops"), Err(Error::Decode(_))));
}

#[test]
fn payload_for_kind_values() {
    assert_eq!(payload_for_kind(Some("Status".to_string())), Payload::Status);
    assert_eq!(payload_for_kind(Some("status".to_string())), Payload::Object);
    assert_eq!(payload_for_kind(None), Payload::Object);
}

#[test]
fn methods() {
    for m in ["GET", "POST", "DELETE", "PUT", "PATCH"] {
        assert_eq!(check_method(m), Ok(()));
    }
    assert_eq!(check_method("HEAD"), Err(Error::InvalidMethod("HEAD".to_string())));
    assert_eq!(check_method("get"), Err(Error::InvalidMethod("get".to_string())));
}

#[test]
fn resolve_item_variants() {
    assert_eq!(resolve_item(Some(5u32), None, "5".to_string()), Ok(5));
    assert_eq!(
        resolve_item::<u32>(None, Some(not_found()), "x".to_string()),
        Err(Error::Api(not_found()))
    );
    assert_eq!(
        resolve_item::<u32>(None, None, "bad line".to_string()),
        Err(Error::Decode("bad line".to_string()))
    );
}

#[test]
fn benign_faults() {
    let t = TransportFault { timed_out: true, message: String::new() };
    assert!(t.is_benign());
    let e = TransportFault { timed_out: false, message: "unexpected EOF during chunk".to_string() };
    assert!(e.is_benign());
    let f = TransportFault { timed_out: false, message: "unexpected EOF".to_string() };
    assert!(!f.is_benign());
}
