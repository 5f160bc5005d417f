use usercrud::error::AppError;
use usercrud::error::JsonValue;
use usercrud::extract::ValidJson;
use usercrud::users::CreateUser;
use usercrud::validation::{Validate, Violation};

fn obj_get<'a>(j: &'a JsonValue, key: &str) -> Option<&'a JsonValue> {
    match j {
        JsonValue::Obj(fields) => fields.iter().find(|(k, _)| k == key).map(|(_, v)| v),
        _ => None,
    }
}

fn obj_len(j: &JsonValue) -> usize {
    match j {
        JsonValue::Obj(fields) => fields.len(),
        _ => usize::MAX,
    }
}

fn arr_len(j: &JsonValue) -> usize {
    match j {
        JsonValue::Arr(items) => items.len(),
        _ => usize::MAX,
    }
}

fn str_of(j: &JsonValue) -> &str {
    match j {
        JsonValue::Str(s) => s.as_str(),
        _ => panic!("not a string"),
    }
}

fn payload(name: &str, email: &str) -> CreateUser {
    CreateUser {
        name: name.to_string(),
        email: email.to_string(),
        display_name: "display".to_string(),
    }
}

#[test]
fn malformed_body_is_invalid_json() {
    let r = ValidJson::<CreateUser>::from_request(Err("expected value at line 1".to_string()));
    match r {
        Err(AppError::ServiceError(status, code, cause)) => {
            assert_eq!(status, 400);
            assert_eq!(code, "invalid_json");
            assert_eq!(cause.as_deref(), Some("expected value at line 1"));
        }
        _ => panic!("expected the invalid_json service error"),
    }
}

#[test]
fn malformed_body_never_reaches_validation() {
    // Even a body whose typed shape would violate every rule is rejected as
    // invalid_json when it does not parse: only the parse outcome matters.
    let r = ValidJson::<CreateUser>::from_request(Err("trailing comma".to_string()));
    match r {
        Err(AppError::ServiceError(_, code, _)) => assert_eq!(code, "invalid_json"),
        _ => panic!("expected the invalid_json service error"),
    }
}

#[test]
fn valid_payload_passes_through_untouched() {
    let p = payload("abc", "user@example.com");
    let r = ValidJson::from_request(Ok(p.clone()));
    match r {
        Ok(v) => assert_eq!(v.0, p),
        Err(_) => panic!("expected the payload to pass validation"),
    }
}

#[test]
fn email_rule_follows_the_html5_shape() {
    // Would fail if the e-mail wrapper answered a constant or echoed input.
    assert_eq!(payload("abc", "user@example.com").validate().len(), 0);
    let vs = payload("abc", "not-an-email").validate();
    assert_eq!(vs.len(), 1);
    assert_eq!(vs[0].field, "email");
    assert_eq!(vs[0].code, "email");
}

#[test]
fn short_name_violates_length_rule() {
    let vs = payload("ab", "user@example.com").validate();
    assert_eq!(vs.len(), 1);
    assert_eq!(vs[0].field, "name");
    assert_eq!(vs[0].code, "length");
}

#[test]
fn both_rules_violated_render_both_fields() {
    let r = ValidJson::from_request(Ok(payload("ab", "not-an-email")));
    let e = match r {
        Err(e) => e,
        Ok(_) => panic!("expected a validation rejection"),
    };
    let reply = e.into_response();
    assert_eq!(reply.status, 400);
    assert_eq!(reply.log, None);
    assert_eq!(str_of(obj_get(&reply.body, "error").unwrap()), "validation");
    let errors = obj_get(&reply.body, "errors").unwrap();
    assert_eq!(obj_len(errors), 2);
    let name_errors = obj_get(errors, "name").unwrap();
    assert_eq!(arr_len(name_errors), 1);
    let email_errors = obj_get(errors, "email").unwrap();
    assert_eq!(arr_len(email_errors), 1);
    if let JsonValue::Arr(items) = name_errors {
        assert_eq!(str_of(obj_get(&items[0], "code").unwrap()), "length");
    }
    if let JsonValue::Arr(items) = email_errors {
        assert_eq!(str_of(obj_get(&items[0], "code").unwrap()), "email");
        assert_eq!(
            str_of(obj_get(&items[0], "message").unwrap()),
            "must be a valid email address"
        );
    }
}

#[test]
fn single_violation_renders_one_key_one_entry() {
    let r = ValidJson::from_request(Ok(payload("ab", "user@example.com")));
    let reply = match r {
        Err(e) => e.into_response(),
        Ok(_) => panic!("expected a validation rejection"),
    };
    let errors = obj_get(&reply.body, "errors").unwrap();
    assert_eq!(obj_len(errors), 1);
    assert_eq!(arr_len(obj_get(errors, "name").unwrap()), 1);
}

#[test]
fn internal_error_hides_detail_and_logs_cause() {
    let reply = AppError::InternalServerError(Some("pool exhausted".to_string())).into_response();
    assert_eq!(reply.status, 500);
    assert_eq!(obj_len(&reply.body), 0);
    assert_eq!(reply.log.as_deref(), Some("pool exhausted"));
}

#[test]
fn internal_error_without_cause_logs_generic_line() {
    let reply = AppError::InternalServerError(None).into_response();
    assert_eq!(reply.status, 500);
    assert_eq!(reply.log.as_deref(), Some("Internal Server Error"));
}

#[test]
fn service_error_renders_code_object() {
    let reply =
        AppError::ServiceError(404, "not_found".to_string(), Some("row gone".to_string()))
            .into_response();
    assert_eq!(reply.status, 404);
    assert_eq!(obj_len(&reply.body), 1);
    assert_eq!(str_of(obj_get(&reply.body, "error").unwrap()), "not_found");
    assert_eq!(reply.log.as_deref(), Some("row gone"));
}

#[test]
fn structured_body_is_emitted_verbatim() {
    let body = JsonValue::Obj(vec![(
        "status".to_string(),
        JsonValue::Str("ok".to_string()),
    )]);
    let reply = AppError::Json(418, body, None).into_response();
    assert_eq!(reply.status, 418);
    assert_eq!(str_of(obj_get(&reply.body, "status").unwrap()), "ok");
    assert_eq!(reply.log, None);
}

#[test]
fn single_field_rejection_renders_code_as_message() {
    let reply =
        AppError::Validation("email".to_string(), "email_exists".to_string()).into_response();
    assert_eq!(reply.status, 400);
    let errors = obj_get(&reply.body, "errors").unwrap();
    assert_eq!(obj_len(errors), 1);
    if let JsonValue::Arr(items) = obj_get(errors, "email").unwrap() {
        assert_eq!(items.len(), 1);
        assert_eq!(str_of(obj_get(&items[0], "code").unwrap()), "email_exists");
        assert_eq!(str_of(obj_get(&items[0], "message").unwrap()), "email_exists");
    } else {
        panic!("expected an array of entries");
    }
}

#[test]
fn violation_set_converts_to_structured_body() {
    let vs = vec![Violation::new("name", "length", "too short")];
    match AppError::from(vs) {
        AppError::Json(status, body, cause) => {
            assert_eq!(status, 400);
            assert!(cause.is_none());
            assert_eq!(str_of(obj_get(&body, "error").unwrap()), "validation");
            let errors = obj_get(&body, "errors").unwrap();
            assert_eq!(obj_len(errors), 1);
            assert_eq!(arr_len(obj_get(errors, "name").unwrap()), 1);
        }
        _ => panic!("expected the structured-body failure"),
    }
}

#[test]
fn repeated_violations_on_one_field_all_kept() {
    let vs = vec![
        Violation::new("name", "length", "too short"),
        Violation::new("name", "charset", "bad characters"),
        Violation::new("email", "email", "bad shape"),
    ];
    let reply = AppError::ValidationErrors(vs).into_response();
    let errors = obj_get(&reply.body, "errors").unwrap();
    assert_eq!(obj_len(errors), 2);
    assert_eq!(arr_len(obj_get(errors, "name").unwrap()), 2);
    assert_eq!(arr_len(obj_get(errors, "email").unwrap()), 1);
    if let JsonValue::Arr(items) = obj_get(errors, "name").unwrap() {
        assert_eq!(str_of(obj_get(&items[0], "code").unwrap()), "length");
        assert_eq!(str_of(obj_get(&items[1], "code").unwrap()), "charset");
    }
}
