use master::error::{
    bad, internal_code, not_found_code, step_up_required_code, upstream, validation_code, AppError,
    ErrorCode, FieldError, ResponseCode, StandardCodes, standard_codes,
};

fn own(number: u32, slug: &str) -> ErrorCode {
    ErrorCode { number, slug: slug.into() }
}

/// The codes the answers are built with: the library's own four, and
/// values of this test's choosing for the other kinds.
fn codes() -> StandardCodes {
    standard_codes(
        own(9001, "test_unauthorized"),
        own(9002, "test_forbidden"),
        own(9003, "test_bad_request"),
        own(9004, "test_conflict"),
        own(9005, "test_already_exists"),
    )
}

#[test]
fn the_known_codes_carry_their_numbers() {
    assert_eq!((not_found_code().number, not_found_code().slug.as_str()), (1301, "not_found"));
    assert_eq!((validation_code().number, validation_code().slug.as_str()), (1102, "validation_error"));
    assert_eq!((internal_code().number, internal_code().slug.as_str()), (1901, "internal_error"));
    assert_eq!(
        (step_up_required_code().number, step_up_required_code().slug.as_str()),
        (1003, "step_up_required")
    );
}

#[test]
fn a_refusal_carries_its_kind_and_plain_message() {
    let r = AppError::NotFound("build".into()).into_response(&codes());
    assert_eq!(r.status, 404);
    assert!(matches!(r.kind, ResponseCode::NotFound));
    assert_eq!(r.code, "not_found");
    assert_eq!(r.number, 1301);
    assert_eq!(r.message, "build");
    assert!(r.details.is_none());
}

#[test]
fn a_coded_refusal_reaches_the_client() {
    let r = master::error::coded(403, step_up_required_code(), "confirm it is you".into()).into_response(&codes());
    assert_eq!(r.status, 403);
    assert_eq!(r.code, "step_up_required");
    assert_eq!(r.number, 1003);
    assert_eq!(r.message, "confirm it is you");
    assert_eq!(bad(own(1, "x"), "m".into()).status(), 400);
    assert_eq!(upstream(own(1, "x"), "m".into()).status(), 502);
}

#[test]
fn a_refused_form_names_its_fields() {
    let e = AppError::Validation(vec![FieldError {
        field: "name".into(),
        code: "required".into(),
        message: "this field is required".into(),
    }]);
    let r = e.into_response(&codes());
    assert_eq!(r.status, 422);
    assert_eq!(r.code, "validation_error");
    assert_eq!(r.number, 1102);
    assert_eq!(r.message, "request validation failed");
    let details = r.details.unwrap();
    assert_eq!(details[0].field, "name");
    assert_eq!(details[0].code, "required");
}

#[test]
fn a_plain_refusal_has_no_details() {
    assert!(AppError::NotFound("build".into()).into_response(&codes()).details.is_none());
}

#[test]
fn an_internal_failure_says_nothing_of_the_database() {
    let e = AppError::Other { sqlstate: None, text: "relation \"users\" does not exist".into() };
    let r = e.into_response(&codes());
    assert_eq!(r.status, 500);
    assert_eq!(r.code, "internal_error");
    assert_eq!(r.number, 1901);
    assert_eq!(r.message, "internal error");
}

#[test]
fn every_kind_is_answered_with_its_own_code() {
    let cases = [
        (AppError::Unauthorized("who".into()), 401, "test_unauthorized"),
        (AppError::Forbidden("no".into()), 403, "test_forbidden"),
        (AppError::BadRequest("bad".into()), 400, "test_bad_request"),
        (AppError::Conflict("busy".into()), 409, "test_conflict"),
    ];
    for (e, status, slug) in cases {
        let r = e.into_response(&codes());
        assert_eq!(r.status, status);
        assert_eq!(r.code, slug);
    }
}

#[test]
fn a_duplicate_key_is_a_conflict_not_a_fault() {
    let text = "duplicate key value violates unique constraint \"users_username_key\"";
    let wrapped = AppError::Other { sqlstate: Some("23505".into()), text: text.into() };
    assert!(wrapped.is_unique_violation());
    let r = wrapped.into_response(&codes());
    assert_eq!(r.status, 409);
    assert!(matches!(r.kind, ResponseCode::AlreadyExists));
    assert_eq!((r.number, r.code.as_str()), (9005, "test_already_exists"));
    assert_eq!(r.message, "such a record already exists");
    let direct = AppError::Db { row_not_found: false, sqlstate: Some("23505".into()), text: text.into() };
    assert_eq!(direct.status(), 409);
    let other_code = AppError::Db { row_not_found: false, sqlstate: Some("23503".into()), text: "fk".into() };
    assert_eq!(other_code.status(), 500);
}

#[test]
fn a_missing_row_is_not_found() {
    let r = AppError::Db { row_not_found: true, sqlstate: None, text: "no rows returned".into() }
        .into_response(&codes());
    assert_eq!(r.status, 404);
    assert_eq!(r.code, "not_found");
    assert_eq!(r.message, "no rows returned");
}
