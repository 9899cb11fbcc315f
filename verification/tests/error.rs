use authzen_pdp::convert::ConversionError;
use authzen_pdp::error::ApiError;
use axum::http::StatusCode;

fn json_error() -> serde_json::Error {
    serde_json::from_str::<serde_json::Value>("{ not json").expect_err("must fail to parse")
}

#[test]
fn client_errors_map_to_400() {
    assert_eq!(
        ApiError::InvalidJson(json_error()).status(),
        StatusCode::BAD_REQUEST
    );
    assert_eq!(
        ApiError::Conversion(ConversionError::Entity(String::new())).status(),
        StatusCode::BAD_REQUEST
    );
}

#[test]
fn evaluation_failure_maps_to_500() {
    assert_eq!(
        ApiError::Evaluation.status(),
        StatusCode::INTERNAL_SERVER_ERROR
    );
}

#[test]
fn error_codes_are_stable() {
    assert_eq!(ApiError::InvalidJson(json_error()).code(), "invalid_json");
    assert_eq!(ApiError::Evaluation.code(), "evaluation_failed");
}

#[test]
fn conversion_errors_delegate_their_code() {
    assert_eq!(
        ApiError::Conversion(ConversionError::Context(String::new())).code(),
        "invalid_context"
    );
}

#[test]
fn evaluation_failure_hides_internal_details() {
    assert_eq!(ApiError::Evaluation.message(), "authorization failed");
}

#[test]
fn bodies_hold_code_and_message() {
    let body = ApiError::from(ConversionError::Request("why".to_string())).body();
    assert_eq!(body.error, "invalid_request");
    assert_eq!(body.message, "invalid request: why");

    let body = ApiError::from(json_error()).body();
    assert_eq!(body.error, "invalid_json");
    assert_eq!(body.message, json_error().to_string());

    let body = ApiError::Evaluation.body();
    assert_eq!(body.error, "evaluation_failed");
    assert_eq!(body.message, "authorization failed");
}
