use authzen_pdp::health::{is_healthy, run};
use authzen_pdp::telemetry::{log_format, LogFormat};

#[test]
fn status_line_tells_health() {
    assert!(is_healthy(
        "HTTP/1.0 200 OK\r\ncontent-length: 0\r\n\r\n"
    ));
    assert!(is_healthy("HTTP/1.1 200"));
    assert!(!is_healthy("HTTP/1.0 503 Service Unavailable\r\n\r\n"));
    assert!(!is_healthy(""));
}

#[test]
fn only_the_first_line_tells_health() {
    assert!(!is_healthy("HTTP/1.0 500 Oops\r\nx: 200\r\n"));
    assert!(!is_healthy("\nHTTP/1.0 200 OK\n"));
    assert!(!is_healthy("HTTP/1.0 20\n0 200"));
}

#[test]
fn only_the_status_field_tells_health() {
    assert!(!is_healthy("HTTP/1.0 503 200"));
    assert!(!is_healthy("HTTP/1.0 2000"));
    assert!(!is_healthy("HTTP/1.0  200"));
    assert!(!is_healthy("HTTP/1.0 404 code 200 \r\n"));
    assert!(!is_healthy(" 200"));
    assert!(!is_healthy("HTTP/1.0 20"));
    assert!(!is_healthy("HTTP/1.0"));
    assert!(is_healthy("HTTP/1.0 200\r\n"));
    assert!(is_healthy("HTTP/1.0 200 \n"));
}

#[test]
fn the_check_fails_without_a_response() {
    assert!(!run(None));
    assert!(!run(Some("")));
    assert!(!run(Some("HTTP/1.0 500 Oops\r\n\r\n")));
    assert!(run(Some("HTTP/1.0 200 OK\r\n\r\n")));
}

#[test]
fn records_are_text_unless_json_is_asked_for() {
    assert_eq!(log_format(Some("json")), LogFormat::Json);
    assert_eq!(log_format(Some("JSON")), LogFormat::Text);
    assert_eq!(log_format(Some("text")), LogFormat::Text);
    assert_eq!(log_format(None), LogFormat::Text);
}
