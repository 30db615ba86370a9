use gallery_uploader::api_client::{
    classify_health_response, classify_http_status, classify_upload_response, health_check_url,
    http_status_is_success, upload_url, ApiError, HealthResponse, UploadResponse,
};
use gallery_uploader::clock::{now_millis, timestamp_suffix};
use gallery_uploader::config::{should_enable_start_button, AppConfig, ConnectionStatus};

fn health(success: bool, message: &str) -> HealthResponse {
    HealthResponse {
        success,
        message: message.to_string(),
        timestamp: "2024-01-01T12:00:00Z".to_string(),
    }
}

fn upload(success: bool, message: &str) -> UploadResponse {
    UploadResponse {
        success,
        message: message.to_string(),
        photo_id: None,
        s3: None,
        meta: None,
    }
}

#[test]
fn http_success_is_exactly_the_2xx_range() {
    assert!(http_status_is_success(200));
    assert!(http_status_is_success(204));
    assert!(http_status_is_success(299));
    assert!(!http_status_is_success(199));
    assert!(!http_status_is_success(300));
    assert!(!http_status_is_success(404));
    assert!(!http_status_is_success(500));
}

#[test]
fn non_success_statuses_become_errors_carrying_status_and_body() {
    assert!(classify_http_status(200, "ignored").is_ok());
    assert!(classify_http_status(299, "ignored").is_ok());
    match classify_http_status(404, "not found").unwrap_err() {
        ApiError::ApiError { message } => assert_eq!(message, "HTTP 404: not found"),
        other => panic!("expected a service-reported error, found {:?}", other),
    }
    match classify_http_status(500, "").unwrap_err() {
        ApiError::ApiError { message } => assert_eq!(message, "HTTP 500: "),
        other => panic!("expected a service-reported error, found {:?}", other),
    }
    match classify_http_status(65535, "x").unwrap_err() {
        ApiError::ApiError { message } => assert_eq!(message, "HTTP 65535: x"),
        other => panic!("expected a service-reported error, found {:?}", other),
    }
}

#[test]
fn successful_replies_pass_through_classification() {
    let ok = classify_health_response(health(true, "key accepted")).unwrap();
    assert_eq!(ok.message, "key accepted");
    let ok = classify_upload_response(upload(true, "stored")).unwrap();
    assert_eq!(ok.message, "stored");
}

#[test]
fn unsuccessful_replies_become_service_errors_with_their_message() {
    let err = classify_health_response(health(false, "bad key")).unwrap_err();
    match err {
        ApiError::ApiError { message } => assert_eq!(message, "bad key"),
        other => panic!("expected a service-reported error, found {:?}", other),
    }
    let err = classify_upload_response(upload(false, "quota exceeded")).unwrap_err();
    match err {
        ApiError::ApiError { message } => assert_eq!(message, "quota exceeded"),
        other => panic!("expected a service-reported error, found {:?}", other),
    }
}

#[test]
fn request_urls_are_built_from_a_trimmed_base() {
    assert_eq!(health_check_url("https://api.example.com"), "https://api.example.com/check-api-key");
    assert_eq!(health_check_url("https://api.example.com/"), "https://api.example.com/check-api-key");
    assert_eq!(
        upload_url("https://api.example.com//", "summer-gala"),
        "https://api.example.com/api/gallery/summer-gala/photos"
    );
    assert_eq!(upload_url("https://x.io", "e1"), "https://x.io/api/gallery/e1/photos");
}

#[test]
fn configuration_gates_testing_and_watching() {
    let mut cfg = AppConfig::default();
    assert!(!cfg.can_test_connection());
    assert!(!cfg.can_start_watching());
    cfg.api_endpoint = "https://api.example.com".to_string();
    cfg.api_key = "SECRET-REDACTED".to_string();
    assert!(cfg.can_test_connection());
    assert!(!cfg.can_start_watching());
    cfg.event_code = "summer-gala".to_string();
    assert!(!cfg.can_start_watching());
    cfg.watch_folder = Some("/watch".to_string());
    assert!(cfg.can_start_watching());
}

#[test]
fn start_button_is_live_while_watching_or_after_a_successful_test() {
    assert!(!should_enable_start_button(false, &ConnectionStatus::NotTested));
    assert!(!should_enable_start_button(false, &ConnectionStatus::Testing));
    assert!(!should_enable_start_button(
        false,
        &ConnectionStatus::Failed("no".to_string())
    ));
    assert!(should_enable_start_button(false, &ConnectionStatus::Connected));
    assert!(should_enable_start_button(true, &ConnectionStatus::NotTested));
}

#[test]
fn clock_readings_are_usable_values() {
    let t1 = now_millis();
    let t2 = now_millis();
    assert!(t2 >= t1);
    let stamp = timestamp_suffix();
    assert!(!stamp.is_empty());
    assert!(stamp.contains('_'));
}
