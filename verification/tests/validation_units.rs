use bark_scheduler::api::ApiResponse;
use bark_scheduler::config::default_bark_url;
use bark_scheduler::config::default_host;
use bark_scheduler::config::default_port;
use bark_scheduler::config::AppConfig;
use bark_scheduler::cron::count_fields;
use bark_scheduler::cron::cron_expression_ok;
use bark_scheduler::errors::ConfigError;
use bark_scheduler::errors::DeliveryError;
use bark_scheduler::errors::SchedulerError;
use bark_scheduler::payload::evaluate_delivery;

#[test]
fn field_counting_matches_whitespace_splitting() {
    assert_eq!(count_fields(""), 0);
    assert_eq!(count_fields("   "), 0);
    assert_eq!(count_fields("a"), 1);
    assert_eq!(count_fields("0 */5 * * * *"), 6);
    assert_eq!(count_fields("  0\t0  9 * * *  "), 6);
    assert_eq!(count_fields("1 2 3 4 5 6 7"), 7);
    assert_eq!(count_fields("\n\r\t"), 0);
}

#[test]
fn cron_expression_shape() {
    assert!(cron_expression_ok("0 */1 * * * *"));
    assert!(cron_expression_ok("0 0 9 * * *"));
    assert!(!cron_expression_ok("0 9 * * *"));
    assert!(!cron_expression_ok(""));
    assert!(!cron_expression_ok("0 0 9 * * * 2024"));
}

#[test]
fn delivery_judgement() {
    assert_eq!(evaluate_delivery(true, 200), Ok(()));
    assert_eq!(evaluate_delivery(false, 200), Err(DeliveryError::HttpFailure));
    assert_eq!(evaluate_delivery(false, 500), Err(DeliveryError::HttpFailure));
    assert_eq!(evaluate_delivery(true, 500), Err(DeliveryError::GatewayRejected));
    assert_eq!(evaluate_delivery(true, 0), Err(DeliveryError::GatewayRejected));
}

#[test]
fn validation_errors_are_validation() {
    assert!(SchedulerError::InvalidCron.is_validation());
    assert!(SchedulerError::PastTimestamp.is_validation());
    assert!(!SchedulerError::NotFound.is_validation());
}

#[test]
fn config_defaults() {
    let c = AppConfig::default();
    assert_eq!(c.host, "0.0.0.0");
    assert_eq!(c.port, 3000);
    assert_eq!(c.bark_url, "https://api.day.app");
    assert_eq!(c.device_key, "");
    assert_eq!(c.password, "");
    assert_eq!(default_host(), "0.0.0.0");
    assert_eq!(default_port(), 3000);
    assert_eq!(default_bark_url(), "https://api.day.app");
}

#[test]
fn config_validation_needs_device_key() {
    let mut c = AppConfig::default();
    assert_eq!(c.validate(), Err(ConfigError::MissingDeviceKey));
    c.device_key = "k".to_string();
    assert_eq!(c.validate(), Ok(()));
}

#[test]
fn api_response_envelopes() {
    let ok: ApiResponse<u32> = ApiResponse::success(7);
    assert!(ok.success);
    assert_eq!(ok.data, Some(7));
    assert_eq!(ok.error, None);

    let err: ApiResponse<u32> = ApiResponse::error("boom".to_string());
    assert!(!err.success);
    assert_eq!(err.data, None);
    assert_eq!(err.error, Some("boom".to_string()));
}
