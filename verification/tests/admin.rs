use stalwart_mcp::admin::{admin_base_url, admin_status_error, train_url, TrainResult};
use stalwart_mcp::error::AppError;

#[test]
fn tally_of_training_batch() {
    let r = TrainResult::from_outcomes(&[true, false, true, true]);
    assert_eq!(r, TrainResult { total: 4, success: 3, failed: 1 });
    let r = TrainResult::from_outcomes(&[]);
    assert_eq!(r, TrainResult { total: 0, success: 0, failed: 0 });
}

#[test]
fn training_endpoints() {
    assert_eq!(admin_base_url("https://mail.example.com//"), "https://mail.example.com");
    assert_eq!(admin_base_url("https://mail.example.com"), "https://mail.example.com");
    assert_eq!(train_url("https://m.example", true), "https://m.example/api/spam-filter/upload/spam");
    assert_eq!(train_url("https://m.example", false), "https://m.example/api/spam-filter/upload/ham");
}

#[test]
fn refused_training_reports_status_and_body() {
    assert_eq!(
        admin_status_error("401 Unauthorized", Some("bad credentials".to_string())),
        AppError::JmapRequest("Admin API returned 401 Unauthorized: bad credentials".to_string())
    );
    assert_eq!(
        admin_status_error("500 Internal Server Error", None),
        AppError::JmapRequest("Admin API returned 500 Internal Server Error: no body".to_string())
    );
}
