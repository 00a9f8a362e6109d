use rainy_mate::net::{body_size_error, http_status_step, network_retry_delay, retries_exhausted, HttpStatusStep};

#[test]
fn server_errors_and_rate_limits_are_retried_twice() {
    assert!(matches!(http_status_step(0, 503), HttpStatusStep::Retry(250)));
    assert!(matches!(http_status_step(1, 429), HttpStatusStep::Retry(500)));
    assert!(matches!(http_status_step(2, 503), HttpStatusStep::Fail));
    assert!(matches!(http_status_step(0, 200), HttpStatusStep::Accept));
    assert!(matches!(http_status_step(0, 404), HttpStatusStep::Fail));
    assert!(matches!(http_status_step(2, 204), HttpStatusStep::Accept));
}

#[test]
fn network_errors_wait_longer_each_time() {
    assert_eq!(network_retry_delay(0), Some(250));
    assert_eq!(network_retry_delay(1), Some(500));
    assert_eq!(network_retry_delay(2), None);
}

#[test]
fn oversized_bodies_are_refused() {
    assert_eq!(body_size_error(1024, 1024), None);
    assert_eq!(
        body_size_error(2048, 1024),
        Some("Response size 2048 exceeds max_bytes 1024".to_string())
    );
    assert_eq!(
        retries_exhausted("HTTP request failed", None),
        "HTTP request failed after retries: unknown error"
    );
    assert_eq!(
        retries_exhausted("HTTP text request failed", Some("timeout")),
        "HTTP text request failed after retries: timeout"
    );
}
