use super_lotto::api::performance::ApiPerformanceManager;

#[test]
fn request_metrics_running_mean_and_slow_list() {
    let mut m: ApiPerformanceManager<String> = ApiPerformanceManager::new();
    m.update_request_metrics("draws", 100_000_000, 1);
    assert_eq!(m.metrics().total_requests, 1);
    assert_eq!(m.metrics().average_response_nanos, 100_000_000);
    m.update_request_metrics("draws", 300_000_000, 2);
    assert_eq!(m.metrics().total_requests, 2);
    assert_eq!(m.metrics().average_response_nanos, 200_000_000);
    assert!(m.metrics().slow_requests.is_empty());
    m.update_request_metrics("analysis", 2_500_000_000, 3);
    assert_eq!(m.metrics().slow_requests.len(), 1);
    assert_eq!(m.metrics().slow_requests[0].endpoint, "analysis");
    assert_eq!(m.metrics().slow_requests[0].duration_nanos, 2_500_000_000);
    assert_eq!(m.metrics().average_response_nanos, 966_666_666);
    for i in 0..60 {
        m.update_request_metrics("slow", 3_000_000_000, 10 + i);
    }
    assert_eq!(m.metrics().slow_requests.len(), 50);
    assert_eq!(m.metrics().slow_requests[49].timestamp, 69);
}
