use edge_gateway::balancer::LoadBalancer;
use edge_gateway::limiter::RateLimiter;
use edge_gateway::text::{decimal_string, local_uri};

#[test]
fn load_balancer_reports_its_own_uri() {
    let lb = LoadBalancer::new(8080, vec!["http://127.0.0.1:8081".to_string()]);
    assert_eq!(lb.uri(), "http://127.0.0.1:8080");
    assert_eq!(lb.port, 8080);
    assert_eq!(lb.servers, vec!["http://127.0.0.1:8081".to_string()]);
}

#[test]
fn rate_limiter_reports_its_own_uri() {
    let rl = RateLimiter::new(
        3000,
        "http://127.0.0.1:8081".to_string(),
        "redis://127.0.0.1:6379".to_string(),
        10,
    );
    assert_eq!(rl.uri(), "http://127.0.0.1:3000");
    assert_eq!(rl.port, 3000);
    assert_eq!(rl.forward_url, "http://127.0.0.1:8081");
    assert_eq!(rl.redis_url, "redis://127.0.0.1:6379");
    assert_eq!(rl.request_limit, 10);
    assert_eq!(RateLimiter::fallback_identity(), "unknown");
}

#[test]
fn decimal_rendering_is_exact() {
    assert_eq!(decimal_string(0), "0");
    assert_eq!(decimal_string(7), "7");
    assert_eq!(decimal_string(90), "90");
    assert_eq!(decimal_string(8080), "8080");
    assert_eq!(decimal_string(65535), "65535");
    assert_eq!(local_uri(0), "http://127.0.0.1:0");
    assert_eq!(local_uri(65535), "http://127.0.0.1:65535");
}
