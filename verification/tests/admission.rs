use rustygate::config::Config;
use rustygate::handlers::{proxy_handler, ProxyAction, ProxyInput, ProxyRequest, ProxyStage};
use std::sync::Arc;
use std::time::Duration;

fn config(pairs: &[(&str, &str)]) -> Config {
    let mut env = vec![("OPENAI_API_KEY".to_string(), "sk-test".to_string())];
    for (name, value) in pairs {
        env.push((name.to_string(), value.to_string()));
    }
    Config::from_env(&env).unwrap()
}

fn paused() -> tokio::runtime::Runtime {
    tokio::runtime::Builder::new_current_thread()
        .enable_time()
        .start_paused(true)
        .build()
        .unwrap()
}

fn request() -> ProxyRequest {
    ProxyRequest { path: "chat/completions".to_string(), accept: None }
}

/// Lets `count` requests arrive at once and admits them as the gateway does.
/// Returns, for each, whether it was admitted and after how many milliseconds
/// it knew.
fn arrive_at_once(config: &Config, count: usize) -> Vec<(bool, u128)> {
    let limiter = Arc::new(config.rate_limiter().unwrap());
    let config = config.clone();
    paused().block_on(async move {
        let start = tokio::time::Instant::now();
        let mut tasks = Vec::new();
        for _ in 0..count {
            let limiter = limiter.clone();
            let config = config.clone();
            tasks.push(tokio::spawn(async move {
                let (stage, action) =
                    proxy_handler(&config, ProxyStage::Idle, ProxyInput::Request(request()));
                let (permits, timeout_secs) = match action {
                    ProxyAction::Acquire { permits, timeout_secs } => (permits, timeout_secs),
                    other => panic!("unexpected action {:?}", other),
                };
                let wait = Duration::from_secs(timeout_secs);
                let input = match tokio::time::timeout(wait, limiter.acquire(permits)).await {
                    Ok(()) => ProxyInput::Admitted,
                    Err(_) => ProxyInput::TimedOut,
                };
                let (_, action) = proxy_handler(&config, stage, input);
                let admitted = match action {
                    ProxyAction::ReadBody => true,
                    ProxyAction::Reject(status) => {
                        assert_eq!(status, 429);
                        false
                    }
                    other => panic!("unexpected action {:?}", other),
                };
                (admitted, start.elapsed().as_millis())
            }));
        }
        let mut outcomes = Vec::new();
        for task in tasks {
            outcomes.push(task.await.unwrap());
        }
        outcomes
    })
}

#[test]
fn limiter_is_made_with_the_configured_settings() {
    let limiter = config(&[("RATE_LIMIT", "3"), ("RATE_LIMIT_BURST", "7")]).rate_limiter().unwrap();
    assert_eq!(limiter.max(), 7);
    assert_eq!(limiter.refill(), 3);
    assert_eq!(limiter.interval(), Duration::from_millis(1000));
    assert!(limiter.is_fair());
    assert_eq!(limiter.balance(), 7);
}

#[test]
fn limiter_with_default_settings() {
    let limiter = config(&[]).rate_limiter().unwrap();
    assert_eq!(limiter.max(), 5);
    assert_eq!(limiter.refill(), 1);
    assert_eq!(limiter.interval(), Duration::from_secs(1));
    assert!(limiter.is_fair());
    assert_eq!(limiter.balance(), 5);
}

#[test]
fn limiter_caps_capacity_and_refill() {
    let huge = usize::MAX.to_string();
    let limiter =
        config(&[("RATE_LIMIT", &huge), ("RATE_LIMIT_BURST", &huge)]).rate_limiter().unwrap();
    assert_eq!(limiter.max(), isize::MAX as usize);
    assert_eq!(limiter.refill(), isize::MAX as usize);
}

#[test]
fn no_limiter_without_refill() {
    assert!(config(&[("RATE_LIMIT", "0")]).rate_limiter().is_none());
    assert!(config(&[("RATE_LIMIT", "1")]).rate_limiter().is_some());
}

#[test]
fn full_bucket_serves_its_capacity_at_once_then_waits_for_a_refill() {
    for capacity in [1usize, 3, 5] {
        let config = config(&[("RATE_LIMIT_BURST", &capacity.to_string())]);
        let limiter = config.rate_limiter().unwrap();
        paused().block_on(async move {
            let start = tokio::time::Instant::now();
            for _ in 0..capacity {
                limiter.acquire(1).await;
                assert_eq!(start.elapsed(), Duration::ZERO);
            }
            assert_eq!(limiter.balance(), 0);
            assert!(!limiter.try_acquire(1));
            limiter.acquire(1).await;
            let waited = start.elapsed();
            assert!(waited >= Duration::from_millis(1000), "waited {:?}", waited);
            assert!(waited < Duration::from_millis(1100), "waited {:?}", waited);
        });
    }
}

#[test]
fn six_requests_at_once_five_admitted_at_once_sixth_after_a_second() {
    let config = config(&[
        ("RATE_LIMIT_BURST", "5"),
        ("RATE_LIMIT", "1"),
        ("RATE_LIMIT_TIMEOUT", "30"),
    ]);
    let outcomes = arrive_at_once(&config, 6);
    assert_eq!(outcomes.len(), 6);
    assert!(outcomes.iter().all(|(admitted, _)| *admitted));
    let mut times: Vec<u128> = outcomes.iter().map(|(_, at)| *at).collect();
    times.sort();
    assert_eq!(&times[..5], &[0, 0, 0, 0, 0]);
    assert!(times[5] >= 1000 && times[5] < 1100, "sixth after {} ms", times[5]);
}

#[test]
fn waiters_are_admitted_in_the_order_they_came() {
    let config = config(&[("RATE_LIMIT_BURST", "1"), ("RATE_LIMIT_TIMEOUT", "30")]);
    let outcomes = arrive_at_once(&config, 4);
    let times: Vec<u128> = outcomes.iter().map(|(_, at)| *at / 1000).collect();
    assert_eq!(times, vec![0, 1, 2, 3]);
}

#[test]
fn request_without_credit_is_rejected_when_the_wait_runs_out() {
    let config = config(&[("RATE_LIMIT_BURST", "0"), ("RATE_LIMIT_TIMEOUT", "30")]);
    let outcomes = arrive_at_once(&config, 3);
    for (admitted, at) in outcomes {
        assert!(!admitted);
        assert_eq!(at, 30_000);
    }
}

#[test]
fn requests_beyond_what_the_wait_allows_are_rejected() {
    let config = config(&[("RATE_LIMIT_BURST", "2"), ("RATE_LIMIT_TIMEOUT", "2")]);
    let outcomes = arrive_at_once(&config, 6);
    let admitted = outcomes.iter().filter(|(admitted, _)| *admitted).count();
    assert!(admitted >= 3 && admitted <= 4, "admitted {}", admitted);
    for (admitted, at) in outcomes {
        assert!(at <= 2000);
        if !admitted {
            assert_eq!(at, 2000);
        }
    }
}

#[test]
fn abandoned_wait_takes_no_credit() {
    let config = config(&[("RATE_LIMIT_BURST", "1")]);
    let limiter = config.rate_limiter().unwrap();
    paused().block_on(async move {
        limiter.acquire(1).await;
        let gave_up =
            tokio::time::timeout(Duration::from_millis(500), limiter.acquire(1)).await.is_err();
        assert!(gave_up);
        tokio::time::sleep(Duration::from_millis(600)).await;
        assert!(limiter.try_acquire(1));
        assert!(!limiter.try_acquire(1));
    });
}
