use aliyunddns::config::{Mode, Options};
use aliyunddns::engine::{Decision, ErrorAction, ProviderError, UpdateEngine};
use aliyunddns::ip::{parse_ipv4, IpAddress};
use aliyunddns::record::RecordStore;

fn options_for(domains: &str) -> Options {
    let mut options = Options::new(Mode::Cli);
    options.access_key_id = Some("id".to_string());
    options.access_key_secret = Some("secret".to_string());
    options.domains = Options::sqlit_domain(domains);
    options
}

/// A fake provider: a script of outcomes, consumed one call at a time.
struct FakeProvider {
    outcomes: Vec<Result<(), ProviderError>>,
    calls: usize,
}

impl FakeProvider {
    fn new(outcomes: Vec<Result<(), ProviderError>>) -> FakeProvider {
        FakeProvider { outcomes, calls: 0 }
    }

    fn publish(&mut self) -> Result<(), ProviderError> {
        let outcome = self.outcomes[self.calls].clone();
        self.calls += 1;
        outcome
    }
}

/// One tick for one domain, the way the outer loop drives the engine:
/// resolve (here: a fixed address), compare, publish if due, fold the
/// outcome back in. Returns how many provider calls were made.
fn tick_domain(
    engine: &mut UpdateEngine,
    provider: &mut FakeProvider,
    domain: &String,
    resolved: IpAddress,
    now: u64,
) -> usize {
    if !engine.should_process(domain) {
        return 0;
    }
    let mut calls = 0;
    if engine.on_resolved(domain, resolved) == Decision::Publish {
        calls += 1;
        match provider.publish() {
            Ok(()) => engine.on_publish_success(domain, resolved, now),
            Err(e) => {
                match engine.on_publish_error(domain, e) {
                    ErrorAction::Disabled => {}
                    ErrorAction::Retry { delay: _ } => {
                        // single retry after backoff, as the engine asks
                        calls += 1;
                        match provider.publish() {
                            Ok(()) => engine.on_publish_success(domain, resolved, now),
                            Err(e2) => {
                                engine.on_publish_error(domain, e2);
                            }
                        }
                    }
                }
            }
        }
    }
    calls
}

#[test]
fn store_creates_zero_records() {
    let mut store = RecordStore::new();
    let domain = "a.example.com".to_string();
    let record = store.get(&domain);
    assert_eq!(record.domain, domain);
    assert_eq!(record.published, None);
    assert_eq!(record.last_success, 0);
    assert_eq!(record.failures, 0);
    assert!(!record.disabled);
    assert_eq!(store.len(), 1);
    store.get(&domain);
    assert_eq!(store.len(), 1);
}

#[test]
fn store_update_success_and_failure() {
    let mut store = RecordStore::new();
    let domain = "a.example.com".to_string();
    let ip = parse_ipv4("1.2.3.4").unwrap();
    store.update(&domain, ip, true, 42);
    let record = store.get(&domain);
    assert_eq!(record.published, Some(ip));
    assert_eq!(record.last_success, 42);
    assert_eq!(record.failures, 0);

    store.update(&domain, parse_ipv4("9.9.9.9").unwrap(), false, 43);
    let record = store.get(&domain);
    assert_eq!(record.published, Some(ip)); // failed attempt leaves it untouched
    assert_eq!(record.last_success, 42);
    assert_eq!(record.failures, 1);
}

#[test]
fn idempotent_tick_makes_no_call() {
    let mut engine = UpdateEngine::new(options_for("a.example.com"));
    let mut provider = FakeProvider::new(vec![Ok(())]);
    let domain = "a.example.com".to_string();
    let ip = parse_ipv4("1.2.3.4").unwrap();

    assert_eq!(tick_domain(&mut engine, &mut provider, &domain, ip, 1), 1);
    // same address, no outstanding failures: no provider call at all
    assert_eq!(tick_domain(&mut engine, &mut provider, &domain, ip, 2), 0);
    assert_eq!(provider.calls, 1);
}

#[test]
fn two_domains_three_sweeps() {
    let mut engine = UpdateEngine::new(options_for("a.example.com,b.example.com"));
    let a = "a.example.com".to_string();
    let b = "b.example.com".to_string();
    let first = parse_ipv4("1.2.3.4").unwrap();
    let second = parse_ipv4("1.2.3.5").unwrap();

    // first sweep: no records yet, both domains publish
    let mut provider = FakeProvider::new(vec![Ok(()), Ok(()), Ok(()), Ok(())]);
    let calls = tick_domain(&mut engine, &mut provider, &a, first, 1)
        + tick_domain(&mut engine, &mut provider, &b, first, 1);
    assert_eq!(calls, 2);
    assert_eq!(engine.store.get(&a).published, Some(first));
    assert_eq!(engine.store.get(&b).published, Some(first));

    // second sweep, same address: zero provider calls
    let calls = tick_domain(&mut engine, &mut provider, &a, first, 601)
        + tick_domain(&mut engine, &mut provider, &b, first, 601);
    assert_eq!(calls, 0);

    // third sweep, new address: both publish once, records updated
    let calls = tick_domain(&mut engine, &mut provider, &a, second, 1201)
        + tick_domain(&mut engine, &mut provider, &b, second, 1201);
    assert_eq!(calls, 2);
    assert_eq!(engine.store.get(&a).published, Some(second));
    assert_eq!(engine.store.get(&b).published, Some(second));
    assert_eq!(provider.calls, 4);
}

#[test]
fn rate_limited_then_success() {
    let mut engine = UpdateEngine::new(options_for("a.example.com"));
    let domain = "a.example.com".to_string();
    let ip = parse_ipv4("1.2.3.4").unwrap();
    let mut provider = FakeProvider::new(vec![
        Err(ProviderError::RateLimited { retry_after: Some(30) }),
        Ok(()),
    ]);

    let calls = tick_domain(&mut engine, &mut provider, &domain, ip, 9);
    assert_eq!(calls, 2); // exactly two publish calls: the refusal and the retry
    let record = engine.store.get(&domain);
    assert_eq!(record.failures, 0); // the eventual success ends the streak
    assert_eq!(record.published, Some(ip));
    assert_eq!(record.last_success, 9);
}

#[test]
fn rate_limit_hint_seeds_the_delay() {
    let mut engine = UpdateEngine::new(options_for("a.example.com"));
    let domain = "a.example.com".to_string();
    let action = engine.on_publish_error(
        &domain,
        ProviderError::RateLimited { retry_after: Some(30) },
    );
    assert_eq!(action, ErrorAction::Retry { delay: 30 });
    let action = engine.on_publish_error(
        &domain,
        ProviderError::RateLimited { retry_after: Some(30) },
    );
    assert_eq!(action, ErrorAction::Retry { delay: 60 });
}

#[test]
fn transient_failure_keeps_published_address() {
    let mut engine = UpdateEngine::new(options_for("a.example.com"));
    let domain = "a.example.com".to_string();
    let ip = parse_ipv4("1.2.3.4").unwrap();
    let mut provider = FakeProvider::new(vec![
        Ok(()),
        Err(ProviderError::Transient),
        Err(ProviderError::Transient),
    ]);
    tick_domain(&mut engine, &mut provider, &domain, ip, 1);

    let next = parse_ipv4("5.6.7.8").unwrap();
    tick_domain(&mut engine, &mut provider, &domain, next, 601);
    let record = engine.store.get(&domain);
    assert_eq!(record.published, Some(ip)); // never a value from a failed attempt
    assert_eq!(record.failures, 2);
    assert!(!record.disabled);
    assert!(engine.should_process(&domain));
}

#[test]
fn auth_error_disables_only_that_domain() {
    let mut engine = UpdateEngine::new(options_for("a.example.com,b.example.com"));
    let a = "a.example.com".to_string();
    let b = "b.example.com".to_string();
    let ip = parse_ipv4("1.2.3.4").unwrap();
    let mut provider = FakeProvider::new(vec![Err(ProviderError::Auth), Ok(()), Ok(())]);

    // sweep: a hits the fatal auth error, b still publishes
    let calls_a = tick_domain(&mut engine, &mut provider, &a, ip, 1);
    let calls_b = tick_domain(&mut engine, &mut provider, &b, ip, 1);
    assert_eq!((calls_a, calls_b), (1, 1));
    assert!(!engine.should_process(&a));
    assert!(engine.should_process(&b));
    assert_eq!(engine.store.get(&b).published, Some(ip));

    // subsequent sweep: a stays out, b is still processed
    let next = parse_ipv4("1.2.3.5").unwrap();
    let calls_a = tick_domain(&mut engine, &mut provider, &a, next, 601);
    let calls_b = tick_domain(&mut engine, &mut provider, &b, next, 601);
    assert_eq!((calls_a, calls_b), (0, 1));
    assert_eq!(engine.store.get(&a).published, None);
    assert_eq!(engine.store.get(&b).published, Some(next));
}

#[test]
fn sweep_plan_keeps_order_and_skips_disabled() {
    let mut engine = UpdateEngine::new(options_for("c.com,a.com,b.com"));
    assert_eq!(
        engine.sweep_plan(),
        vec!["c.com".to_string(), "a.com".to_string(), "b.com".to_string()]
    );
    engine.on_publish_error(&"a.com".to_string(), ProviderError::Auth);
    assert_eq!(engine.sweep_plan(), vec!["c.com".to_string(), "b.com".to_string()]);
}

#[test]
fn not_found_disables_the_domain() {
    let mut engine = UpdateEngine::new(options_for("a.example.com"));
    let domain = "a.example.com".to_string();
    let action = engine.on_publish_error(&domain, ProviderError::NotFound);
    assert_eq!(action, ErrorAction::Disabled);
    assert!(!engine.should_process(&domain));
}

#[test]
fn resolution_failure_skips_and_continues() {
    let mut engine = UpdateEngine::new(options_for("a.example.com"));
    let domain = "a.example.com".to_string();
    engine.on_resolution_failure(&domain);
    let record = engine.store.get(&domain);
    assert_eq!(record.failures, 1);
    assert!(!record.disabled);
    assert!(engine.should_process(&domain));
    // once an address resolves again, the outstanding failure forces a publish
    let ip = parse_ipv4("1.2.3.4").unwrap();
    assert_eq!(engine.on_resolved(&domain, ip), Decision::Publish);
}
