use std::str::FromStr;

use aliyunddns::backoff::{backoff_delay, BACKOFF_CAP_FACTOR, DEFAULT_BACKOFF_FLOOR};
use aliyunddns::config::{ConfigError, Mode, Options};
use aliyunddns::resolver::{resolve_from_answers, ResolutionError};
use aliyunddns::scheduler::Scheduler;

fn valid_options() -> Options {
    let mut options = Options::new(Mode::Cli);
    options.access_key_id = Some("id".to_string());
    options.access_key_secret = Some("secret".to_string());
    options.domains = Options::sqlit_domain("a.example.com,b.example.com");
    options
}

#[test]
fn defaults() {
    let options = Options::new(Mode::Env);
    assert_eq!(options.access_key_id, None);
    assert_eq!(options.access_key_secret, None);
    assert_eq!(options.region_id, "cn-hangzhou");
    assert!(options.domains.is_empty());
    assert_eq!(options.period, 600);
    assert_eq!(options.ttl, 600);
    assert_eq!(options.mode, Mode::Env);
}

#[test]
fn verify_accepts_valid() {
    assert_eq!(valid_options().verify(), Ok(()));
}

#[test]
fn verify_reports_first_violation() {
    let mut options = valid_options();
    options.access_key_id = None;
    assert_eq!(options.verify(), Err(ConfigError::MissingAccessKeyId));

    let mut options = valid_options();
    options.access_key_secret = None;
    assert_eq!(options.verify(), Err(ConfigError::MissingAccessKeySecret));

    let mut options = valid_options();
    options.period = 0;
    assert_eq!(options.verify(), Err(ConfigError::NonPositivePeriod));

    let mut options = valid_options();
    options.ttl = 0;
    assert_eq!(options.verify(), Err(ConfigError::NonPositiveTtl));

    let mut options = valid_options();
    options.domains = Vec::new();
    assert_eq!(options.verify(), Err(ConfigError::EmptyDomainList));

    let mut options = valid_options();
    options.domains = vec!["a.example.com".to_string(), "".to_string()];
    assert_eq!(options.verify(), Err(ConfigError::EmptyDomainName));
}

#[test]
fn mode_from_str() {
    assert_eq!(Mode::from_str("cli"), Ok(Mode::Cli));
    assert_eq!(Mode::from_str("env"), Ok(Mode::Env));
    assert_eq!(Mode::from_str("docker"), Ok(Mode::Docker));
    assert!(Mode::from_str("CLI").is_err());
    assert!(Mode::from_str("").is_err());
}

#[test]
fn backoff_doubles_from_floor() {
    assert_eq!(DEFAULT_BACKOFF_FLOOR, 30);
    assert_eq!(backoff_delay(1, None, 600), 30);
    assert_eq!(backoff_delay(2, None, 600), 60);
    assert_eq!(backoff_delay(3, None, 600), 120);
}

#[test]
fn backoff_seeds_from_hint() {
    assert_eq!(backoff_delay(1, Some(45), 600), 45);
    assert_eq!(backoff_delay(2, Some(45), 600), 90);
}

#[test]
fn backoff_is_capped_and_monotone() {
    let cap = 10 * BACKOFF_CAP_FACTOR; // period 10 seconds
    let mut previous = 0;
    for failures in 1..40u32 {
        let delay = backoff_delay(failures, None, 10);
        assert!(delay >= previous);
        assert!(delay <= cap);
        previous = delay;
    }
    assert_eq!(backoff_delay(30, None, 10), cap);
    assert_eq!(backoff_delay(1, Some(1_000_000), 10), cap);
}

#[test]
fn scheduler_runs_at_startup_then_every_period() {
    let mut scheduler = Scheduler::new(600);
    assert!(scheduler.due(1000));
    scheduler.begin(1000);
    assert!(!scheduler.due(5000)); // still running: skipped, not queued
    scheduler.finish();
    assert!(!scheduler.due(1599));
    assert!(scheduler.due(1600));
    assert!(!scheduler.due(900)); // clock moved backwards: wait
}

#[test]
fn resolver_picks_first_valid_source() {
    let answers = vec![
        None,
        Some("not an address".to_string()),
        Some("1.2.3.4".to_string()),
        Some("5.6.7.8".to_string()),
    ];
    let resolved = resolve_from_answers(&answers, 77).unwrap();
    assert_eq!(resolved.source, 2);
    assert_eq!(resolved.timestamp, 77);
    assert_eq!((resolved.ip.a, resolved.ip.b, resolved.ip.c, resolved.ip.d), (1, 2, 3, 4));
}

#[test]
fn resolver_first_wins_over_later_valid() {
    let answers = vec![Some("9.9.9.9".to_string()), Some("1.1.1.1".to_string())];
    let resolved = resolve_from_answers(&answers, 0).unwrap();
    assert_eq!(resolved.source, 0);
    assert_eq!(resolved.ip.a, 9);
}

#[test]
fn resolver_error_kinds() {
    let none: Vec<Option<String>> = Vec::new();
    assert_eq!(resolve_from_answers(&none, 0), Err(ResolutionError::NoSources));
    assert_eq!(
        resolve_from_answers(&vec![None, None], 0),
        Err(ResolutionError::AllSourcesFailed)
    );
    assert_eq!(
        resolve_from_answers(&vec![None, Some("nope".to_string())], 0),
        Err(ResolutionError::MalformedResponse)
    );
}
