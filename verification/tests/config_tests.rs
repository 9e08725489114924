use repo_hoarder::config::PoolConfig;
use repo_hoarder::listing::listing_url;
use repo_hoarder::listing::ACCEPT;
use repo_hoarder::listing::USER_AGENT;

#[test]
fn new_keeps_the_settings() {
    let config = PoolConfig::new(4, true);
    assert_eq!(config.concurrency, 4);
    assert!(config.recursive);
    assert!(config.is_valid());
}

#[test]
fn zero_concurrency_is_not_valid() {
    assert!(!PoolConfig::new(0, false).is_valid());
    assert!(PoolConfig::new(1, false).is_valid());
}

#[test]
fn with_default_prefers_the_request() {
    assert_eq!(PoolConfig::with_default(Some(3), 8, false), PoolConfig::new(3, false));
    assert_eq!(PoolConfig::with_default(Some(0), 8, true), PoolConfig::new(0, true));
}

#[test]
fn with_default_falls_back_to_the_host() {
    assert_eq!(PoolConfig::with_default(None, 8, true), PoolConfig::new(8, true));
}

#[test]
fn detect_takes_a_request_as_it_is() {
    assert_eq!(PoolConfig::detect(Some(5), true), PoolConfig::new(5, true));
    assert_eq!(PoolConfig::detect(Some(0), false), PoolConfig::new(0, false));
}

#[test]
fn detect_without_a_request_uses_the_host_parallelism() {
    let config = PoolConfig::detect(None, false);
    assert!(config.concurrency >= 1);
    assert!(config.is_valid());
    assert!(!config.recursive);
    assert_eq!(config.concurrency, num_cpus::get());
}

#[test]
fn listing_of_a_user() {
    assert_eq!(listing_url("alice", false), "https://codeberg.org/api/v1/users/alice/repos");
}

#[test]
fn listing_of_an_organization() {
    assert_eq!(listing_url("forgejo", true), "https://codeberg.org/api/v1/orgs/forgejo/repos");
}

#[test]
fn listing_takes_the_name_as_it_comes() {
    assert_eq!(listing_url("", false), "https://codeberg.org/api/v1/users//repos");
    assert_eq!(listing_url("a/b c", true), "https://codeberg.org/api/v1/orgs/a/b c/repos");
}

#[test]
fn listing_is_requested_as_json() {
    assert_eq!(ACCEPT, "application/json");
    assert_eq!(USER_AGENT, "Coderberg-Repo-Hoarder");
}
