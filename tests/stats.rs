use ghutil::stats::{join_full_name, merge_repo_stats, StatsError};

#[test]
fn missing_full_name_and_stars_fall_back() {
    let r = merge_repo_stats("acme", "widget", None, None, 42);
    assert_eq!(r, Ok(("acme/widget".to_string(), 0, 42)));
}

#[test]
fn given_metadata_is_kept() {
    let r = merge_repo_stats("acme", "widget", Some("Acme/Widget".to_string()), Some(17), 100);
    assert_eq!(r, Ok(("Acme/Widget".to_string(), 17, 100)));
}

#[test]
fn health_above_hundred_fails() {
    let r = merge_repo_stats("acme", "widget", None, Some(3), 101);
    assert_eq!(r, Err(StatsError::HealthOutOfRange(101)));
    let r = merge_repo_stats("acme", "widget", None, Some(3), 300);
    assert_eq!(r, Err(StatsError::HealthOutOfRange(300)));
}

#[test]
fn health_zero_is_accepted() {
    let r = merge_repo_stats("o", "r", None, Some(5), 0);
    assert_eq!(r, Ok(("o/r".to_string(), 5, 0)));
}

#[test]
fn full_name_joins_owner_and_repo() {
    assert_eq!(join_full_name("acme", "widget"), "acme/widget");
    assert_eq!(join_full_name("", ""), "/");
}
