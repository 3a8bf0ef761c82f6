use ghutil::persist::{Persistor, StoreAction, WriteOutcome, REPOS_HASH};
use std::collections::HashMap;

fn records(n: usize) -> Vec<(String, String)> {
    (1..=n).map(|i| (format!("repo{i}"), format!("https://github.com/o/repo{i}"))).collect()
}

/// Runs the persistor against an in-memory hash; the write numbered
/// `fail_at` (from 1) fails. Returns the fields written in call order and the
/// result.
fn run_store(
    repos: Vec<(String, String)>,
    hash: &mut HashMap<String, String>,
    fail_at: Option<usize>,
) -> (Vec<String>, Result<(), String>) {
    let mut p = Persistor::new(repos);
    let mut calls = Vec::new();
    loop {
        match p.next_action() {
            StoreAction::Upsert(field, value) => {
                calls.push(field.clone());
                if Some(calls.len()) == fail_at {
                    p.record(WriteOutcome::WriteFailed("connection reset".to_string()));
                } else {
                    hash.insert(field, value);
                    p.record(WriteOutcome::Written);
                }
            }
            StoreAction::Finished => return (calls, Ok(())),
            StoreAction::Abort(e) => return (calls, Err(e)),
        }
    }
}

#[test]
fn hash_name() {
    assert_eq!(REPOS_HASH, "github_repos");
}

#[test]
fn three_records_three_upserts_in_order() {
    let mut hash = HashMap::new();
    let (calls, r) = run_store(records(3), &mut hash, None);
    assert_eq!(r, Ok(()));
    assert_eq!(calls, vec!["repo1", "repo2", "repo3"]);
    assert_eq!(hash.len(), 3);
    assert_eq!(hash["repo2"], "https://github.com/o/repo2");
}

#[test]
fn failed_second_upsert_keeps_first_and_skips_third() {
    let mut hash = HashMap::new();
    let (calls, r) = run_store(records(3), &mut hash, Some(2));
    assert_eq!(r, Err("connection reset".to_string()));
    assert_eq!(calls, vec!["repo1", "repo2"]);
    assert_eq!(hash.len(), 1);
    assert_eq!(hash["repo1"], "https://github.com/o/repo1");
}

#[test]
fn empty_list_writes_nothing() {
    let mut hash = HashMap::new();
    let (calls, r) = run_store(vec![], &mut hash, None);
    assert_eq!(r, Ok(()));
    assert!(calls.is_empty());
    let p = Persistor::new(vec![]);
    assert!(p.is_finished());
}

#[test]
fn upsert_overwrites_existing_field() {
    let mut hash = HashMap::new();
    hash.insert("repo1".to_string(), "old".to_string());
    let (_, r) = run_store(records(1), &mut hash, None);
    assert_eq!(r, Ok(()));
    assert_eq!(hash["repo1"], "https://github.com/o/repo1");
}
