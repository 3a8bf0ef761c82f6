//! Merging a repository's metadata with its community health metrics.
use vstd::prelude::*;

verus! {

/// The largest health percentage the service can report.
pub const MAX_HEALTH: u64 = 100;

/// Why a repository's statistics could not be assembled.
#[derive(Debug, Clone, PartialEq, Eq, Structural)]
pub enum StatsError {
    /// The service reported a health percentage above 100.
    HealthOutOfRange(u64),
}

/// The name shown for a repository whose metadata carries no full name:
/// `owner/repo`.
pub open spec fn fallback_full_name(owner: Seq<char>, repo: Seq<char>) -> Seq<char> {
    owner + seq!['/'] + repo
}

/// What the merged statistics of one repository are: the full name (or
/// `owner/repo`), the star count (or 0), and the health percentage, which must
/// lie in 0..=100.
pub open spec fn stats_spec(
    owner: Seq<char>,
    repo: Seq<char>,
    full_name: Option<Seq<char>>,
    stars: Option<u32>,
    health: u64,
) -> Result<(Seq<char>, u32, u8), StatsError> {
    if health > MAX_HEALTH {
        Err(StatsError::HealthOutOfRange(health))
    } else {
        Ok(
            (
                match full_name {
                    Some(n) => n,
                    None => fallback_full_name(owner, repo),
                },
                match stars {
                    Some(s) => s,
                    None => 0u32,
                },
                health as u8,
            ),
        )
    }
}

/// The view of a merge result, with its strings as character sequences.
pub open spec fn stats_view(r: Result<(String, u32, u8), StatsError>) -> Result<
    (Seq<char>, u32, u8),
    StatsError,
> {
    match r {
        Ok((n, s, h)) => Ok((n@, s, h)),
        Err(e) => Err(e),
    }
}

/// Builds `owner/repo`.
pub fn join_full_name(owner: &str, repo: &str) -> (r: String)
    ensures
        r@ == fallback_full_name(owner@, repo@),
{
    let mut name = owner.to_owned();
    name.append("/");
    name.append(repo);
    proof {
        reveal_strlit("/");
    }
    name
}

/// Merges a repository's metadata (its full name and star count, each of
/// which the service may omit) with its health percentage.
///
/// A missing full name becomes `owner/repo`, a missing star count becomes 0,
/// and a health percentage above 100 is an error rather than being clamped.
pub fn merge_repo_stats(
    owner: &str,
    repo: &str,
    full_name: Option<String>,
    stars: Option<u32>,
    health: u64,
) -> (r: Result<(String, u32, u8), StatsError>)
    ensures
        stats_view(r) == stats_spec(
            owner@,
            repo@,
            match full_name {
                Some(n) => Some(n@),
                None => None,
            },
            stars,
            health,
        ),
{
    if health > MAX_HEALTH {
        return Err(StatsError::HealthOutOfRange(health));
    }
    let name = match full_name {
        Some(n) => n,
        None => join_full_name(owner, repo),
    };
    let count = match stars {
        Some(s) => s,
        None => 0,
    };
    Ok((name, count, health as u8))
}

} // verus!
