//! The lines the tool prints for its results.
use vstd::prelude::*;

verus! {

/// The character of a decimal digit.
pub open spec fn digit_char(d: nat) -> char {
    seq!['0', '1', '2', '3', '4', '5', '6', '7', '8', '9'][d as int]
}

/// The decimal notation of `n`, without leading zeros.
pub open spec fn decimal(n: nat) -> Seq<char>
    decreases n,
{
    if n < 10 {
        seq![digit_char(n)]
    } else {
        decimal(n / 10).push(digit_char(n % 10))
    }
}

fn digit_str(d: u32) -> (r: &'static str)
    requires
        d < 10,
    ensures
        r@ == seq![digit_char(d as nat)],
{
    proof {
        reveal_strlit("0");
        reveal_strlit("1");
        reveal_strlit("2");
        reveal_strlit("3");
        reveal_strlit("4");
        reveal_strlit("5");
        reveal_strlit("6");
        reveal_strlit("7");
        reveal_strlit("8");
        reveal_strlit("9");
    }
    let r = match d {
        0 => "0",
        1 => "1",
        2 => "2",
        3 => "3",
        4 => "4",
        5 => "5",
        6 => "6",
        7 => "7",
        8 => "8",
        _ => "9",
    };
    assert(r@ =~= seq![digit_char(d as nat)]);
    r
}

/// The decimal notation of `n`.
pub fn decimal_string(n: u32) -> (r: String)
    ensures
        r@ == decimal(n as nat),
    decreases n,
{
    if n < 10 {
        digit_str(n).to_owned()
    } else {
        let mut s = decimal_string(n / 10);
        s.append(digit_str(n % 10));
        s
    }
}

/// The line printed for one repository: `name: url`.
pub open spec fn repo_line_of(name: Seq<char>, url: Seq<char>) -> Seq<char> {
    name + ": "@ + url
}

/// The line printed for one repository: `name: url`.
pub fn repo_line(name: &str, url: &str) -> (r: String)
    ensures
        r@ == repo_line_of(name@, url@),
{
    let mut line = name.to_owned();
    line.append(": ");
    line.append(url);
    line
}

/// The sentence printed for a repository's statistics:
/// `{full_name} has {stars} stars and {health}% health percentage`.
pub open spec fn stats_line_of(full_name: Seq<char>, stars: nat, health: nat) -> Seq<char> {
    full_name + " has "@ + decimal(stars) + " stars and "@ + decimal(health)
        + "% health percentage"@
}

/// The sentence printed for a repository's statistics.
pub fn stats_line(full_name: &str, stars: u32, health: u8) -> (r: String)
    ensures
        r@ == stats_line_of(full_name@, stars as nat, health as nat),
{
    let mut line = full_name.to_owned();
    line.append(" has ");
    let count = decimal_string(stars);
    line.append(count.as_str());
    line.append(" stars and ");
    let percent = decimal_string(health as u32);
    line.append(percent.as_str());
    line.append("% health percentage");
    line
}

} // verus!
