//! The command line's rules: which command an argument list selects, what it
//! lacks, and the display name a gist's file is published under.
use vstd::prelude::*;

verus! {

/// The commands the tool offers.
#[derive(Debug, Clone, Copy, PartialEq, Eq, Structural)]
pub enum CommandKind {
    Gist,
    ListRepos,
    StoreRepos,
    RepoStats,
}

/// A command with its arguments.
#[derive(Debug)]
pub enum Command {
    /// Publish the file at `path` as a snippet.
    Gist { path: String, description: String, public: bool },
    /// Print every repository as `name: url`.
    ListRepos,
    /// Write every repository into the key-value store.
    StoreRepos,
    /// Print one repository's statistics.
    RepoStats { owner: String, repo: String },
}

/// What an argument list asks for.
#[derive(Debug)]
pub enum Request {
    /// Print the usage text and succeed.
    Help,
    /// Run a command.
    Run(Command),
}

/// Why an argument list cannot be run.
#[derive(Debug, Clone, Copy, PartialEq, Eq, Structural)]
pub enum CliError {
    /// The credential variable is not set.
    MissingCredential,
    /// No command, or one the tool does not know.
    UnknownCommand,
    /// The command lacks arguments it needs.
    NotEnoughArguments(CommandKind),
}

/// The word that selects each command.
pub open spec fn command_word(k: CommandKind) -> Seq<char> {
    match k {
        CommandKind::Gist => "gist"@,
        CommandKind::ListRepos => "list-repos"@,
        CommandKind::StoreRepos => "store-repos"@,
        CommandKind::RepoStats => "repo-stats"@,
    }
}

/// How many free arguments, the command word included, a command needs.
pub open spec fn needed_args(k: CommandKind) -> nat {
    match k {
        CommandKind::Gist | CommandKind::RepoStats => 3,
        CommandKind::ListRepos | CommandKind::StoreRepos => 1,
    }
}

/// The command that the free arguments select, if any.
pub open spec fn selected(free: Seq<Seq<char>>) -> Option<CommandKind> {
    if free.len() == 0 {
        None
    } else if free[0] == command_word(CommandKind::Gist) {
        Some(CommandKind::Gist)
    } else if free[0] == command_word(CommandKind::ListRepos) {
        Some(CommandKind::ListRepos)
    } else if free[0] == command_word(CommandKind::StoreRepos) {
        Some(CommandKind::StoreRepos)
    } else if free[0] == command_word(CommandKind::RepoStats) {
        Some(CommandKind::RepoStats)
    } else {
        None
    }
}

/// Whether a command, in view, is `kind` with the free arguments `free`
/// (and, for a gist, the visibility `public`).
pub open spec fn command_matches(c: Command, kind: CommandKind, free: Seq<Seq<char>>, public: bool) -> bool {
    match c {
        Command::Gist { path, description, public: p } => {
            &&& kind == CommandKind::Gist
            &&& path@ == free[1]
            &&& description@ == free[2]
            &&& p == public
        },
        Command::ListRepos => kind == CommandKind::ListRepos,
        Command::StoreRepos => kind == CommandKind::StoreRepos,
        Command::RepoStats { owner, repo } => {
            &&& kind == CommandKind::RepoStats
            &&& owner@ == free[1]
            &&& repo@ == free[2]
        },
    }
}

/// The views of the free arguments.
pub open spec fn args_view(free: Seq<String>) -> Seq<Seq<char>> {
    free.map_values(|s: String| s@)
}

/// Whether `word` is `name`.
fn is_word(word: &String, name: &str) -> (r: bool)
    ensures
        r == (word@ == name@),
{
    let name = name.to_owned();
    *word == name
}

/// Decides what an argument list asks for, given its free arguments, its
/// `--help` and `--private` flags and whether the credential is set.
///
/// Help comes first; every command needs the credential, which is checked
/// before the command word, so that nothing is attempted without it; `gist`
/// and `repo-stats` need two arguments after the word; a gist is public
/// unless `--private` is given.
pub fn dispatch(free: &Vec<String>, help: bool, private: bool, has_credential: bool) -> (r: Result<
    Request,
    CliError,
>)
    ensures
        help ==> r matches Ok(Request::Help),
        !help && !has_credential ==> r == Err::<Request, CliError>(CliError::MissingCredential),
        !help && has_credential ==> match selected(args_view(free@)) {
            None => r == Err::<Request, CliError>(CliError::UnknownCommand),
            Some(kind) => if free@.len() < needed_args(kind) {
                r == Err::<Request, CliError>(CliError::NotEnoughArguments(kind))
            } else {
                r matches Ok(Request::Run(c)) && command_matches(
                    c,
                    kind,
                    args_view(free@),
                    !private,
                )
            },
        },
{
    if help {
        return Ok(Request::Help);
    }
    if !has_credential {
        return Err(CliError::MissingCredential);
    }
    proof {
        reveal_strlit("gist");
        reveal_strlit("list-repos");
        reveal_strlit("store-repos");
        reveal_strlit("repo-stats");
    }
    let ghost args = args_view(free@);
    if free.len() == 0 {
        return Err(CliError::UnknownCommand);
    }
    let word = &free[0];
    assert(args[0] == word@);
    if is_word(word, "gist") {
        if free.len() < 3 {
            return Err(CliError::NotEnoughArguments(CommandKind::Gist));
        }
        assert(args[1] == free@[1]@ && args[2] == free@[2]@);
        Ok(
            Request::Run(
                Command::Gist {
                    path: free[1].clone(),
                    description: free[2].clone(),
                    public: !private,
                },
            ),
        )
    } else if is_word(word, "list-repos") {
        Ok(Request::Run(Command::ListRepos))
    } else if is_word(word, "store-repos") {
        Ok(Request::Run(Command::StoreRepos))
    } else if is_word(word, "repo-stats") {
        if free.len() < 3 {
            return Err(CliError::NotEnoughArguments(CommandKind::RepoStats));
        }
        assert(args[1] == free@[1]@ && args[2] == free@[2]@);
        Ok(Request::Run(Command::RepoStats { owner: free[1].clone(), repo: free[2].clone() }))
    } else {
        Err(CliError::UnknownCommand)
    }
}

/// The length of `s[..n]` once the `/` characters that end it are dropped.
pub open spec fn trimmed_len(s: Seq<char>, n: int) -> int
    decreases n,
{
    if n <= 0 {
        0
    } else if s[n - 1] == '/' {
        trimmed_len(s, n - 1)
    } else {
        n
    }
}

/// Where the segment of `s[..n]` after its last `/` starts.
pub open spec fn segment_start(s: Seq<char>, n: int) -> int
    decreases n,
{
    if n <= 0 {
        0
    } else if s[n - 1] == '/' {
        n
    } else {
        segment_start(s, n - 1)
    }
}

/// The last component of a `/`-separated path, trailing `/` ignored.
pub open spec fn last_component(path: Seq<char>) -> Seq<char> {
    let end = trimmed_len(path, path.len() as int);
    path.subrange(segment_start(path, end), end)
}

/// The name a file at `path` is published under: its last component, or the
/// whole path where that component is empty, `.` or `..`.
pub open spec fn display_name_of(path: Seq<char>) -> Seq<char> {
    let c = last_component(path);
    if c.len() == 0 || c == seq!['.'] || c == seq!['.', '.'] {
        path
    } else {
        c
    }
}

/// The name a file at `path` is published under, its directories stripped:
/// `a/b/notes.txt` becomes `notes.txt`.
pub fn display_name(path: &str) -> (r: String)
    ensures
        r@ == display_name_of(path@),
{
    let n = path.unicode_len();
    let mut end: usize = n;
    while end > 0 && path.get_char(end - 1) == '/'
        invariant
            end <= n,
            n == path@.len(),
            trimmed_len(path@, n as int) == trimmed_len(path@, end as int),
        decreases end,
    {
        end = end - 1;
    }
    assert(trimmed_len(path@, end as int) == end);
    let mut start: usize = end;
    while start > 0 && path.get_char(start - 1) != '/'
        invariant
            start <= end,
            end <= n,
            n == path@.len(),
            segment_start(path@, end as int) == segment_start(path@, start as int),
        decreases start,
    {
        start = start - 1;
    }
    assert(segment_start(path@, start as int) == start);
    let component = path.substring_char(start, end);
    let len = end - start;
    let dots = if len == 1 {
        path.get_char(start) == '.'
    } else if len == 2 {
        path.get_char(start) == '.' && path.get_char(start + 1) == '.'
    } else {
        false
    };
    proof {
        let c = component@;
        if len == 1 && c[0] == '.' {
            assert(c =~= seq!['.']);
        }
        if len == 2 && c[0] == '.' && c[1] == '.' {
            assert(c =~= seq!['.', '.']);
        }
        if c == seq!['.'] {
            assert(c.len() == 1 && c[0] == '.');
        }
        if c == seq!['.', '.'] {
            assert(c.len() == 2 && c[0] == '.' && c[1] == '.');
        }
    }
    if len == 0 || dots {
        path.to_owned()
    } else {
        component.to_owned()
    }
}

} // verus!
