use vstd::prelude::*;

use crate::text::{concat, flatten_separators, join_path, joined_path, replace_separators};

verus! {

/// The service's configuration.
#[derive(Debug)]
pub struct Config {
    pub claude_binary_path: String,
    pub http_listen_address: String,
    pub claude_projects_dir: String,
    pub shutdown_timeout: std::time::Duration,
}

/// The span of a whole number of seconds, as std's `Duration::from_secs` makes it.
pub uninterp spec fn secs_duration(secs: u64) -> std::time::Duration;

/// A span of whole seconds (std `Duration::from_secs`). Trusted: the span is the one std makes
/// of `secs` alone; `Duration` is opaque here, so nothing more is said of it.
#[verifier::external_body]
pub(crate) fn duration_from_secs(secs: u64) -> (res: std::time::Duration)
    ensures
        res == secs_duration(secs),
{
    std::time::Duration::from_secs(secs)
}

pub open spec fn is_digit(c: char) -> bool {
    '0' <= c && c <= '9'
}

/// The number that a string of decimal digits denotes.
pub open spec fn digits_value(s: Seq<char>) -> nat
    decreases s.len(),
{
    if s.len() == 0 {
        0
    } else {
        digits_value(s.drop_last()) * 10 + ((s.last() as u32) - ('0' as u32)) as nat
    }
}

/// What `str::parse::<u64>` gives: an optional `+`, then one or more decimal digits whose
/// value fits in 64 bits.
pub open spec fn parsed_u64(s: Seq<char>) -> Option<u64> {
    parsed_u64_digits(if s.len() > 0 && s[0] == '+' { s.drop_first() } else { s })
}

proof fn lemma_digits_grow(d: Seq<char>, i: int)
    requires
        0 <= i <= d.len(),
        forall|k: int| 0 <= k < d.len() ==> is_digit(#[trigger] d[k]),
    ensures
        digits_value(d.take(i)) <= digits_value(d),
    decreases d.len() - i,
{
    if i < d.len() {
        lemma_digits_grow(d, i + 1);
        assert(d.take(i + 1).drop_last() =~= d.take(i));
    } else {
        assert(d.take(i) =~= d);
    }
}

/// Reads a number as `str::parse::<u64>` does.
pub fn parse_u64(s: &str) -> (res: Option<u64>)
    ensures
        res == parsed_u64(s@),
{
    let n = s.unicode_len();
    let start: usize = if n > 0 && s.get_char(0) == '+' { 1 } else { 0 };
    let ghost d = if s@.len() > 0 && s@[0] == '+' { s@.drop_first() } else { s@ };
    assert(d =~= s@.skip(start as int));
    assert(parsed_u64(s@) == parsed_u64_digits(d));
    if start >= n {
        return None;
    }
    let mut acc: u64 = 0;
    let mut i: usize = start;
    while i < n
        invariant
            n == s@.len(),
            start <= i <= n,
            d =~= s@.skip(start as int),
            d == (if s@.len() > 0 && s@[0] == '+' { s@.drop_first() } else { s@ }),
            parsed_u64(s@) == parsed_u64_digits(d),
            forall|k: int| 0 <= k < i - start ==> is_digit(#[trigger] d[k]),
            acc as nat == digits_value(d.take(i - start)),
        decreases n - i,
    {
        let c = s.get_char(i);
        assert(d[i - start] == c);
        if !('0' <= c && c <= '9') {
            return None;
        }
        let digit = (c as u32 - '0' as u32) as u64;
        assert(d.take(i - start + 1).drop_last() =~= d.take(i - start));
        assert(d.take(i - start + 1).last() == c);
        match acc.checked_mul(10) {
            Some(m) => match m.checked_add(digit) {
                Some(a) => {
                    acc = a;
                },
                None => {
                    proof {
                        lemma_overflow_stays(d, i - start + 1);
                    }
                    return None;
                },
            },
            None => {
                proof {
                    lemma_overflow_stays(d, i - start + 1);
                }
                return None;
            },
        }
        i = i + 1;
    }
    assert(d.take(n - start) =~= d);
    Some(acc)
}

/// Once a prefix of digits is too large, so is every longer run of digits it begins, or a
/// later character is not a digit.
proof fn lemma_overflow_stays(d: Seq<char>, j: int)
    requires
        0 < j <= d.len(),
        digits_value(d.take(j)) > u64::MAX,
    ensures
        parsed_u64_digits(d) is None,
{
    if forall|k: int| 0 <= k < d.len() ==> is_digit(#[trigger] d[k]) {
        lemma_digits_grow(d, j);
    }
}

/// `parsed_u64` after the sign.
pub open spec fn parsed_u64_digits(d: Seq<char>) -> Option<u64> {
    if d.len() > 0 && (forall|i: int| 0 <= i < d.len() ==> is_digit(#[trigger] d[i])) && digits_value(d) <= u64::MAX {
        Some(digits_value(d) as u64)
    } else {
        None
    }
}

/// The seconds of the shutdown timeout: the given text (30 where none is given), read as a
/// number; anything else is refused.
pub fn parse_shutdown_timeout(value: &Option<String>) -> (res: Result<u64, String>)
    ensures
        match value {
            Some(v) => match res {
                Ok(n) => parsed_u64(v@) == Some(n),
                Err(m) => parsed_u64(v@) is None && m@ == "Invalid SHUTDOWN_TIMEOUT value"@,
            },
            None => res == Ok::<u64, String>(30),
        },
{
    match value {
        Some(v) => match parse_u64(v.as_str()) {
            Some(n) => Ok(n),
            None => Err("Invalid SHUTDOWN_TIMEOUT value".to_owned()),
        },
        None => Ok(30),
    }
}

/// Whether a path is relative (std `Path::is_relative` on Unix: it does not start at the root).
pub open spec fn is_relative_path(p: Seq<char>) -> bool {
    p.len() == 0 || p[0] != '/'
}

pub fn is_relative(path: &str) -> (res: bool)
    ensures
        res == is_relative_path(path@),
{
    path.unicode_len() == 0 || path.get_char(0) != '/'
}

/// The listen address: the given one, or `127.0.0.1:3000`.
pub fn listen_address(value: Option<String>) -> (res: String)
    ensures
        match value {
            Some(v) => res == v,
            None => res@ == "127.0.0.1:3000"@,
        },
{
    match value {
        Some(v) => v,
        None => "127.0.0.1:3000".to_owned(),
    }
}

/// The projects directory: the given one, or `projects` under the agent's configuration
/// directory.
pub fn projects_dir(value: Option<String>, config_dir: &Option<String>) -> (res: String)
    requires
        value is Some || config_dir is Some,
    ensures
        match value {
            Some(v) => res == v,
            None => res@ == joined_path(config_dir->Some_0@, "projects"@),
        },
{
    match value {
        Some(v) => v,
        None => {
            let d = match config_dir {
                Some(d) => d,
                None => {
                    assert(false);
                    return String::new();
                },
            };
            proof {
                reveal_strlit("projects");
            }
            join_path(d.as_str(), "projects")
        },
    }
}

/// A place where the agent's command may be found on the `PATH`: the candidate path and what
/// the file system says of it.
#[derive(Debug)]
pub struct PathCandidate {
    pub path: String,
    pub exists: bool,
    /// The permission bits of the file, or the text of the error reading them.
    pub mode: Result<u32, String>,
}

/// Whether a permission mode lets someone execute the file.
pub open spec fn executable_mode(mode: u32) -> bool {
    mode & 0o111u32 != 0
}

/// The path of a command (a bare name) in a directory of the `PATH`.
pub fn candidate_path(dir: &str, command: &str) -> (res: String)
    requires
        command@.len() == 0 || command@[0] != '/',
    ensures
        res@ == joined_path(dir@, command@),
{
    join_path(dir, command)
}

/// Finds the agent's command on the `PATH`: the first candidate that exists and is executable. Reading
/// the permissions of an existing candidate can fail, and that error ends the search.
pub fn find_claude_in_path(candidates: &Vec<PathCandidate>) -> (res: Result<String, String>)
    ensures
        match res {
            Ok(p) => exists|k: int| 0 <= k < candidates@.len() && p@ == candidates@[k].path@
                && candidates@[k].exists && candidates@[k].mode is Ok && executable_mode(candidates@[k].mode->Ok_0)
                && forall|j: int| 0 <= j < k ==> !(#[trigger] candidates@[j]).exists
                    || (candidates@[j].mode is Ok && !executable_mode(candidates@[j].mode->Ok_0)),
            Err(m) => (m@ == "Agent binary not found in PATH"@
                    && forall|j: int| 0 <= j < candidates@.len() ==> !(#[trigger] candidates@[j]).exists
                        || (candidates@[j].mode is Ok && !executable_mode(candidates@[j].mode->Ok_0)))
                || exists|k: int| 0 <= k < candidates@.len() && candidates@[k].exists
                    && candidates@[k].mode is Err && m@ == candidates@[k].mode->Err_0@
                    && forall|j: int| 0 <= j < k ==> !(#[trigger] candidates@[j]).exists
                        || (candidates@[j].mode is Ok && !executable_mode(candidates@[j].mode->Ok_0)),
        },
{
    let mut i: usize = 0;
    while i < candidates.len()
        invariant
            0 <= i <= candidates@.len(),
            forall|j: int| 0 <= j < i ==> !(#[trigger] candidates@[j]).exists
                || (candidates@[j].mode is Ok && !executable_mode(candidates@[j].mode->Ok_0)),
        decreases candidates@.len() - i,
    {
        let c = &candidates[i];
        if c.exists {
            match &c.mode {
                Err(e) => {
                    return Err(e.clone());
                },
                Ok(mode) => {
                    if *mode & 0o111u32 != 0 {
                        return Ok(c.path.clone());
                    }
                },
            }
        }
        i = i + 1;
    }
    Err("Agent binary not found in PATH".to_owned())
}

/// The error of the binary lookup when `CLAUDE_BINARY_PATH` is not set.
pub fn binary_lookup_error() -> (res: String)
    ensures
        res@ == "CLAUDE_BINARY_PATH not set and agent binary not found in PATH"@,
{
    "CLAUDE_BINARY_PATH not set and agent binary not found in PATH".to_owned()
}

/// The error of a relative binary path that could not be resolved.
pub fn resolve_error(path: &str) -> (res: String)
    ensures
        res@ == "Failed to resolve relative path: "@ + path@,
{
    concat("Failed to resolve relative path: ", path)
}

/// What the file system says of the configured paths.
#[derive(Debug)]
pub struct ConfigFacts {
    pub binary_exists: bool,
    /// The permission bits of the binary, or the text of the error reading them.
    pub binary_mode: Result<u32, String>,
    pub projects_exists: bool,
    pub projects_is_dir: bool,
    pub projects_readable: bool,
}

/// What validating the configuration gives: nothing, or the first error's message.
pub open spec fn validation(binary: Seq<char>, projects: Seq<char>, f: ConfigFacts) -> Result<(), Seq<char>> {
    if !f.binary_exists {
        Err("Agent binary not found at: "@ + binary)
    } else if f.binary_mode is Err {
        Err(f.binary_mode->Err_0@)
    } else if !executable_mode(f.binary_mode->Ok_0) {
        Err("Agent binary is not executable: "@ + binary)
    } else if !f.projects_exists {
        Err("Agent projects directory does not exist: "@ + projects)
    } else if !f.projects_is_dir {
        Err("Agent projects directory is not a directory: "@ + projects)
    } else if !f.projects_readable {
        Err("Cannot read agent projects directory: "@ + projects)
    } else {
        Ok(())
    }
}

impl Config {
    /// A configuration from its parts; the shutdown timeout is in whole seconds.
    pub fn new(claude_binary_path: String, http_listen_address: String, claude_projects_dir: String, shutdown_secs: u64) -> (res: Config)
        ensures
            res.claude_binary_path == claude_binary_path,
            res.http_listen_address == http_listen_address,
            res.claude_projects_dir == claude_projects_dir,
            res.shutdown_timeout == secs_duration(shutdown_secs),
    {
        Config { claude_binary_path, http_listen_address, claude_projects_dir, shutdown_timeout: duration_from_secs(shutdown_secs) }
    }

    /// A copy of this configuration.
    pub fn duplicate(&self) -> (res: Config)
        ensures
            res.claude_binary_path@ == self.claude_binary_path@,
            res.http_listen_address@ == self.http_listen_address@,
            res.claude_projects_dir@ == self.claude_projects_dir@,
            res.shutdown_timeout == self.shutdown_timeout,
    {
        Config {
            claude_binary_path: self.claude_binary_path.clone(),
            http_listen_address: self.http_listen_address.clone(),
            claude_projects_dir: self.claude_projects_dir.clone(),
            shutdown_timeout: self.shutdown_timeout,
        }
    }

    /// Validates the configuration against what the file system says: the binary exists and
    /// is executable, and the projects directory exists, is a directory and can be read.
    pub fn validate(&self, facts: &ConfigFacts) -> (res: Result<(), String>)
        ensures
            match res {
                Ok(()) => validation(self.claude_binary_path@, self.claude_projects_dir@, *facts) is Ok,
                Err(m) => validation(self.claude_binary_path@, self.claude_projects_dir@, *facts) == Err::<(), Seq<char>>(m@),
            },
    {
        if !facts.binary_exists {
            return Err(concat("Agent binary not found at: ", self.claude_binary_path.as_str()));
        }
        match &facts.binary_mode {
            Err(e) => {
                return Err(e.clone());
            },
            Ok(mode) => {
                if *mode & 0o111u32 == 0 {
                    return Err(concat("Agent binary is not executable: ", self.claude_binary_path.as_str()));
                }
            },
        }
        if !facts.projects_exists {
            return Err(concat("Agent projects directory does not exist: ", self.claude_projects_dir.as_str()));
        }
        if !facts.projects_is_dir {
            return Err(concat("Agent projects directory is not a directory: ", self.claude_projects_dir.as_str()));
        }
        if !facts.projects_readable {
            return Err(concat("Cannot read agent projects directory: ", self.claude_projects_dir.as_str()));
        }
        Ok(())
    }

    /// The directory of a working directory's sessions: the working directory with `/`, `\`
    /// and `:` turned into `_`, joined onto the projects directory.
    pub fn get_project_dir(&self, working_dir: &str) -> (res: String)
        ensures
            res@ == joined_path(self.claude_projects_dir@, flatten_separators(working_dir@)),
    {
        let name = replace_separators(working_dir);
        proof {
            if name@.len() > 0 {
                assert(name@[0] == flatten_separators(working_dir@)[0]);
            }
        }
        join_path(self.claude_projects_dir.as_str(), name.as_str())
    }
}


/// How the agent binary was looked up.
#[derive(Debug)]
pub enum BinaryLookup {
    /// `CLAUDE_BINARY_PATH` gave this path (made absolute where it was relative).
    Given(String),
    /// `CLAUDE_BINARY_PATH` gave this relative path, and it could not be made absolute.
    Unresolved(String),
    /// `CLAUDE_BINARY_PATH` is not set and the `PATH` search found this path.
    Found(String),
    /// `CLAUDE_BINARY_PATH` is not set and the `PATH` search failed.
    NotFound,
}

pub open spec fn lookup_ok(b: BinaryLookup) -> bool {
    b is Given || b is Found
}

impl Config {
    /// Puts the configuration together from the settings (before it is validated): the binary
    /// as looked up, the listen address (`127.0.0.1:3000` by default), the projects directory
    /// (`projects` under the agent's configuration directory by default) and the shutdown
    /// timeout (30 seconds by default).
    pub fn from_settings(binary: BinaryLookup, listen: Option<String>, projects: Option<String>, config_dir: Option<String>, timeout: Option<String>) -> (res: Result<Config, String>)
        requires
            !lookup_ok(binary) || projects is Some || config_dir is Some,
        ensures
            match binary {
                BinaryLookup::Unresolved(p) => res is Err && res->Err_0@ == "Failed to resolve relative path: "@ + p@,
                BinaryLookup::NotFound => res is Err && res->Err_0@ == "CLAUDE_BINARY_PATH not set and agent binary not found in PATH"@,
                BinaryLookup::Given(p) | BinaryLookup::Found(p) => match timeout {
                    Some(t) if parsed_u64(t@) is None => res is Err && res->Err_0@ == "Invalid SHUTDOWN_TIMEOUT value"@,
                    _ => res is Ok && res->Ok_0.claude_binary_path == p
                        && res->Ok_0.http_listen_address@ == (match listen { Some(l) => l@, None => "127.0.0.1:3000"@ })
                        && res->Ok_0.claude_projects_dir@ == (match projects {
                            Some(d) => d@,
                            None => joined_path(config_dir->Some_0@, "projects"@),
                        })
                        && res->Ok_0.shutdown_timeout == secs_duration(match timeout {
                            Some(t) => parsed_u64(t@)->Some_0,
                            None => 30u64,
                        }),
                },
            },
    {
        let path = match binary {
            BinaryLookup::Given(p) => p,
            BinaryLookup::Found(p) => p,
            BinaryLookup::Unresolved(p) => {
                return Err(resolve_error(p.as_str()));
            },
            BinaryLookup::NotFound => {
                return Err(binary_lookup_error());
            },
        };
        let address = listen_address(listen);
        let dir = projects_dir(projects, &config_dir);
        let secs = match parse_shutdown_timeout(&timeout) {
            Ok(n) => n,
            Err(m) => {
                return Err(m);
            },
        };
        Ok(Config::new(path, address, dir, secs))
    }
}

} // verus!
