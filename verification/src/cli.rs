//! The user's declarative process specification and the parsed command-line
//! surface.

use vstd::prelude::*;

use crate::error::RpmError;
use crate::text::{concat2, str_to_chars};

verus! {

/// One parsed subcommand of the command-line client.
pub enum Commands {
    Start {
        command: String,
        name: Option<String>,
        cwd: Option<String>,
        instances: u32,
        autorestart: bool,
        max_memory: Option<u64>,
        env: Vec<String>,
    },
    Stop { name: String },
    Restart { name: String },
    Delete { name: String },
    List,
    Logs { name: String, lines: usize, follow: bool },
    Show { name: String },
    Monitor,
    Daemon { foreground: bool },
    Kill,
    Reload { name: String },
    Save,
    Resurrect,
    Status,
}

/// The parsed command line: exactly one subcommand.
pub struct Cli {
    pub command: Commands,
}

/// The mathematical shape of a `ProcessConfig`.
pub ghost struct ProcessConfigV {
    pub name: Seq<char>,
    pub command: Seq<char>,
    pub cwd: Option<Seq<char>>,
    pub instances: u32,
    pub autorestart: bool,
    pub max_memory: Option<u64>,
    pub env: Seq<(Seq<char>, Seq<char>)>,
}

/// The user's declarative specification of one managed process.
#[derive(Debug, Clone, PartialEq)]
pub struct ProcessConfig {
    /// Non-empty identifier, unique within the roster; derived from the
    /// command when the user omits it.
    pub name: String,
    /// Shell command line, executed through the host shell.
    pub command: String,
    /// Optional working directory.
    pub cwd: Option<String>,
    /// Reserved for horizontal fan-out; carried but not fanned out.
    pub instances: u32,
    /// Auto-restart policy flag.
    pub autorestart: bool,
    /// Optional soft memory cap in MiB.
    pub max_memory: Option<u64>,
    /// Ordered environment overrides.
    pub env: Vec<(String, String)>,
}

impl View for ProcessConfig {
    type V = ProcessConfigV;

    open spec fn view(&self) -> ProcessConfigV {
        ProcessConfigV {
            name: self.name@,
            command: self.command@,
            cwd: match self.cwd {
                Some(ref c) => Some(c@),
                None => None,
            },
            instances: self.instances,
            autorestart: self.autorestart,
            max_memory: self.max_memory,
            env: Seq::new(self.env@.len(), |i: int| (self.env@[i].0@, self.env@[i].1@)),
        }
    }
}

// ---------------------------------------------------------------------------
// Deriving the name from the command line
// ---------------------------------------------------------------------------

pub open spec fn is_space(c: char) -> bool {
    c == ' ' || c == '\t' || c == '\n' || c == '\r'
}

/// The leading run of non-space characters of `s`.
pub open spec fn token_prefix(s: Seq<char>) -> Seq<char>
    decreases s.len(),
{
    if s.len() > 0 && !is_space(s[0]) {
        seq![s[0]] + token_prefix(s.drop_first())
    } else {
        Seq::empty()
    }
}

/// The first whitespace-separated token of `s` (empty if there is none).
pub open spec fn first_token(s: Seq<char>) -> Seq<char>
    decreases s.len(),
{
    if s.len() == 0 {
        Seq::empty()
    } else if is_space(s[0]) {
        first_token(s.drop_first())
    } else {
        token_prefix(s)
    }
}

/// The name an omitted `--name` falls back to: the command's first token,
/// or `unknown` if the command is all whitespace.
pub open spec fn derived_name(cmd: Seq<char>) -> Seq<char> {
    if first_token(cmd).len() == 0 {
        "unknown"@
    } else {
        first_token(cmd)
    }
}

proof fn lemma_first_token_skip(s: Seq<char>, b: int)
    requires
        0 <= b <= s.len(),
        forall|j: int| 0 <= j < b ==> is_space(#[trigger] s[j]),
    ensures
        first_token(s) == first_token(s.skip(b)),
    decreases b,
{
    if b > 0 {
        assert(is_space(s[0]));
        lemma_first_token_skip(s.drop_first(), b - 1);
        assert(s.drop_first().skip(b - 1) =~= s.skip(b));
    } else {
        assert(s.skip(0) =~= s);
    }
}

proof fn lemma_token_prefix_exact(s: Seq<char>, k: int)
    requires
        0 <= k <= s.len(),
        forall|j: int| 0 <= j < k ==> !is_space(#[trigger] s[j]),
        k == s.len() || is_space(s[k]),
    ensures
        token_prefix(s) == s.take(k),
    decreases k,
{
    if k == 0 {
        assert(s.take(0) =~= Seq::<char>::empty());
    } else {
        lemma_token_prefix_exact(s.drop_first(), k - 1);
        assert(s.drop_first().take(k - 1) =~= s.take(k).drop_first());
        assert(seq![s[0]] + s.take(k).drop_first() =~= s.take(k));
    }
}

/// Tell whether `c` is one of the four whitespace characters the token
/// derivation recognises.
fn is_space_char(c: char) -> (r: bool)
    ensures
        r == is_space(c),
{
    c == ' ' || c == '\t' || c == '\n' || c == '\r'
}

/// The first whitespace-separated token of `s`, or `unknown` when `s` holds
/// no token.
pub fn derive_name(s: &str) -> (r: String)
    ensures
        r@ == derived_name(s@),
{
    let chars = str_to_chars(s);
    let n = chars.len();
    let mut b: usize = 0;
    while b < n && is_space_char(chars[b])
        invariant
            0 <= b <= n,
            n == s@.len(),
            chars@ == s@,
            forall|j: int| 0 <= j < b ==> is_space(#[trigger] s@[j]),
        decreases n - b,
    {
        b = b + 1;
    }
    let mut t: usize = b;
    while t < n && !is_space_char(chars[t])
        invariant
            b <= t <= n,
            n == s@.len(),
            chars@ == s@,
            forall|j: int| b <= j < t ==> !is_space(#[trigger] s@[j]),
        decreases n - t,
    {
        t = t + 1;
    }
    proof {
        lemma_first_token_skip(s@, b as int);
        let tail = s@.skip(b as int);
        assert(forall|j: int|
            0 <= j < t - b ==> #[trigger] tail[j] == s@[b + j] && !is_space(s@[b + j]));
        if (t as int) < n {
            assert(tail[t - b] == s@[t as int]);
        }
        lemma_token_prefix_exact(tail, t - b);
        if b < n {
            assert(!is_space(tail[0]));
            assert(first_token(tail) == token_prefix(tail));
        } else {
            assert(tail.len() == 0);
        }
        assert(tail.take(t - b) =~= s@.subrange(b as int, t as int));
    }
    if t == b {
        let r = String::from_str("unknown");
        proof {
            assert(first_token(s@).len() == 0);
        }
        r
    } else {
        let tok = s.substring_char(b, t);
        String::from_str(tok)
    }
}

// ---------------------------------------------------------------------------
// Environment overrides
// ---------------------------------------------------------------------------

/// Split one `KEY=VALUE` override at its first `=`; nothing when no `=` is
/// present.
pub open spec fn split_env(e: Seq<char>) -> Option<(Seq<char>, Seq<char>)>
    decreases e.len(),
{
    if e.len() == 0 {
        None
    } else if e[0] == '=' {
        Some((Seq::empty(), e.drop_first()))
    } else {
        match split_env(e.drop_first()) {
            None => None,
            Some((k, v)) => Some((seq![e[0]] + k, v)),
        }
    }
}

pub open spec fn env_ok(e: Seq<char>) -> bool {
    split_env(e) is Some
}

proof fn lemma_split_env_at(e: Seq<char>, i: int)
    requires
        0 <= i < e.len(),
        e[i] == '=',
        forall|j: int| 0 <= j < i ==> e[j] != '=',
    ensures
        split_env(e) == Some((e.take(i), e.skip(i + 1))),
    decreases i,
{
    if i == 0 {
        assert(e.take(0) =~= Seq::<char>::empty());
        assert(e.skip(1) =~= e.drop_first());
    } else {
        assert(e[0] != '=');
        let d = e.drop_first();
        assert(d[i - 1] == e[i]);
        assert(forall|j: int| 0 <= j < i - 1 ==> #[trigger] d[j] == e[j + 1] && e[j + 1] != '=');
        lemma_split_env_at(d, i - 1);
        assert(seq![e[0]] + d.take(i - 1) =~= e.take(i));
        assert(d.skip(i) =~= e.skip(i + 1));
    }
}

proof fn lemma_split_env_none(e: Seq<char>)
    requires
        forall|j: int| 0 <= j < e.len() ==> e[j] != '=',
    ensures
        split_env(e) is None,
    decreases e.len(),
{
    if e.len() > 0 {
        lemma_split_env_none(e.drop_first());
    }
}

/// Split one `KEY=VALUE` override into its pair, or report which override
/// was malformed.
fn split_env_entry(e: &str) -> (r: Option<(String, String)>)
    ensures
        match r {
            Some((k, v)) => split_env(e@) == Some((k@, v@)),
            None => split_env(e@) is None,
        },
{
    let chars = str_to_chars(e);
    let n = chars.len();
    let mut i: usize = 0;
    while i < n && chars[i] != '='
        invariant
            0 <= i <= n,
            n == e@.len(),
            chars@ == e@,
            forall|j: int| 0 <= j < i ==> e@[j] != '=',
        decreases n - i,
    {
        i = i + 1;
    }
    if i == n {
        proof {
            lemma_split_env_none(e@);
        }
        return None;
    }
    proof {
        lemma_split_env_at(e@, i as int);
        assert(e@.subrange(0, i as int) =~= e@.take(i as int));
        assert(e@.subrange(i + 1, n as int) =~= e@.skip(i + 1));
    }
    let k = e.substring_char(0, i);
    let v = e.substring_char(i + 1, n);
    Some((String::from_str(k), String::from_str(v)))
}

/// The split pairs of a sequence of well-formed overrides.
pub open spec fn env_pairs(envs: Seq<Seq<char>>) -> Seq<(Seq<char>, Seq<char>)> {
    Seq::new(envs.len(), |i: int| split_env(envs[i])->Some_0)
}

/// The view of a vector of override strings.
pub open spec fn env_strings_view(env: Vec<String>) -> Seq<Seq<char>> {
    Seq::new(env@.len(), |i: int| env@[i]@)
}

impl ProcessConfig {
    /// Build a `ProcessConfig` from the command-line pieces. The name falls
    /// back to the command's first token; each `KEY=VALUE` override is split
    /// at its first `=`, and the first override without a `=` is rejected as
    /// a configuration error.
    pub fn from_args(
        command: String,
        name: Option<String>,
        cwd: Option<String>,
        instances: u32,
        autorestart: bool,
        max_memory: Option<u64>,
        env: Vec<String>,
    ) -> (r: Result<Self, RpmError>)
        ensures
            (r is Ok) <==> (forall|i: int|
                0 <= i < env@.len() ==> env_ok(#[trigger] env@[i]@)),
            r matches Ok(c) ==> {
                &&& c@.name == match name {
                    Some(ref n) => n@,
                    None => derived_name(command@),
                }
                &&& c@.command == command@
                &&& c@.cwd == match cwd {
                    Some(ref d) => Some(d@),
                    None => None::<Seq<char>>,
                }
                &&& c@.instances == instances
                &&& c@.autorestart == autorestart
                &&& c@.max_memory == max_memory
                &&& c@.env == env_pairs(env_strings_view(env))
            },
            r matches Err(e) ==> {
                &&& e matches RpmError::Config(m) && exists|i: int|
                    {
                        &&& 0 <= i < env@.len()
                        &&& !env_ok(env@[i]@)
                        &&& (forall|j: int| 0 <= j < i ==> env_ok(#[trigger] env@[j]@))
                        &&& m@ == "Invalid env format: "@ + env@[i]@
                    }
            },
    {
        let name: String = match name {
            Some(n) => n,
            None => derive_name(command.as_str()),
        };
        let mut env_vars: Vec<(String, String)> = Vec::new();
        let mut i: usize = 0;
        while i < env.len()
            invariant
                0 <= i <= env@.len(),
                forall|j: int| 0 <= j < i ==> env_ok(#[trigger] env@[j]@),
                env_vars@.len() == i,
                forall|j: int|
                    0 <= j < i ==> (#[trigger] env_vars@[j].0@, env_vars@[j].1@) == split_env(
                        env@[j]@,
                    )->Some_0,
            decreases env@.len() - i,
        {
            match split_env_entry(env[i].as_str()) {
                Some((k, v)) => {
                    env_vars.push((k, v));
                },
                None => {
                    let msg = concat2("Invalid env format: ", env[i].as_str());
                    return Err(RpmError::Config(msg));
                },
            }
            i = i + 1;
        }
        let c = ProcessConfig { name, command, cwd, instances, autorestart, max_memory, env: env_vars };
        proof {
            assert(c@.env =~= env_pairs(env_strings_view(env)));
        }
        Ok(c)
    }
}

} // verus!
