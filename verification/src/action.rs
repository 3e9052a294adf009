//! Actions: the external commands the controller can fire.
//!
//! A command is configured as one string and split on whitespace once, at
//! startup: the first token is the program, the rest are its arguments. A
//! string with no token yields no action and is rejected, since there would
//! be nothing to run.

use vstd::prelude::*;

verus! {

/// ASCII whitespace: the separators of a command string.
pub open spec fn is_ws(c: char) -> bool {
    c == ' ' || c == '\t' || c == '\n' || c == '\r' || c == '\u{b}' || c == '\u{c}'
}

fn is_ws_exec(c: char) -> (b: bool)
    ensures
        b == is_ws(c),
{
    c == ' ' || c == '\t' || c == '\n' || c == '\r' || c == '\u{b}' || c == '\u{c}'
}

/// Length of the leading run of non-whitespace characters.
pub open spec fn run_len(s: Seq<char>) -> nat
    decreases s.len(),
{
    if s.len() == 0 || is_ws(s[0]) {
        0
    } else {
        (1 + run_len(s.drop_first())) as nat
    }
}

pub proof fn lemma_run_len_bounds(s: Seq<char>)
    ensures
        run_len(s) <= s.len(),
        s.len() > 0 && !is_ws(s[0]) ==> run_len(s) >= 1,
    decreases s.len(),
{
    if s.len() > 0 && !is_ws(s[0]) {
        lemma_run_len_bounds(s.drop_first());
    }
}

/// The whitespace-delimited tokens of a string: its maximal nonempty runs of
/// non-whitespace characters, in order.
pub open spec fn tokens_of(s: Seq<char>) -> Seq<Seq<char>>
    decreases s.len(),
    via tokens_of_decreases
{
    if s.len() == 0 {
        Seq::empty()
    } else if is_ws(s[0]) {
        tokens_of(s.drop_first())
    } else {
        seq![s.take(run_len(s) as int)] + tokens_of(s.skip(run_len(s) as int))
    }
}

#[via_fn]
proof fn tokens_of_decreases(s: Seq<char>) {
    lemma_run_len_bounds(s);
}

/// `run_len` is pinned down by its window: if the first `k` characters are
/// not whitespace and the run stops there, the leading run has length `k`.
proof fn lemma_run_len_is(s: Seq<char>, k: int)
    requires
        0 <= k <= s.len(),
        forall|j: int| 0 <= j < k ==> !is_ws(s[j]),
        k == s.len() || is_ws(s[k]),
    ensures
        run_len(s) == k,
    decreases k,
{
    if k > 0 {
        assert(!is_ws(s[0]));
        lemma_run_len_is(s.drop_first(), k - 1);
    }
}

/// Split a command string into its whitespace-delimited tokens.
pub fn tokenize(s: &str) -> (toks: Vec<String>)
    ensures
        toks.deep_view() == tokens_of(s@),
{
    let n = s.unicode_len();
    let mut toks: Vec<String> = Vec::new();
    let mut i: usize = 0;
    proof {
        assert(s@.skip(0) =~= s@);
        assert(Seq::<Seq<char>>::empty() + tokens_of(s@) =~~= tokens_of(s@));
    }
    while i < n
        invariant
            n == s@.len(),
            i <= n,
            tokens_of(s@) == toks.deep_view() + tokens_of(s@.skip(i as int)),
        decreases n - i,
    {
        if is_ws_exec(s.get_char(i)) {
            proof {
                assert(s@.skip(i as int).drop_first() =~= s@.skip(i + 1));
            }
            i = i + 1;
        } else {
            let start = i;
            i = i + 1;
            while i < n && !is_ws_exec(s.get_char(i))
                invariant
                    n == s@.len(),
                    start < i <= n,
                    forall|k: int| start <= k < i ==> !is_ws(s@[k]),
                decreases n - i,
            {
                i = i + 1;
            }
            proof {
                let t = s@.skip(start as int);
                assert(forall|j: int| 0 <= j < i - start ==> !is_ws(t[j]));
                lemma_run_len_is(t, i - start);
                assert(t.take(i - start) =~= s@.subrange(start as int, i as int));
                assert(t.skip(i - start) =~= s@.skip(i as int));
                assert(tokens_of(t) == seq![s@.subrange(start as int, i as int)]
                    + tokens_of(s@.skip(i as int)));
            }
            let tok = s.substring_char(start, i);
            let ghost pre = toks.deep_view();
            toks.push(tok.to_owned());
            proof {
                assert(toks.deep_view() =~~= pre.push(s@.subrange(start as int, i as int)));
                assert(pre + (seq![s@.subrange(start as int, i as int)]
                    + tokens_of(s@.skip(i as int)))
                    =~~= toks.deep_view() + tokens_of(s@.skip(i as int)));
            }
        }
    }
    proof {
        assert(s@.skip(n as int) =~= Seq::<char>::empty());
        assert(toks.deep_view() + tokens_of(Seq::<char>::empty()) =~~= toks.deep_view());
    }
    toks
}

/// One external command: the program to spawn and its arguments.
#[derive(Debug)]
pub struct ActionSpec {
    pub program: String,
    pub args: Vec<String>,
}

/// The tokens an action was built from: the program first, then each
/// argument in order.
pub open spec fn action_view(a: ActionSpec) -> Seq<Seq<char>> {
    seq![a.program@] + a.args.deep_view()
}

/// Parse a command string into an action: the first token becomes the
/// program, the remaining tokens its arguments. A string with no token
/// yields `None`.
pub fn parse_action(cmd: &str) -> (r: Option<ActionSpec>)
    ensures
        r is Some <==> tokens_of(cmd@).len() > 0,
        r matches Some(a) ==> action_view(a) == tokens_of(cmd@),
{
    let mut toks = tokenize(cmd);
    if toks.len() == 0 {
        proof {
            assert(toks.deep_view().len() == 0);
        }
        None
    } else {
        let program = toks.remove(0);
        let a = ActionSpec { program, args: toks };
        proof {
            assert(action_view(a) =~~= tokens_of(cmd@));
        }
        Some(a)
    }
}

/// Why a configuration was rejected at startup.
#[derive(Clone, Copy, Debug, PartialEq, Eq, Structural)]
pub enum ConfigError {
    /// The launch command string held no token.
    EmptyLaunchCommand,
    /// A closing command string was given but held no token.
    EmptyClosingCommand,
}

/// The runtime configuration: the pattern to watch for, the action to run
/// when detection begins, and optionally one to run when it ends.
#[derive(Debug)]
pub struct Config {
    pub pattern: String,
    pub launch: ActionSpec,
    pub closing: Option<ActionSpec>,
}

/// Build the configuration from the raw command-line values. Fails exactly
/// when a given command string holds no token, and says which one.
pub fn build_config(pattern: String, cmd: &str, closing_cmd: Option<&str>) -> (r: Result<
    Config,
    ConfigError,
>)
    ensures
        r is Ok <==> tokens_of(cmd@).len() > 0 && (closing_cmd matches Some(cc)
            ==> tokens_of(cc@).len() > 0),
        r matches Ok(cfg) ==> {
            &&& cfg.pattern == pattern
            &&& action_view(cfg.launch) == tokens_of(cmd@)
            &&& match closing_cmd {
                Some(cc) => cfg.closing matches Some(ca) && action_view(ca) == tokens_of(cc@),
                None => cfg.closing is None,
            }
        },
        r is Err ==> r == Err::<Config, ConfigError>(
            if tokens_of(cmd@).len() == 0 {
                ConfigError::EmptyLaunchCommand
            } else {
                ConfigError::EmptyClosingCommand
            },
        ),
{
    let launch = match parse_action(cmd) {
        Some(a) => a,
        None => {
            return Err(ConfigError::EmptyLaunchCommand);
        },
    };
    let closing = match closing_cmd {
        Some(cc) => match parse_action(cc) {
            Some(a) => Some(a),
            None => {
                return Err(ConfigError::EmptyClosingCommand);
            },
        },
        None => None,
    };
    Ok(Config { pattern, launch, closing })
}

} // verus!
