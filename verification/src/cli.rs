//! The proxy's command line: the parsed arguments and the `KEY=VALUE` parser
//! for environment variables.
use vstd::prelude::*;
use crate::text::{chars_of, push_chars, push_str_chars, string_from_chars};

verus! {

/// The parsed command line.
#[derive(Debug, PartialEq, Eq)]
pub struct Cli {
    /// Enable verbose logging.
    pub verbose: bool,
    pub command: Commands,
}

/// What the proxy is asked to do.
#[derive(Debug, PartialEq, Eq)]
pub enum Commands {
    /// Spawn the MCP server via standard input/output.
    Stdio {
        /// Environment variables to pass to the server.
        envs: Vec<(String, String)>,
        /// The executable command to run the MCP server.
        server_command: String,
        /// Arguments and flags to pass to the server command.
        server_args: Vec<String>,
    },
    /// Reach the MCP server over HTTP.
    Http { host: String, port: u16 },
}

/// The message for an argument that is not of the form `KEY=VALUE`.
pub open spec fn env_format_message(s: Seq<char>) -> Seq<char> {
    "Environment variables must be in 'KEY=VALUE' format. Got: '"@ + s + "'"@
}

/// Splits `KEY=VALUE` at its first `=`; fails when there is none.
pub fn parse_env_var(s: &str) -> (r: Result<(String, String), String>)
    ensures
        r is Ok <==> s@.contains('='),
        r matches Ok((key, value)) ==> !key@.contains('=') && key@ + seq!['='] + value@ == s@,
        r matches Err(m) ==> m@ == env_format_message(s@),
{
    let cs = chars_of(s);
    let n = cs.len();
    let mut p: usize = 0;
    while p < n && cs[p] != '='
        invariant
            p <= n,
            n == cs@.len(),
            forall|i: int| 0 <= i < p ==> cs@[i] != '=',
        decreases n - p,
    {
        p = p + 1;
    }
    if p == n {
        let mut msg: Vec<char> = Vec::new();
        push_str_chars(&mut msg, "Environment variables must be in 'KEY=VALUE' format. Got: '");
        push_chars(&mut msg, &cs);
        push_str_chars(&mut msg, "'");
        assert(!s@.contains('='));
        return Err(string_from_chars(msg.as_slice()));
    }
    let mut key: Vec<char> = Vec::new();
    let mut k: usize = 0;
    while k < p
        invariant
            k <= p < n,
            n == cs@.len(),
            key@ == cs@.take(k as int),
        decreases p - k,
    {
        key.push(cs[k]);
        k = k + 1;
        assert(key@ =~= cs@.take(k as int));
    }
    let mut value: Vec<char> = Vec::new();
    let mut k2: usize = p + 1;
    while k2 < n
        invariant
            p < k2 <= n,
            n == cs@.len(),
            value@ == cs@.subrange(p + 1, k2 as int),
        decreases n - k2,
    {
        value.push(cs[k2]);
        k2 = k2 + 1;
        assert(value@ =~= cs@.subrange(p + 1, k2 as int));
    }
    assert(s@[p as int] == '=');
    assert(key@ + seq!['='] + value@ =~= s@);
    assert(!key@.contains('=')) by {
        if key@.contains('=') {
            let i = choose|i: int| 0 <= i < key@.len() && key@[i] == '=';
            assert(cs@[i] == '=');
        }
    }
    Ok((string_from_chars(key.as_slice()), string_from_chars(value.as_slice())))
}

} // verus!
