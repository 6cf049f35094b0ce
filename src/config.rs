//! The settings a session runs with.
use vstd::prelude::*;
use crate::text::{join_from, join_spec, push_str, string_of, strings_chars, strings_view};

verus! {

/// Settings of a session: server address, throttle, rooms to join, avatar,
/// command prefixes of plugins, and whether commands ignore case.
pub struct Config {
    pub host: String,
    pub port: String,
    pub throttle_ms: u64,
    pub rooms: Vec<String>,
    pub avatar: u64,
    pub plugin_prefixes: Vec<String>,
    pub case_insensitive: bool,
}

impl Config {
    /// A pattern that matches any one of the command prefixes at the start
    /// of a text: `^(` then the prefixes joined by `|`, then `)`.
    pub fn prefix_string(&self) -> (r: String)
        ensures
            r@ == seq!['^', '('] + join_spec(strings_view(self.plugin_prefixes@), seq!['|'])
                + seq![')'],
    {
        let parts = strings_chars(&self.plugin_prefixes);
        let mut out: Vec<char> = Vec::new();
        out.push('^');
        out.push('(');
        let mut joined = join_from(&parts, 0, '|');
        assert(strings_view(self.plugin_prefixes@).subrange(0, parts@.len() as int)
            =~= strings_view(self.plugin_prefixes@));
        out.append(&mut joined);
        out.push(')');
        string_of(out.as_slice())
    }
}

/// The server used when none is configured.
pub fn default_host() -> (r: String)
    ensures
        r@ == "sim.smogon.com"@,
{
    let mut out: Vec<char> = Vec::new();
    push_str(&mut out, "sim.smogon.com");
    string_of(out.as_slice())
}

/// The port used when none is configured.
pub fn default_port() -> (r: String)
    ensures
        r@ == "8000"@,
{
    let mut out: Vec<char> = Vec::new();
    push_str(&mut out, "8000");
    string_of(out.as_slice())
}

/// The pause after each sent frame, in milliseconds, when none is
/// configured.
pub fn default_mps() -> (r: u64)
    ensures
        r == 333,
{
    333
}

} // verus!
