//! Command plugins: a matcher compiled from the configured prefixes, the
//! command name and the number of arguments, and a per-user cooldown.
use vstd::prelude::*;
use crate::config::Config;
use crate::helpers::normalize;
use crate::table::Table;
use crate::target::Target;
use crate::message::Message;
use crate::text::{join_from, join_spec, push_str, string_of, views};

verus! {

/// A character that has a meaning in a regular expression.
pub open spec fn is_meta(c: char) -> bool {
    c == '\\' || c == '.' || c == '+' || c == '*' || c == '?' || c == '(' || c == ')' || c == '|'
        || c == '[' || c == ']' || c == '{' || c == '}' || c == '^' || c == '$' || c == '#'
        || c == '&' || c == '-' || c == '~'
}

/// `s` with a backslash before each meta character, so that a regular
/// expression reads it literally.
pub open spec fn escape_spec(s: Seq<char>) -> Seq<char>
    decreases s.len(),
{
    if s.len() == 0 {
        Seq::empty()
    } else if is_meta(s.last()) {
        escape_spec(s.drop_last()) + seq!['\\', s.last()]
    } else {
        escape_spec(s.drop_last()).push(s.last())
    }
}

/// Relies on `regex::escape`: it puts a backslash before each character
/// that `regex_syntax::is_meta_character` names, and copies the others.
#[verifier::external_body]
fn escape(s: &str) -> (r: String)
    ensures
        r@ == escape_spec(s@),
{
    regex::escape(s)
}

/// What compiling `pattern` with `regex::Regex::new` and testing `text`
/// with `is_match` gives: `None` when the pattern does not compile.
pub uninterp spec fn regex_outcome(pattern: Seq<char>, text: Seq<char>) -> Option<bool>;

/// Relies on `regex::Regex::new` and `regex::Regex::is_match`: whether the
/// compiled pattern matches somewhere in `text`; the outcome depends on the
/// two texts alone.
#[verifier::external_body]
pub(crate) fn regex_test(pattern: &str, text: &str) -> (r: Option<bool>)
    ensures
        r == regex_outcome(pattern@, text@),
{
    match regex::Regex::new(pattern) {
        Ok(re) => Some(re.is_match(text)),
        Err(_) => None,
    }
}

/// The texts of capture groups; `None` for a group that took no part.
pub open spec fn groups_view(v: Seq<Option<String>>) -> Seq<Option<Seq<char>>> {
    v.map_values(
        |g: Option<String>|
            match g {
                Some(s) => Some(s@),
                None => None,
            },
    )
}

/// What `regex::Regex::captures` gives for `text` under the compiled
/// `pattern`: every group, the whole match first; `None` when the pattern
/// does not compile or does not match.
pub uninterp spec fn regex_groups_of(pattern: Seq<char>, text: Seq<char>) -> Option<
    Seq<Option<Seq<char>>>,
>;

/// Relies on `regex::Regex::new`, `Regex::captures` and `Captures::iter`:
/// the groups of the first match; the outcome depends on the two texts
/// alone.
#[verifier::external_body]
pub(crate) fn regex_groups(pattern: &str, text: &str) -> (r: Option<Vec<Option<String>>>)
    ensures
        match r {
            Some(v) => regex_groups_of(pattern@, text@) == Some(groups_view(v@)),
            None => regex_groups_of(pattern@, text@) is None,
        },
{
    let re = regex::Regex::new(pattern).ok()?;
    let caps = re.captures(text)?;
    let mut out = Vec::new();
    for g in caps.iter() {
        match g {
            Some(m) => out.push(Some(m.as_str().to_owned())),
            None => out.push(None),
        }
    }
    Some(out)
}

/// The text of a group, empty when it took no part.
pub open spec fn group_text(g: Option<Seq<char>>) -> Seq<char> {
    match g {
        Some(t) => t,
        None => Seq::empty(),
    }
}

/// The argument groups of a command: the groups after the outer group and
/// the prefix group; none when the matcher does not match.
pub open spec fn arguments_spec(text: Seq<char>, pattern: Seq<char>) -> Seq<Seq<char>> {
    match regex_groups_of(pattern, text) {
        Some(g) => if g.len() > 2 {
            g.subrange(2, g.len() as int).map_values(|x: Option<Seq<char>>| group_text(x))
        } else {
            Seq::empty()
        },
        None => Seq::empty(),
    }
}

/// The texts of the groups of `text` under a command matcher `pattern`,
/// from the prefix group on; none when it does not match.
pub fn arguments(text: &str, pattern: &str) -> (r: Vec<String>)
    ensures
        r@.map_values(|s: String| s@) == arguments_spec(text@, pattern@),
{
    let mut out: Vec<String> = Vec::new();
    match regex_groups(pattern, text) {
        None => {
            assert(out@.map_values(|s: String| s@) =~= arguments_spec(text@, pattern@));
        },
        Some(groups) => {
            let ghost g = groups_view(groups@);
            if groups.len() > 2 {
                let mut i: usize = 2;
                while i < groups.len()
                    invariant
                        2 <= i <= groups.len(),
                        g == groups_view(groups@),
                        out@.map_values(|s: String| s@) =~= g.subrange(2, i as int).map_values(
                            |x: Option<Seq<char>>| group_text(x),
                        ),
                    decreases groups.len() - i,
                {
                    let t = match &groups[i] {
                        Some(s) => s.clone(),
                        None => String::new(),
                    };
                    assert(t@ == group_text(g[i as int]));
                    let ghost prev = out@;
                    out.push(t);
                    assert(out@.map_values(|s: String| s@) =~= prev.map_values(|s: String| s@).push(t@));
                    assert(g.subrange(2, i + 1).map_values(|x: Option<Seq<char>>| group_text(x))
                        =~= g.subrange(2, i as int).map_values(|x: Option<Seq<char>>| group_text(x)).push(
                        group_text(g[i as int]),
                    ));
                    i = i + 1;
                }
            } else {
                assert(out@.map_values(|s: String| s@) =~= arguments_spec(text@, pattern@));
            }
        },
    }
    out
}

/// `s` repeated `n` times.
pub open spec fn repeat(s: Seq<char>, n: nat) -> Seq<char>
    decreases n,
{
    if n == 0 {
        Seq::empty()
    } else {
        repeat(s, (n - 1) as nat) + s
    }
}

/// The argument part of a matcher: nothing for no argument; one group that
/// takes the rest of the text for one; else a first and a last group that
/// take anything, and interior groups without commas, all after a comma and
/// whitespace but the first, which follows whitespace.
pub open spec fn args_spec(n: nat) -> Seq<char> {
    if n == 0 {
        Seq::empty()
    } else if n == 1 {
        "\\s+(.+)"@
    } else {
        "\\s+(.+)"@ + repeat(",\\s+([^,]+)"@, (n - 2) as nat) + ",\\s+(.+)"@
    }
}

/// The matcher for `command` with `n` arguments: anchored at both ends, one
/// of the escaped prefixes, the escaped command, then the arguments; with an
/// inline case-insensitive flag when commands ignore case.
pub open spec fn pattern_spec(
    prefixes: Seq<Seq<char>>,
    command: Seq<char>,
    n: nat,
    case_insensitive: bool,
) -> Seq<char> {
    let flags = if case_insensitive {
        "(?i)"@
    } else {
        Seq::empty()
    };
    let pre = join_spec(prefixes.map_values(|p: Seq<char>| escape_spec(p)), seq!['|']);
    let head = "^("@ + flags + "("@ + pre + ")"@ + escape_spec(command);
    if n == 0 {
        head + ")$"@
    } else {
        head + args_spec(n) + "$)"@
    }
}

/// The escaped prefixes joined by `|`.
fn prefix_alternatives(prefixes: &Vec<String>) -> (r: Vec<char>)
    ensures
        r@ == join_spec(
            prefixes@.map_values(|p: String| p@).map_values(|p: Seq<char>| escape_spec(p)),
            seq!['|'],
        ),
{
    let ghost ps = prefixes@.map_values(|p: String| p@);
    let ghost pres = ps.map_values(|p: Seq<char>| escape_spec(p));
    let mut escaped: Vec<Vec<char>> = Vec::new();
    let mut i: usize = 0;
    while i < prefixes.len()
        invariant
            i <= prefixes.len(),
            ps == prefixes@.map_values(|p: String| p@),
            pres == ps.map_values(|p: Seq<char>| escape_spec(p)),
            views(escaped@) =~= pres.take(i as int),
        decreases prefixes.len() - i,
    {
        let e = escape(prefixes[i].as_str());
        let mut cs: Vec<char> = Vec::new();
        push_str(&mut cs, e.as_str());
        assert(cs@ =~= e@);
        let ghost prev = escaped@;
        escaped.push(cs);
        assert(views(escaped@) =~= views(prev).push(cs@));
        assert(pres.take(i + 1) =~= pres.take(i as int).push(escape_spec(ps[i as int])));
        i = i + 1;
    }
    assert(pres.take(pres.len() as int) =~= pres);
    assert(views(escaped@).subrange(0, escaped@.len() as int) =~= views(escaped@));
    join_from(&escaped, 0, '|')
}

/// The argument part of a matcher for `n` arguments.
fn args_pattern(n: i8) -> (r: Vec<char>)
    requires
        n >= 1,
    ensures
        r@ == args_spec(n as nat),
{
    let mut out: Vec<char> = Vec::new();
    push_str(&mut out, "\\s+(.+)");
    if n > 1 {
        let mut k: i8 = 0;
        let ghost base = out@;
        while k < n - 2
            invariant
                0 <= k <= n - 2,
                out@ == base + repeat(",\\s+([^,]+)"@, k as nat),
            decreases n - 2 - k,
        {
            push_str(&mut out, ",\\s+([^,]+)");
            k = k + 1;
        }
        push_str(&mut out, ",\\s+(.+)");
    }
    out
}

/// Builds the matcher for `command` with `num_args` arguments from the
/// prefixes and the case setting of `config`.
pub fn generate_pattern(config: &Config, command: &str, num_args: i8) -> (r: String)
    requires
        num_args >= 0,
    ensures
        r@ == pattern_spec(
            config.plugin_prefixes@.map_values(|p: String| p@),
            command@,
            num_args as nat,
            config.case_insensitive,
        ),
{
    let mut pre = prefix_alternatives(&config.plugin_prefixes);
    let mut out: Vec<char> = Vec::new();
    push_str(&mut out, "^(");
    if config.case_insensitive {
        push_str(&mut out, "(?i)");
    }
    push_str(&mut out, "(");
    out.append(&mut pre);
    push_str(&mut out, ")");
    let cmd = escape(command);
    push_str(&mut out, cmd.as_str());
    if num_args == 0 {
        push_str(&mut out, ")$");
    } else {
        let mut args = args_pattern(num_args);
        out.append(&mut args);
        push_str(&mut out, "$)");
    }
    let r = string_of(out.as_slice());
    assert(r@ =~= pattern_spec(
        config.plugin_prefixes@.map_values(|p: String| p@),
        command@,
        num_args as nat,
        config.case_insensitive,
    ));
    r
}

/// A plugin with its own handler.
pub trait CustomPlugin {
    fn handle();
}

impl CustomPlugin for Plugin {
    fn handle() {
    }
}

/// A command plugin: its name, the escaped command, the matcher built for it
/// and how many arguments it takes, and a cooldown in seconds that each user
/// has to wait between two runs.
pub struct Plugin {
    pub name: String,
    pub command: String,
    pub pattern: String,
    pub num_args: i8,
    pub cooldown: u64,
    pub last_used: Table<u64>,
}

impl Plugin {
    pub open spec fn wf(&self) -> bool {
        self.last_used.wf()
    }

    /// Makes a plugin whose matcher is built from `config`; no cooldown
    /// when none is given.
    pub fn new(config: &Config, name: &str, command: &str, num_args: i8, cooldown: Option<u64>) -> (r: Plugin)
        requires
            num_args >= 0,
        ensures
            r.wf(),
            r.name@ == name@,
            r.command@ == escape_spec(command@),
            r.pattern@ == pattern_spec(
                config.plugin_prefixes@.map_values(|p: String| p@),
                command@,
                num_args as nat,
                config.case_insensitive,
            ),
            r.num_args == num_args,
            r.cooldown == (match cooldown {
                Some(d) => d,
                None => 0,
            }),
            r.last_used@ == Map::<Seq<char>, u64>::empty(),
    {
        Plugin {
            name: name.to_owned(),
            command: escape(command),
            pattern: generate_pattern(config, command, num_args),
            num_args,
            cooldown: match cooldown {
                Some(d) => d,
                None => 0,
            },
            last_used: Table::new(),
        }
    }

    /// Whether the matcher matches `text`; false when it does not compile.
    pub fn is_match(&self, text: &str) -> (r: bool)
        ensures
            r == (regex_outcome(self.pattern@, text@) == Some(true)),
    {
        match regex_test(self.pattern.as_str(), text) {
            Some(b) => b,
            None => false,
        }
    }

    /// Records that `user` ran the plugin at time `tm`.
    pub fn update_last_used(&mut self, user: &str, tm: u64)
        requires
            old(self).wf(),
        ensures
            final(self).wf(),
            final(self).last_used@ == old(self).last_used@.insert(normalize(user@), tm),
            final(self).cooldown == old(self).cooldown,
            final(self).pattern == old(self).pattern,
    {
        let k = crate::helpers::sanitize(user);
        self.last_used.set(k, tm);
    }

    /// Whether the acting user of `msg` may run the plugin now: they never
    /// ran it, or longer than the cooldown ago. When they may, the time is
    /// recorded as their last run.
    pub fn execute(&mut self, msg: &Message) -> (r: bool)
        requires
            old(self).wf(),
        ensures
            final(self).wf(),
            r == (!old(self).last_used@.contains_key(msg.user.key())
                || msg.received - old(self).last_used@[msg.user.key()] > old(self).cooldown),
            r ==> final(self).last_used@ == old(self).last_used@.insert(msg.user.key(), msg.received),
            !r ==> final(self).last_used@ == old(self).last_used@,
            final(self).cooldown == old(self).cooldown,
            final(self).pattern == old(self).pattern,
    {
        let run = match self.last_used.get(&msg.user.id) {
            Some(t) => msg.received >= *t && msg.received - *t > self.cooldown,
            None => true,
        };
        if run {
            self.last_used.set(msg.user.id.clone(), msg.received);
        }
        run
    }
}

} // verus!
