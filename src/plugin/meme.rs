//! A rate-limited plugin that keeps a list of memes: it answers with a
//! random one, adds new ones, and tells who added the last one shown.
use vstd::prelude::*;
use crate::bot::Bot;
use crate::command::{group_text, regex_groups, regex_groups_of, regex_outcome, regex_test};
use crate::cooldown::{step_spec, RateLimiter, Verdict};
use crate::helpers::normalize;
use crate::message::Message;
use crate::plugin::viper::random_below;
use crate::plugin::Plugin;
use crate::text::{decimal, decimal_spec, push_str, string_of};

verus! {

/// Any command of the plugin.
pub const ANY_MEME: &'static str = "^(>|#|uhh\\s|le\\s)(info$|meme(info|\\s.*)?)$";

/// Show a random meme.
pub const GET_MEME: &'static str = "^(>|#|uhh\\s|le\\s)meme$";

/// Add the meme after the command.
pub const ADD_MEME: &'static str = "^(>|#|uhh\\s|le\\s)meme\\s(.*)$";

/// Tell who added the last meme shown, and when.
pub const INFO_MEME: &'static str = "^(>|#|uhh\\s|le\\s)(meme)?info$";

/// The answer when there is no meme.
pub const NO_MEME: &'static str = "Could not get a meme ugh =.= smh @ shy imouto";

/// Seconds a user waits between two uses.
pub const MEME_COOLDOWN: u64 = 60;

/// Seconds a user who does not wait is banned for.
pub const MEME_BAN: u64 = 600;

/// The last second that an RFC 2822 date can show (the end of year 9999).
pub const LAST_RFC2822: u64 = 253402300799;

/// What `regex::RegexBuilder` with `case_insensitive(true)` and
/// `ignore_whitespace(true)` compiles from `pattern` says of `text` with
/// `is_match`: `None` when the pattern does not compile.
pub uninterp spec fn loose_outcome(pattern: Seq<char>, text: Seq<char>) -> Option<bool>;

/// Relies on `regex::RegexBuilder::new`, `case_insensitive`,
/// `ignore_whitespace`, `build` and `Regex::is_match`; the outcome depends on
/// the two texts alone.
#[verifier::external_body]
fn loose_test(pattern: &str, text: &str) -> (r: Option<bool>)
    ensures
        r == loose_outcome(pattern@, text@),
{
    match regex::RegexBuilder::new(pattern).case_insensitive(true).ignore_whitespace(true).build() {
        Ok(re) => Some(re.is_match(text)),
        Err(_) => None,
    }
}

/// What `chrono::DateTime::<Utc>::to_rfc2822` writes for a time in seconds
/// since the Unix epoch.
pub uninterp spec fn rfc2822_of(secs: int) -> Seq<char>;

/// Relies on `chrono::DateTime::from_timestamp` and `DateTime::to_rfc2822`,
/// which panics after year 9999, so later times are left out.
#[verifier::external_body]
fn rfc2822(secs: i64) -> (r: String)
    requires
        0 <= secs <= LAST_RFC2822,
    ensures
        r@ == rfc2822_of(secs as int),
{
    match chrono::DateTime::from_timestamp(secs, 0) {
        Some(d) => d.to_rfc2822(),
        None => String::new(),
    }
}

/// One meme: when it was added, in seconds, by whom, and its text.
pub struct Meme {
    pub date: u64,
    pub author: String,
    pub content: String,
}

/// The command is a request for a random meme.
pub open spec fn is_get(p: Seq<char>) -> bool {
    regex_outcome(GET_MEME@, p) == Some(true)
}

/// The command adds a meme.
pub open spec fn is_add(p: Seq<char>) -> bool {
    !is_get(p) && regex_outcome(ADD_MEME@, p) == Some(true)
}

/// The command asks about the last meme shown.
pub open spec fn is_info(p: Seq<char>) -> bool {
    !is_get(p) && !is_add(p) && regex_outcome(INFO_MEME@, p) == Some(true)
}

/// The text of the meme that an add command carries.
pub open spec fn added_text(p: Seq<char>) -> Seq<char> {
    match regex_groups_of(ADD_MEME@, p) {
        Some(g) => if g.len() > 2 {
            group_text(g[2])
        } else {
            Seq::empty()
        },
        None => Seq::empty(),
    }
}

/// Some meme of the list matches `c` read as a pattern, ignoring case and
/// whitespace.
pub open spec fn meme_exists(memes: Seq<Meme>, c: Seq<char>) -> bool {
    exists|i: int| 0 <= i < memes.len() && loose_outcome(c, #[trigger] memes[i].content@) == Some(true)
}

/// How a date is shown.
pub open spec fn date_text(d: u64) -> Seq<char> {
    if d <= LAST_RFC2822 {
        rfc2822_of(d as int)
    } else {
        "an unknown time"@
    }
}

/// The warning for a user who came back within the cooldown.
pub open spec fn meme_ban_spec(user: Seq<char>, cooldown: u64, ban: u64) -> Seq<char> {
    "**Slow down with those memes...kid** ("@ + user + " is banned from meme for "@ + decimal_spec(
        (ban / 60) as nat,
    ) + " minutes. Currently allowed 1 meme per "@ + decimal_spec(cooldown as nat) + " seconds)"@
}

/// The answer that replies `text` to the acting user of `msg`.
pub open spec fn answer(msg: Message, text: Seq<char>) -> Seq<char> {
    msg.reply_frame(seq!['('] + msg.user.name@ + seq![')', ' '] + text)
}

/// Keeps a list of memes under the shared cooldown and ban policy; memes
/// added since they were last handed over wait in `added`.
pub struct MemePlugin {
    pub memes: Vec<Meme>,
    pub limiter: RateLimiter,
    pub last_meme: Option<usize>,
    pub added: Vec<Meme>,
}

impl MemePlugin {
    /// A plugin holding `memes`.
    pub fn new(memes: Vec<Meme>) -> (r: MemePlugin)
        ensures
            r.memes == memes,
            r.limiter.wf(),
            r.limiter.cooldown == MEME_COOLDOWN,
            r.limiter.ban_duration == MEME_BAN,
            r.limiter.last_used@ == Map::<Seq<char>, u64>::empty(),
            r.limiter.banned@ == Map::<Seq<char>, u64>::empty(),
            r.last_meme is None,
            r.added@.len() == 0,
    {
        MemePlugin {
            memes,
            limiter: RateLimiter::new(MEME_COOLDOWN, MEME_BAN),
            last_meme: None,
            added: Vec::new(),
        }
    }

    /// The warning for `user`.
    pub fn ban_message(&self, user: &str) -> (r: String)
        ensures
            r@ == meme_ban_spec(user@, self.limiter.cooldown, self.limiter.ban_duration),
    {
        let mut out: Vec<char> = Vec::new();
        push_str(&mut out, "**Slow down with those memes...kid** (");
        push_str(&mut out, user);
        push_str(&mut out, " is banned from meme for ");
        let mut b = decimal(self.limiter.ban_duration / 60);
        out.append(&mut b);
        push_str(&mut out, " minutes. Currently allowed 1 meme per ");
        let mut c = decimal(self.limiter.cooldown);
        out.append(&mut c);
        push_str(&mut out, " seconds)");
        string_of(out.as_slice())
    }

    /// Whether some meme matches `meme` read as a pattern, ignoring case and
    /// whitespace.
    pub fn already_exists(&self, meme: &str) -> (r: bool)
        ensures
            r == meme_exists(self.memes@, meme@),
    {
        let mut i: usize = 0;
        while i < self.memes.len()
            invariant
                i <= self.memes.len(),
                forall|j: int|
                    0 <= j < i ==> loose_outcome(meme@, #[trigger] self.memes@[j].content@) != Some(
                        true,
                    ),
            decreases self.memes.len() - i,
        {
            match loose_test(meme, self.memes[i].content.as_str()) {
                Some(true) => {
                    return true;
                },
                _ => {},
            }
            i = i + 1;
        }
        false
    }

    /// Applies the policy to a use by the acting user of `msg` at `now`: a
    /// warning when they came back too soon. True when the use is refused.
    pub fn is_banned(&mut self, msg: &Message, bot: &mut Bot, now: u64) -> (r: bool)
        requires
            old(self).limiter.wf(),
        ensures
            final(self).limiter.wf(),
            final(self).limiter.cooldown == old(self).limiter.cooldown,
            final(self).limiter.ban_duration == old(self).limiter.ban_duration,
            final(self).memes == old(self).memes,
            final(self).last_meme == old(self).last_meme,
            final(self).added == old(self).added,
            ({
                let s = step_spec(
                    old(self).limiter.cooldown,
                    old(self).limiter.ban_duration,
                    old(self).limiter.last_used@,
                    old(self).limiter.banned@,
                    normalize(msg.user.name@),
                    now,
                );
                &&& r == (s.0 != Verdict::Proceed)
                &&& final(self).limiter.last_used@ == s.1
                &&& final(self).limiter.banned@ == s.2
                &&& s.0 == Verdict::Warn ==> final(bot).queued() == old(bot).queued().push(
                    msg.reply_frame(
                        meme_ban_spec(
                            msg.user.name@,
                            old(self).limiter.cooldown,
                            old(self).limiter.ban_duration,
                        ),
                    ),
                )
                &&& s.0 != Verdict::Warn ==> final(bot).queued() == old(bot).queued()
            }),
            final(bot).same_but_outbox(old(bot)),
    {
        let v = self.limiter.decide(msg.user.name.as_str(), now);
        match v {
            Verdict::Warn => {
                let warning = self.ban_message(msg.user.name.as_str());
                msg.send(bot, warning.as_str());
                true
            },
            Verdict::Ignore => true,
            Verdict::Proceed => false,
        }
    }

    /// What `respond` does: `after` and `b1` are the plugin and the session
    /// after a command in `msg` at `now`, a random meme being meme `pick`.
    pub open spec fn responded(
        before: MemePlugin,
        after: MemePlugin,
        msg: Message,
        b0: Bot,
        b1: Bot,
        now: u64,
        pick: usize,
    ) -> bool {
            let p = msg.payload@;
            let s = step_spec(
                before.limiter.cooldown,
                before.limiter.ban_duration,
                before.limiter.last_used@,
                before.limiter.banned@,
                normalize(msg.user.name@),
                now,
            );
            let policed = is_get(p) || is_add(p);
            let go = policed && s.0 == Verdict::Proceed;
            let c = added_text(p);
            &&& after.limiter.cooldown == before.limiter.cooldown
            &&& after.limiter.ban_duration == before.limiter.ban_duration
            &&& b1.same_but_outbox(&b0)
            &&& policed ==> after.limiter.last_used@ == s.1 && after.limiter.banned@
                == s.2
            &&& !policed ==> after.limiter == before.limiter
            &&& policed && s.0 == Verdict::Warn ==> b1.queued() == b0.queued().push(
                msg.reply_frame(
                    meme_ban_spec(
                        msg.user.name@,
                        before.limiter.cooldown,
                        before.limiter.ban_duration,
                    ),
                ),
            )
            &&& policed && s.0 == Verdict::Ignore ==> b1.queued() == b0.queued()
            &&& !(is_add(p) && go && !meme_exists(before.memes@, c)) ==> {
                &&& after.memes == before.memes
                &&& after.added == before.added
            }
            &&& !(is_get(p) && go && before.memes.len() > 0) ==> after.last_meme == before.last_meme
            &&& is_get(p) && go && before.memes.len() == 0 ==> b1.queued() == b0.queued().push(answer(msg, NO_MEME@))
            &&& is_get(p) && go && before.memes.len() > 0 ==> {
                &&& after.last_meme == Some(pick)
                &&& b1.queued() == b0.queued().push(
                    answer(msg, before.memes@[pick as int].content@),
                )
            }
            &&& is_add(p) && go && meme_exists(before.memes@, c) ==> b1.queued()
                == b0.queued().push(answer(msg, c + " is already a meme you dip"@))
            &&& is_add(p) && go && !meme_exists(before.memes@, c) ==> {
                &&& after.memes@.len() == before.memes@.len() + 1
                &&& after.memes@.drop_last() == before.memes@
                &&& after.memes@.last().date == now
                &&& after.memes@.last().author@ == msg.user.name@
                &&& after.memes@.last().content@ == c
                &&& after.added@.len() == before.added@.len() + 1
                &&& after.added@.drop_last() == before.added@
                &&& after.added@.last().date == now
                &&& after.added@.last().author@ == msg.user.name@
                &&& after.added@.last().content@ == c
                &&& b1.queued() == b0.queued().push(
                    answer(msg, c + " is now a meme"@),
                )
            }
            &&& is_info(p) ==> match before.last_meme {
                Some(i) => if i < before.memes.len() {
                    b1.queued() == b0.queued().push(
                        answer(
                            msg,
                            "This meme was added by "@ + before.memes@[i as int].author@
                                + " at "@ + date_text(before.memes@[i as int].date),
                        ),
                    )
                } else {
                    b1.queued() == b0.queued()
                },
                None => b1.queued() == b0.queued(),
            }
            &&& !policed && !is_info(p) ==> b1.queued() == b0.queued()
    }

    /// `after` and `b1` are what handling `msg` at its arrival time makes of
    /// the plugin and the session, for some meme drawn from the list.
    pub open spec fn handled(before: MemePlugin, after: MemePlugin, msg: Message, b0: Bot, b1: Bot) -> bool {
        exists|pick: usize|
            (before.memes.len() > 0 ==> pick < before.memes.len()) && #[trigger] MemePlugin::responded(
                before,
                after,
                msg,
                b0,
                b1,
                msg.received,
                pick,
            )
    }

    /// Handles a command at time `now`; a random meme is meme `pick`.
    pub fn respond(&mut self, msg: &Message, bot: &mut Bot, now: u64, pick: usize)
        requires
            old(self).limiter.wf(),
            old(self).memes.len() > 0 ==> pick < old(self).memes.len(),
        ensures
            final(self).limiter.wf(),
            MemePlugin::responded(*old(self), *final(self), *msg, *old(bot), *final(bot), now, pick),
    {
        let p = msg.payload.as_str();
        if regex_test(GET_MEME, p) == Some(true) {
            if self.is_banned(msg, bot, now) {
                return ;
            }
            if self.memes.len() == 0 {
                msg.reply(bot, NO_MEME);
            } else {
                self.last_meme = Some(pick);
                msg.reply(bot, self.memes[pick].content.as_str());
            }
        } else if regex_test(ADD_MEME, p) == Some(true) {
            if self.is_banned(msg, bot, now) {
                return ;
            }
            let content: String = match regex_groups(ADD_MEME, p) {
                Some(g) => {
                    if g.len() > 2 {
                        match &g[2] {
                            Some(t) => t.clone(),
                            None => String::new(),
                        }
                    } else {
                        String::new()
                    }
                },
                None => String::new(),
            };
            assert(content@ == added_text(msg.payload@));
            if self.already_exists(content.as_str()) {
                let mut out: Vec<char> = Vec::new();
                push_str(&mut out, content.as_str());
                push_str(&mut out, " is already a meme you dip");
                msg.reply(bot, string_of(out.as_slice()).as_str());
            } else {
                let mut out: Vec<char> = Vec::new();
                push_str(&mut out, content.as_str());
                push_str(&mut out, " is now a meme");
                let text = string_of(out.as_slice());
                let stored = Meme { date: now, author: msg.user.name.clone(), content: content.clone() };
                let kept = Meme { date: now, author: msg.user.name.clone(), content };
                self.memes.push(kept);
                self.added.push(stored);
                assert(self.memes@.drop_last() =~= old(self).memes@);
                assert(self.added@.drop_last() =~= old(self).added@);
                msg.reply(bot, text.as_str());
            }
        } else if regex_test(INFO_MEME, p) == Some(true) {
            match self.last_meme {
                Some(i) => {
                    if i < self.memes.len() {
                        let m = &self.memes[i];
                        let mut out: Vec<char> = Vec::new();
                        push_str(&mut out, "This meme was added by ");
                        push_str(&mut out, m.author.as_str());
                        push_str(&mut out, " at ");
                        if m.date <= LAST_RFC2822 {
                            let d = rfc2822(m.date as i64);
                            push_str(&mut out, d.as_str());
                        } else {
                            push_str(&mut out, "an unknown time");
                        }
                        msg.reply(bot, string_of(out.as_slice()).as_str());
                    }
                },
                None => {},
            }
        }
    }

    /// Hands over the memes added since the last call, oldest first.
    pub fn take_added(&mut self) -> (r: Vec<Meme>)
        ensures
            r@ == old(self).added@,
            final(self).added@.len() == 0,
            final(self).memes == old(self).memes,
            final(self).limiter == old(self).limiter,
            final(self).last_meme == old(self).last_meme,
    {
        let mut out: Vec<Meme> = Vec::new();
        core::mem::swap(&mut out, &mut self.added);
        out
    }
}

impl Plugin for MemePlugin {
    open spec fn wf(&self) -> bool {
        self.limiter.wf()
    }

    fn is_match(&self, message: &Message) -> (r: bool)
        ensures
            r == (regex_outcome(ANY_MEME@, message.payload@) == Some(true)),
    {
        regex_test(ANY_MEME, message.payload.as_str()) == Some(true)
    }

    /// Handles a command at the time the event arrived; a random meme is
    /// picked at random.
    fn handle(&mut self, message: &Message, bot: &mut Bot)
        ensures
            MemePlugin::handled(*old(self), *final(self), *message, *old(bot), *final(bot)),
    {
        let pick: usize = if self.memes.len() > 0 {
            random_below(self.memes.len())
        } else {
            0
        };
        self.respond(message, bot, message.received, pick);
    }
}

} // verus!
