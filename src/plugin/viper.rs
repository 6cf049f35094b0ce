//! A rate-limited plugin that answers its command with a random line from
//! a list.
use vstd::prelude::*;
use rand::Rng;
use crate::bot::Bot;
use crate::command::{regex_outcome, regex_test};
use crate::cooldown::{step_spec, RateLimiter, Verdict};
use crate::helpers::normalize;
use crate::message::Message;
use crate::plugin::Plugin;
use crate::text::{decimal, decimal_spec, push_str, string_of};

verus! {

/// The commands the plugin answers: one of its prefixes, then `viper` or
/// `vipa`.
pub const VIPER_PATTERN: &'static str = "^(>|#|uhh\\s|le\\s)vip(er|a)";

/// The answer when the list is empty.
pub const NO_VIPER: &'static str = "Could not get a viper ugh =.= smh @ shy imouto";

/// Seconds a user waits between two uses.
pub const VIPER_COOLDOWN: u64 = 60;

/// Seconds a user who does not wait is banned for.
pub const VIPER_BAN: u64 = 600;

/// Relies on `rand::Rng::gen_range` on `rand::thread_rng()`: a number in
/// `0..n`, which is not empty.
#[verifier::external_body]
pub(crate) fn random_below(n: usize) -> (r: usize)
    requires
        n > 0,
    ensures
        r < n,
{
    rand::thread_rng().gen_range(0..n)
}

/// The warning for a user who came back within the cooldown.
pub open spec fn ban_message_spec(user: Seq<char>, cooldown: u64, ban: u64) -> Seq<char> {
    "**Slow down** ("@ + user + " can use this once per "@ + decimal_spec(cooldown as nat)
        + " seconds and now waits "@ + decimal_spec((ban / 60) as nat) + " minutes)"@
}

/// Answers with a random line of its list, at most once per cooldown for
/// each user.
pub struct ViperPlugin {
    pub vipers: Vec<String>,
    pub limiter: RateLimiter,
}

impl ViperPlugin {
    /// A plugin answering with the lines of `vipers`.
    pub fn new(vipers: Vec<String>) -> (r: ViperPlugin)
        ensures
            r.vipers == vipers,
            r.limiter.wf(),
            r.limiter.cooldown == VIPER_COOLDOWN,
            r.limiter.ban_duration == VIPER_BAN,
            r.limiter.last_used@ == Map::<Seq<char>, u64>::empty(),
            r.limiter.banned@ == Map::<Seq<char>, u64>::empty(),
    {
        ViperPlugin { vipers, limiter: RateLimiter::new(VIPER_COOLDOWN, VIPER_BAN) }
    }

    /// The warning for `user`.
    pub fn ban_message(&self, user: &str) -> (r: String)
        ensures
            r@ == ban_message_spec(user@, self.limiter.cooldown, self.limiter.ban_duration),
    {
        let mut out: Vec<char> = Vec::new();
        push_str(&mut out, "**Slow down** (");
        push_str(&mut out, user);
        push_str(&mut out, " can use this once per ");
        let mut c = decimal(self.limiter.cooldown);
        out.append(&mut c);
        push_str(&mut out, " seconds and now waits ");
        let mut b = decimal(self.limiter.ban_duration / 60);
        out.append(&mut b);
        push_str(&mut out, " minutes)");
        string_of(out.as_slice())
    }

    /// What `respond` does: `after` and `b1` are the plugin and the session
    /// after a use by the acting user of `msg` at `now`, answered with line
    /// `pick` when it goes through, with verdict `v`.
    pub open spec fn responded(
        before: ViperPlugin,
        after: ViperPlugin,
        msg: Message,
        b0: Bot,
        b1: Bot,
        now: u64,
        pick: usize,
        v: Verdict,
    ) -> bool {
        &&& after.vipers == before.vipers
        &&& after.limiter.cooldown == before.limiter.cooldown
        &&& after.limiter.ban_duration == before.limiter.ban_duration
        &&& (v, after.limiter.last_used@, after.limiter.banned@) == step_spec(
                before.limiter.cooldown,
                before.limiter.ban_duration,
                before.limiter.last_used@,
                before.limiter.banned@,
                normalize(msg.user.name@),
                now,
            )
        &&& b1.same_but_outbox(&b0)
        &&& v == Verdict::Ignore ==> b1.queued() == b0.queued()
        &&& v == Verdict::Warn ==> b1.queued() == b0.queued().push(
                msg.reply_frame(
                    ban_message_spec(
                        msg.user.name@,
                        before.limiter.cooldown,
                        before.limiter.ban_duration,
                    ),
                ),
            )
        &&& v == Verdict::Proceed ==> b1.queued() == b0.queued().push(
                msg.reply_frame(
                    seq!['('] + msg.user.name@ + seq![')', ' '] + (if before.vipers.len() == 0 {
                        NO_VIPER@
                    } else {
                        before.vipers@[pick as int]@
                    }),
                ),
            )
    }

    /// `after` and `b1` are what handling `msg` at its arrival time makes of
    /// the plugin and the session, for some line drawn from the list.
    pub open spec fn handled(before: ViperPlugin, after: ViperPlugin, msg: Message, b0: Bot, b1: Bot) -> bool {
        exists|pick: usize, v: Verdict|
            (before.vipers.len() > 0 ==> pick < before.vipers.len()) && #[trigger] ViperPlugin::responded(
                before,
                after,
                msg,
                b0,
                b1,
                msg.received,
                pick,
                v,
            )
    }

    /// Handles a use at time `now`, answering with line `pick` when the
    /// policy lets it through: nothing when the user is banned, one warning
    /// when they came back too soon.
    pub fn respond(&mut self, msg: &Message, bot: &mut Bot, now: u64, pick: usize) -> (v: Verdict)
        requires
            old(self).limiter.wf(),
            old(self).vipers.len() > 0 ==> pick < old(self).vipers.len(),
        ensures
            final(self).limiter.wf(),
            ViperPlugin::responded(*old(self), *final(self), *msg, *old(bot), *final(bot), now, pick, v),
    {
        let v = self.limiter.decide(msg.user.name.as_str(), now);
        match v {
            Verdict::Ignore => {},
            Verdict::Warn => {
                let warning = self.ban_message(msg.user.name.as_str());
                msg.send(bot, warning.as_str());
            },
            Verdict::Proceed => {
                if self.vipers.len() == 0 {
                    msg.reply(bot, NO_VIPER);
                } else {
                    msg.reply(bot, self.vipers[pick].as_str());
                }
            },
        }
        v
    }
}

impl Plugin for ViperPlugin {
    open spec fn wf(&self) -> bool {
        self.limiter.wf()
    }

    fn is_match(&self, message: &Message) -> (r: bool)
        ensures
            r == (regex_outcome(VIPER_PATTERN@, message.payload@) == Some(true)),
    {
        match regex_test(VIPER_PATTERN, message.payload.as_str()) {
            Some(b) => b,
            None => false,
        }
    }

    /// Handles a use at the time the event arrived, answering with a line
    /// picked at random.
    fn handle(&mut self, message: &Message, bot: &mut Bot)
        ensures
            ViperPlugin::handled(*old(self), *final(self), *message, *old(bot), *final(bot)),
    {
        let pick: usize = if self.vipers.len() > 0 {
            random_below(self.vipers.len())
        } else {
            0
        };
        let v = self.respond(message, bot, message.received, pick);
    }
}

} // verus!
