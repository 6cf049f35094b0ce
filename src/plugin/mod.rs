//! Plugins: user-defined bot functions that handle the events they match.
use vstd::prelude::*;
use crate::bot::Bot;
use crate::message::Message;
use crate::command::regex_outcome;
use crate::plugin::meme::ANY_MEME;
use crate::plugin::viper::VIPER_PATTERN;

pub mod meme;
pub mod viper;

pub use self::meme::MemePlugin;
pub use self::viper::ViperPlugin;

verus! {

/// A plugin says which events it wants and handles them; replies go to the
/// session's queue.
pub trait Plugin {
    /// The plugin's own invariant.
    spec fn wf(&self) -> bool;

    /// Whether the plugin wants to handle `message`.
    fn is_match(&self, message: &Message) -> bool;

    /// Handles `message`; it changes nothing of the session but the queue
    /// of frames to send.
    fn handle(&mut self, message: &Message, bot: &mut Bot)
        requires
            old(self).wf(),
        ensures
            final(self).wf(),
            final(bot).same_but_outbox(old(bot)),
    ;
}

/// The plugins a session runs, each told about every live event it
/// matches, in order.
pub struct Plugins {
    pub viper: ViperPlugin,
    pub meme: MemePlugin,
}

impl Plugins {
    pub open spec fn wf(&self) -> bool {
        self.viper.limiter.wf() && self.meme.limiter.wf()
    }

    /// The Viper plugin went from `v0` to `v1` and the session from `b0`
    /// to `b1`: by handling `m` when `run`, else with nothing changed.
    pub open spec fn viper_ran(
        v0: ViperPlugin,
        v1: ViperPlugin,
        m: Message,
        b0: Bot,
        b1: Bot,
        run: bool,
    ) -> bool {
        if run {
            ViperPlugin::handled(v0, v1, m, b0, b1)
        } else {
            v1 == v0 && b1 == b0
        }
    }

    /// As `viper_ran`, for the meme plugin.
    pub open spec fn meme_ran(
        p0: MemePlugin,
        p1: MemePlugin,
        m: Message,
        b0: Bot,
        b1: Bot,
        run: bool,
    ) -> bool {
        if run {
            MemePlugin::handled(p0, p1, m, b0, b1)
        } else {
            p1 == p0 && b1 == b0
        }
    }

    pub fn new(viper: ViperPlugin, meme: MemePlugin) -> (r: Plugins)
        ensures
            r.viper == viper,
            r.meme == meme,
    {
        Plugins { viper, meme }
    }

    /// Hands event `m` to each plugin that matches it, when the event is
    /// live: it has a payload and was sent no earlier than the login. The
    /// result is the session between the two plugins' turns.
    pub fn dispatch(&mut self, m: &Message, bot: &mut Bot) -> (mid: Ghost<Bot>)
        requires
            old(self).wf(),
        ensures
            final(self).wf(),
            ({
                let live = m.payload@.len() > 0 && m.timestamp >= old(bot).login_time;
                let viper = live && regex_outcome(VIPER_PATTERN@, m.payload@) == Some(true);
                let meme = live && regex_outcome(ANY_MEME@, m.payload@) == Some(true);
                &&& Plugins::viper_ran(old(self).viper, final(self).viper, *m, *old(bot), mid@, viper)
                &&& Plugins::meme_ran(old(self).meme, final(self).meme, *m, mid@, *final(bot), meme)
            }),
    {
        let live = bot.is_live(m);
        if live && self.viper.is_match(m) {
            self.viper.handle(m, bot);
        }
        let ghost mid = *bot;
        if live && self.meme.is_match(m) {
            self.meme.handle(m, bot);
        }
        Ghost(mid)
    }
}

} // verus!
