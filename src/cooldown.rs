//! The cooldown and ban policy shared by rate-limited plugins.
use vstd::prelude::*;
use crate::helpers::{normalize, sanitize};
use crate::table::Table;

verus! {

/// What a rate-limited plugin does with one use.
#[derive(Debug, Clone, Copy, PartialEq, Eq, Structural)]
pub enum Verdict {
    /// The user is banned: ignore the use, with no reply.
    Ignore,
    /// A second use within the cooldown: warn once; the user is now banned.
    Warn,
    /// Go ahead; the use is recorded.
    Proceed,
}

/// One step of the policy for `user` at time `now`, over the times of last
/// use and of ban by normalized user: the verdict and the two new maps.
pub open spec fn step_spec(
    cooldown: u64,
    ban_duration: u64,
    last_used: Map<Seq<char>, u64>,
    banned: Map<Seq<char>, u64>,
    user: Seq<char>,
    now: u64,
) -> (Verdict, Map<Seq<char>, u64>, Map<Seq<char>, u64>) {
    if banned.contains_key(user) && now - banned[user] < ban_duration {
        (Verdict::Ignore, last_used, banned)
    } else if last_used.contains_key(user) && now - last_used[user] < cooldown {
        (Verdict::Warn, last_used, banned.insert(user, now))
    } else {
        (Verdict::Proceed, last_used.insert(user, now), banned.remove(user))
    }
}

/// Per-user cooldown and ban: a user who comes back within the cooldown is
/// warned and banned for the ban duration, during which their uses are
/// ignored. Times are in seconds.
pub struct RateLimiter {
    pub cooldown: u64,
    pub ban_duration: u64,
    pub last_used: Table<u64>,
    pub banned: Table<u64>,
}

impl RateLimiter {
    pub open spec fn wf(&self) -> bool {
        self.last_used.wf() && self.banned.wf()
    }

    pub fn new(cooldown: u64, ban_duration: u64) -> (r: RateLimiter)
        ensures
            r.wf(),
            r.cooldown == cooldown,
            r.ban_duration == ban_duration,
            r.last_used@ == Map::<Seq<char>, u64>::empty(),
            r.banned@ == Map::<Seq<char>, u64>::empty(),
    {
        RateLimiter { cooldown, ban_duration, last_used: Table::new(), banned: Table::new() }
    }

    /// Applies the policy to a use by `user` at time `now`.
    pub fn decide(&mut self, user: &str, now: u64) -> (r: Verdict)
        requires
            old(self).wf(),
        ensures
            final(self).wf(),
            final(self).cooldown == old(self).cooldown,
            final(self).ban_duration == old(self).ban_duration,
            (r, final(self).last_used@, final(self).banned@) == step_spec(
                old(self).cooldown,
                old(self).ban_duration,
                old(self).last_used@,
                old(self).banned@,
                normalize(user@),
                now,
            ),
    {
        let k = sanitize(user);
        let banned_now = match self.banned.get(&k) {
            Some(t) => now >= *t && now - *t < self.ban_duration || now < *t,
            None => false,
        };
        if banned_now {
            return Verdict::Ignore;
        }
        let too_soon = match self.last_used.get(&k) {
            Some(t) => now >= *t && now - *t < self.cooldown || now < *t,
            None => false,
        };
        if too_soon {
            self.banned.set(k, now);
            return Verdict::Warn;
        }
        self.banned.remove(&k);
        self.last_used.set(k, now);
        Verdict::Proceed
    }
}

/// Two uses within the cooldown give exactly one warning and a ban; a use
/// during the ban is ignored without reply; once the ban is over a use goes
/// through again. This needs a ban at least as long as the cooldown.
pub proof fn law_cooldown_then_ban(
    cooldown: u64,
    ban_duration: u64,
    last_used: Map<Seq<char>, u64>,
    banned: Map<Seq<char>, u64>,
    user: Seq<char>,
    t0: u64,
    t1: u64,
    t2: u64,
    t3: u64,
)
    requires
        ban_duration >= cooldown,
        !(banned.contains_key(user) && t0 - banned[user] < ban_duration),
        !(last_used.contains_key(user) && t0 - last_used[user] < cooldown),
        t0 <= t1,
        t1 - t0 < cooldown,
        t1 <= t2,
        t2 - t1 < ban_duration,
        t3 - t1 >= ban_duration,
    ensures
        ({
            let s0 = step_spec(cooldown, ban_duration, last_used, banned, user, t0);
            let s1 = step_spec(cooldown, ban_duration, s0.1, s0.2, user, t1);
            let s2 = step_spec(cooldown, ban_duration, s1.1, s1.2, user, t2);
            let s3 = step_spec(cooldown, ban_duration, s2.1, s2.2, user, t3);
            &&& s0.0 == Verdict::Proceed
            &&& s1.0 == Verdict::Warn
            &&& s2.0 == Verdict::Ignore
            &&& s3.0 == Verdict::Proceed
        }),
{
}

} // verus!
