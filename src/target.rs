//! Rooms and users, and the cache that holds them under their normalized
//! names.
use vstd::prelude::*;
use crate::bot::Bot;
use crate::helpers::{normalize, sanitize};
use crate::table::Table;
use crate::text::{chars_of, push_str, string_truncated, truncate};

verus! {

/// The longest frame the server takes; longer replies are cut.
pub const MAX_FRAME: usize = 300;

/// Something the bot can reply to. A target is known by its normalized name.
pub trait Target: Sized {
    /// The normalized name under which a cache keeps this target.
    spec fn key(&self) -> Seq<char>;

    /// The target's own invariant.
    spec fn wf(&self) -> bool;

    /// This is the target that `new(name)` makes.
    spec fn fresh(&self, name: Seq<char>) -> bool;

    /// The frame that sends `text` to this target, before it is cut.
    spec fn spec_frame(&self, text: Seq<char>) -> Seq<char>;

    fn new(name: &str) -> (r: Self)
        ensures
            r.key() == normalize(name@),
            r.wf(),
            r.fresh(name@),
    ;

    /// The frame that sends `text` here, cut to the longest frame allowed.
    fn frame(&self, text: &str) -> (r: String)
        ensures
            r@ == truncate(self.spec_frame(text@), MAX_FRAME as nat),
    ;

    /// Queues `text` for this target on the session.
    fn send(&self, bot: &mut Bot, text: &str)
        ensures
            final(bot).queued() == old(bot).queued().push(
                truncate(self.spec_frame(text@), MAX_FRAME as nat),
            ),
            final(bot).same_but_outbox(old(bot)),
    ;
}

/// A chat room: replies to a message from a room go to the same room.
/// A room is known by its normalized name.
pub struct Room {
    pub name: String,
    pub users: Table<()>,
}

impl Room {
    /// The normalized names of the users in the room.
    pub closed spec fn members(&self) -> Set<Seq<char>> {
        self.users@.dom()
    }

    /// Adds a user; true if the user was not in the room.
    pub fn insert_user(&mut self, name: &str) -> (r: bool)
        requires
            old(self).wf(),
        ensures
            final(self).wf(),
            final(self).name == old(self).name,
            final(self).members() == old(self).members().insert(normalize(name@)),
            r == !old(self).members().contains(normalize(name@)),
    {
        let k = sanitize(name);
        match self.users.find(&k) {
            Some(_) => {
                assert(self.users@.dom().insert(k@) =~= self.users@.dom());
                false
            },
            None => {
                self.users.push_new(k, ());
                true
            },
        }
    }

    /// Removes a user; true if the user was in the room.
    pub fn remove_user(&mut self, name: &str) -> (r: bool)
        requires
            old(self).wf(),
        ensures
            final(self).wf(),
            final(self).name == old(self).name,
            final(self).members() == old(self).members().remove(normalize(name@)),
            r == old(self).members().contains(normalize(name@)),
    {
        let k = sanitize(name);
        self.users.remove(&k)
    }

    /// Whether a user is in the room.
    pub fn contains_user(&self, name: &str) -> (r: bool)
        requires
            self.wf(),
        ensures
            r == self.members().contains(normalize(name@)),
    {
        let k = sanitize(name);
        self.users.find(&k).is_some()
    }
}

impl Target for Room {
    open spec fn key(&self) -> Seq<char> {
        self.name@
    }

    closed spec fn wf(&self) -> bool {
        self.users.wf()
    }

    open spec fn fresh(&self, name: Seq<char>) -> bool {
        self.name@ == normalize(name) && self.users@ == Map::<Seq<char>, ()>::empty()
    }

    open spec fn spec_frame(&self, text: Seq<char>) -> Seq<char> {
        self.name@ + seq!['|'] + text
    }

    fn new(name: &str) -> (r: Room) {
        Room { name: sanitize(name), users: Table::new() }
    }

    fn frame(&self, text: &str) -> (r: String) {
        let mut out = chars_of(self.name.as_str());
        out.push('|');
        push_str(&mut out, text);
        string_truncated(out, MAX_FRAME)
    }

    fn send(&self, bot: &mut Bot, text: &str) {
        let f = self.frame(text);
        bot.send(f);
    }
}

/// A user: their name as shown, and the authorization level they hold in
/// each room. A user is known by the normalized form of the name.
pub struct User {
    pub id: String,
    pub name: String,
    pub auths: Table<String>,
}

impl User {
    /// The authorization level held in each room, by normalized room name.
    pub closed spec fn levels(&self) -> Map<Seq<char>, Seq<char>> {
        self.auths@.map_values(|a: String| a@)
    }

    /// Records an authorization level in a room, unless one is recorded
    /// there already.
    pub fn add_auth(&mut self, auth: &str, room: &str)
        requires
            old(self).wf(),
        ensures
            final(self).wf(),
            final(self).id == old(self).id,
            final(self).name == old(self).name,
            final(self).levels() == (if old(self).levels().contains_key(normalize(room@)) {
                old(self).levels()
            } else {
                old(self).levels().insert(normalize(room@), auth@)
            }),
    {
        let k = sanitize(room);
        match self.auths.find(&k) {
            Some(_) => {},
            None => {
                let a = auth.to_owned();
                self.auths.push_new(k, a);
                assert(self.levels() =~= old(self).levels().insert(normalize(room@), auth@));
            },
        }
    }

    /// Whether the level recorded in a room is `auth`.
    pub fn has_auth(&self, auth: &str, room: &str) -> (r: bool)
        requires
            self.wf(),
        ensures
            r == (self.levels().contains_key(normalize(room@)) && self.levels()[normalize(
                room@,
            )] == auth@),
    {
        let k = sanitize(room);
        match self.auths.get(&k) {
            Some(v) => {
                let a = auth.to_owned();
                *v == a
            },
            None => false,
        }
    }
}

impl Target for User {
    open spec fn key(&self) -> Seq<char> {
        self.id@
    }

    closed spec fn wf(&self) -> bool {
        self.auths.wf()
    }

    open spec fn fresh(&self, name: Seq<char>) -> bool {
        &&& self.id@ == normalize(name)
        &&& self.name@ == name
        &&& self.auths@ == Map::<Seq<char>, String>::empty()
    }

    open spec fn spec_frame(&self, text: Seq<char>) -> Seq<char> {
        seq!['|', '/', 'w', ' '] + self.name@ + seq![','] + text
    }

    fn new(name: &str) -> (r: User) {
        User { id: sanitize(name), name: name.to_owned(), auths: Table::new() }
    }

    fn frame(&self, text: &str) -> (r: String) {
        let mut out: Vec<char> = Vec::new();
        out.push('|');
        out.push('/');
        out.push('w');
        out.push(' ');
        push_str(&mut out, self.name.as_str());
        out.push(',');
        push_str(&mut out, text);
        assert(out@ =~= self.spec_frame(text@));
        string_truncated(out, MAX_FRAME)
    }

    fn send(&self, bot: &mut Bot, text: &str) {
        let f = self.frame(text);
        bot.send(f);
    }
}

/// Rooms or users, each under its normalized name.
pub struct CacheMap<T> {
    pub map: Table<T>,
}

impl<T: Target> CacheMap<T> {
    /// The cached targets by normalized name.
    pub open spec fn view(&self) -> Map<Seq<char>, T> {
        self.map@
    }

    pub open spec fn wf(&self) -> bool {
        &&& self.map.wf()
        &&& forall|k: Seq<char>| #[trigger]
            self@.contains_key(k) ==> self@[k].key() == k && self@[k].wf()
    }

    pub fn new() -> (r: Self)
        ensures
            r.wf(),
            r@ == Map::<Seq<char>, T>::empty(),
    {
        CacheMap { map: Table::new() }
    }

    /// `after` is `before` with a target for `name` added, unless one was
    /// cached under its normalized name: then nothing changed.
    pub open spec fn inserted(before: Self, after: Self, name: Seq<char>) -> bool {
        let k = normalize(name);
        &&& after@.contains_key(k)
        &&& after@.remove(k) == before@.remove(k)
        &&& before@.contains_key(k) ==> after@ == before@
        &&& !before@.contains_key(k) ==> after@[k].fresh(name)
    }

    /// The number of cached targets.
    pub fn len(&self) -> (r: usize)
        requires
            self.wf(),
        ensures
            r == self@.len(),
    {
        self.map.len()
    }

    /// Adds a target for `name` unless one is cached under its normalized
    /// name.
    pub fn insert(&mut self, name: &str)
        requires
            old(self).wf(),
        ensures
            final(self).wf(),
            Self::inserted(*old(self), *final(self), name@),
    {
        let k = sanitize(name);
        if self.map.find(&k).is_none() {
            let t = T::new(name);
            self.map.push_new(k, t);
            assert(self@.remove(normalize(name@)) =~= old(self)@.remove(normalize(name@)));
        }
    }

    /// Removes the target cached under the normalized `name`; false, and
    /// nothing changed, if there is none.
    pub fn remove(&mut self, name: &str) -> (r: bool)
        requires
            old(self).wf(),
        ensures
            final(self).wf(),
            r == old(self)@.contains_key(normalize(name@)),
            final(self)@ == old(self)@.remove(normalize(name@)),
    {
        let k = sanitize(name);
        let r = self.map.remove(&k);
        assert forall|j: Seq<char>| #[trigger] self@.contains_key(j) implies self@[j].key() == j
            && self@[j].wf() by {
            assert(old(self)@.contains_key(j));
        }
        r
    }

    /// Whether a target is cached under the normalized `name`.
    pub fn contains(&self, name: &str) -> (r: bool)
        requires
            self.wf(),
        ensures
            r == self@.contains_key(normalize(name@)),
    {
        let k = sanitize(name);
        self.map.find(&k).is_some()
    }

    /// The position of the entry for `name`, made first if there is none.
    fn entry_index(&mut self, name: &str) -> (r: usize)
        requires
            old(self).wf(),
        ensures
            final(self).wf(),
            r < final(self).map.entries().len(),
            final(self).map.entries()[r as int].0@ == normalize(name@),
            Self::inserted(*old(self), *final(self), name@),
    {
        self.insert(name);
        let k = sanitize(name);
        match self.map.find(&k) {
            Some(i) => i,
            None => {
                assert(false);
                0
            },
        }
    }
}

impl CacheMap<Room> {
    /// The normalized names of the users in the room cached under key `r`.
    pub open spec fn members_of(&self, r: Seq<char>) -> Set<Seq<char>> {
        if self@.contains_key(r) {
            self@[r].members()
        } else {
            Set::empty()
        }
    }

    /// The user is in the room, both compared by normalized name.
    pub open spec fn has_user(&self, u: Seq<char>, r: Seq<char>) -> bool {
        self.members_of(normalize(r)).contains(normalize(u))
    }

    /// `after` is `before` with user `u` in room `r`; the room is cached,
    /// made fresh if it was not, and no other room changed.
    pub open spec fn user_added(before: Self, after: Self, u: Seq<char>, r: Seq<char>) -> bool {
        let k = normalize(r);
        &&& after@.contains_key(k)
        &&& after@.remove(k) == before@.remove(k)
        &&& after.members_of(k) == before.members_of(k).insert(normalize(u))
        &&& before@.contains_key(k) ==> after@[k].name == before@[k].name
    }

    /// `after` is `before` with user `u` out of room `r`; the room is cached,
    /// made fresh if it was not, and no other room changed.
    pub open spec fn user_removed(before: Self, after: Self, u: Seq<char>, r: Seq<char>) -> bool {
        let k = normalize(r);
        &&& after@.contains_key(k)
        &&& after@.remove(k) == before@.remove(k)
        &&& after.members_of(k) == before.members_of(k).remove(normalize(u))
        &&& before@.contains_key(k) ==> after@[k].name == before@[k].name
    }

    /// Puts user `u` in room `r`, making the room first if it is not cached;
    /// true if the user was not in the room.
    pub fn insert_user_in_room(&mut self, u: &str, r: &str) -> (res: bool)
        requires
            old(self).wf(),
        ensures
            final(self).wf(),
            Self::user_added(*old(self), *final(self), u@, r@),
            res == !old(self).has_user(u@, r@),
    {
        let i = self.entry_index(r);
        let ghost before = self.map;
        let ghost k = normalize(r@);
        proof {
            before.lemma_entry_key(i as int);
        }
        let room = self.map.value_mut(i);
        let res = room.insert_user(u);
        let ghost after_room = *room;
        proof {
            Table::lemma_value_changed(&before, &self.map, i as int, after_room);
            assert(self@.remove(k) =~= before@.remove(k));
        }
        res
    }

    /// Takes user `u` out of room `r`, making the room first if it is not
    /// cached; true if the user was in the room.
    pub fn remove_user_from_room(&mut self, u: &str, r: &str) -> (res: bool)
        requires
            old(self).wf(),
        ensures
            final(self).wf(),
            Self::user_removed(*old(self), *final(self), u@, r@),
            res == old(self).has_user(u@, r@),
    {
        let i = self.entry_index(r);
        let ghost before = self.map;
        let ghost k = normalize(r@);
        proof {
            before.lemma_entry_key(i as int);
        }
        let room = self.map.value_mut(i);
        let res = room.remove_user(u);
        let ghost after_room = *room;
        proof {
            Table::lemma_value_changed(&before, &self.map, i as int, after_room);
            assert(self@.remove(k) =~= before@.remove(k));
        }
        res
    }

    /// Whether user `u` is in room `r`.
    pub fn contains_user_in_room(&self, u: &str, r: &str) -> (res: bool)
        requires
            self.wf(),
        ensures
            res == self.has_user(u@, r@),
    {
        let k = sanitize(r);
        match self.map.get(&k) {
            Some(room) => {
                assert(self@.contains_key(k@));
                room.contains_user(u)
            },
            None => false,
        }
    }
}

impl CacheMap<User> {
    /// The levels recorded for the user cached under key `u`.
    pub open spec fn levels_of(&self, u: Seq<char>) -> Map<Seq<char>, Seq<char>> {
        if self@.contains_key(u) {
            self@[u].levels()
        } else {
            Map::empty()
        }
    }

    /// `after` is `before` with level `a` recorded for user `u` in room `r`,
    /// unless a level was recorded there; the user is cached, made fresh
    /// if it was not, and no other user changed.
    pub open spec fn auth_added(
        before: Self,
        after: Self,
        a: Seq<char>,
        u: Seq<char>,
        r: Seq<char>,
    ) -> bool {
        let k = normalize(u);
        let levels = before.levels_of(k);
        &&& after@.contains_key(k)
        &&& after@.remove(k) == before@.remove(k)
        &&& after.levels_of(k) == (if levels.contains_key(normalize(r)) {
            levels
        } else {
            levels.insert(normalize(r), a)
        })
        &&& !before@.contains_key(k) ==> after@[k].name@ == u
        &&& before@.contains_key(k) ==> after@[k].name == before@[k].name
    }

    /// Records level `a` for user `u` in room `r` unless one is recorded
    /// there; the user is made first if it is not cached.
    pub fn add_auth_to_user_in_room(&mut self, a: &str, u: &str, r: &str)
        requires
            old(self).wf(),
        ensures
            final(self).wf(),
            Self::auth_added(*old(self), *final(self), a@, u@, r@),
    {
        let i = self.entry_index(u);
        let ghost before = self.map;
        let ghost k = normalize(u@);
        proof {
            before.lemma_entry_key(i as int);
            if !old(self)@.contains_key(k) {
                assert(self.levels_of(k) =~= Map::empty());
            }
        }
        let user = self.map.value_mut(i);
        user.add_auth(a, r);
        let ghost after_user = *user;
        proof {
            Table::lemma_value_changed(&before, &self.map, i as int, after_user);
            assert(self@.remove(k) =~= before@.remove(k));
        }
    }
}

/// Caching a room and then adding a user to it is adding the user.
pub proof fn lemma_insert_then_add_user(
    c0: CacheMap<Room>,
    c1: CacheMap<Room>,
    c2: CacheMap<Room>,
    u: Seq<char>,
    r: Seq<char>,
)
    requires
        CacheMap::<Room>::inserted(c0, c1, r),
        CacheMap::<Room>::user_added(c1, c2, u, r),
    ensures
        CacheMap::<Room>::user_added(c0, c2, u, r),
{
    let k = normalize(r);
    if !c0@.contains_key(k) {
        assert(c1.members_of(k) =~= c0.members_of(k));
    }
    assert(c2@.remove(k) =~= c0@.remove(k));
}

/// Caching a user and then recording a level for them is recording the
/// level.
pub proof fn lemma_insert_then_add_auth(
    c0: CacheMap<User>,
    c1: CacheMap<User>,
    c2: CacheMap<User>,
    a: Seq<char>,
    u: Seq<char>,
    r: Seq<char>,
)
    requires
        CacheMap::<User>::inserted(c0, c1, u),
        CacheMap::<User>::auth_added(c1, c2, a, u, r),
    ensures
        CacheMap::<User>::auth_added(c0, c2, a, u, r),
{
    let k = normalize(u);
    if !c0@.contains_key(k) {
        assert(c1.levels_of(k) =~= c0.levels_of(k));
    }
    assert(c2@.remove(k) =~= c0@.remove(k));
}

/// Adding a user to a room and then removing them leaves them out of it,
/// whether or not the room was cached before; no other room changes.
pub proof fn law_add_then_remove_user(
    c0: CacheMap<Room>,
    c1: CacheMap<Room>,
    c2: CacheMap<Room>,
    u: Seq<char>,
    r: Seq<char>,
)
    requires
        CacheMap::<Room>::user_added(c0, c1, u, r),
        CacheMap::<Room>::user_removed(c1, c2, u, r),
    ensures
        !c2.has_user(u, r),
        c2@.contains_key(normalize(r)),
        c2@.remove(normalize(r)) == c0@.remove(normalize(r)),
{
}

/// Inserting two names with one normalized form leaves exactly one entry for
/// it: the second insertion changes nothing.
pub proof fn law_insert_idempotent<T: Target>(
    c0: CacheMap<T>,
    c1: CacheMap<T>,
    c2: CacheMap<T>,
    a: Seq<char>,
    b: Seq<char>,
)
    requires
        normalize(a) == normalize(b),
        CacheMap::<T>::inserted(c0, c1, a),
        CacheMap::<T>::inserted(c1, c2, b),
    ensures
        c2@ == c1@,
        c2@.dom() == c0@.dom().insert(normalize(a)),
{
    assert(c1@.dom() =~= c0@.dom().insert(normalize(a))) by {
        assert(c1@.remove(normalize(a)).dom() == c0@.remove(normalize(a)).dom());
    }
}

} // verus!
