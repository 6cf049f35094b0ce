//! The session: configuration, login time, joined rooms, the caches of rooms
//! and users, and the queue of frames waiting to be sent.
use vstd::prelude::*;
use crate::config::Config;
use crate::helpers::normalize;
use crate::table::Table;
use crate::target::{CacheMap, Room, User};
use crate::error::Error;
use crate::helpers::sanitize;
use crate::message::Message;
use crate::text::{
    chars_of, head, push_str, split_chars, split_spec, string_of, strings_view,
    sub_chars, tail, views,
};

verus! {

/// The lines of a frame, each ready for the parser: when the first line
/// starts with `>` it names the room of the frame, and every other line is
/// given with it, as `<room line>\n<line>`; otherwise each line is given
/// after an empty room line.
pub open spec fn frame_lines_spec(payload: Seq<char>) -> Seq<Seq<char>> {
    let ls = split_spec(payload, '\n');
    let has_room = ls.len() > 0 && ls[0].len() > 0 && ls[0][0] == '>';
    let room = if has_room {
        ls[0]
    } else {
        Seq::empty()
    };
    let rest = if has_room {
        ls.drop_first()
    } else {
        ls
    };
    rest.map_values(|l: Seq<char>| room + seq!['\n'] + l)
}

/// Splits a frame into the lines the parser takes, each with the room line
/// of the frame before it.
pub fn frame_lines(payload: &str) -> (r: Vec<String>)
    ensures
        strings_view(r@) == frame_lines_spec(payload@),
{
    let cs = chars_of(payload);
    let ls = split_chars(&cs, '\n');
    let ghost lv = split_spec(payload@, '\n');
    let has_room = ls[0].len() > 0 && ls[0][0] == '>';
    let room: Vec<char> = if has_room {
        sub_chars(&ls[0], 0, ls[0].len())
    } else {
        Vec::new()
    };
    let start: usize = if has_room {
        1
    } else {
        0
    };
    let ghost rest = if has_room {
        lv.drop_first()
    } else {
        lv
    };
    assert(rest =~= views(ls@).subrange(start as int, ls@.len() as int));
    let ghost rv = room@;
    assert(lv[0] == ls@[0]@);
    assert(ls@[0]@.subrange(0, ls@[0]@.len() as int) =~= ls@[0]@);
    assert(frame_lines_spec(payload@) =~= rest.map_values(|l: Seq<char>| rv + seq!['\n'] + l));
    let mut out: Vec<String> = Vec::new();
    let mut i: usize = start;
    while i < ls.len()
        invariant
            start <= i <= ls.len(),
            views(ls@) == lv,
            rest == views(ls@).subrange(start as int, ls@.len() as int),
            room@ == rv,
            strings_view(out@) =~= rest.take(i - start).map_values(
                |l: Seq<char>| rv + seq!['\n'] + l,
            ),
        decreases ls.len() - i,
    {
        let mut line = sub_chars(&room, 0, room.len());
        line.push('\n');
        let mut more = sub_chars(&ls[i], 0, ls[i].len());
        line.append(&mut more);
        let t = string_of(line.as_slice());
        assert(t@ =~= rv + seq!['\n'] + ls@[i as int]@);
        let ghost prev = out@;
        out.push(t);
        assert(strings_view(out@) =~= strings_view(prev).push(t@));
        assert(rest.take(i + 1 - start) =~= rest.take(i - start).push(ls@[i as int]@));
        assert(rest.take(i + 1 - start).map_values(|l: Seq<char>| rv + seq!['\n'] + l)
            =~= rest.take(i - start).map_values(|l: Seq<char>| rv + seq!['\n'] + l).push(t@));
        i = i + 1;
    }
    assert(rest.take(ls.len() - start) =~= rest);
    assert(strings_view(out@) =~= frame_lines_spec(payload@));
    out
}

/// The form fields of a login request: with a password, a login by name
/// and password; without one, an assertion asked for the normalized name.
/// The challenge comes last in both.
pub open spec fn login_form_spec(user: Seq<char>, pass: Seq<char>, challenge: Seq<char>) -> Seq<
    (Seq<char>, Seq<char>),
> {
    if pass.len() == 0 {
        seq![
            ("act"@, "getassertion"@),
            ("userid"@, normalize(user)),
            ("challstr"@, challenge),
        ]
    } else {
        seq![("act"@, "login"@), ("name"@, user), ("pass"@, pass), ("challstr"@, challenge)]
    }
}

/// The texts of a list of form fields.
pub open spec fn fields_view(v: Seq<(String, String)>) -> Seq<(Seq<char>, Seq<char>)> {
    v.map_values(|f: (String, String)| (f.0@, f.1@))
}

/// The form fields to post for a login with `challenge`.
pub fn login_form(user: &str, pass: &str, challenge: &str) -> (r: Vec<(String, String)>)
    ensures
        fields_view(r@) == login_form_spec(user@, pass@, challenge@),
{
    let mut out: Vec<(String, String)> = Vec::new();
    if pass.is_empty() {
        out.push(("act".to_owned(), "getassertion".to_owned()));
        out.push(("userid".to_owned(), sanitize(user)));
    } else {
        out.push(("act".to_owned(), "login".to_owned()));
        out.push(("name".to_owned(), user.to_owned()));
        out.push(("pass".to_owned(), pass.to_owned()));
    }
    out.push(("challstr".to_owned(), challenge.to_owned()));
    assert(fields_view(out@) =~= login_form_spec(user@, pass@, challenge@));
    out
}

/// The string under `key` in the JSON object that `text` holds, as
/// `serde_json` reads it; `None` when the text is no JSON, or the key is
/// missing, or its value is no string.
pub uninterp spec fn json_string_field(text: Seq<char>, key: Seq<char>) -> Option<Seq<char>>;

/// Relies on `serde_json::from_str` into a `serde_json::Value`, then
/// `Value::get` with a key and `Value::as_str`: the string under `key`;
/// the outcome depends on the two texts alone.
#[verifier::external_body]
fn json_field(text: &str, key: &str) -> (r: Option<String>)
    ensures
        match r {
            Some(s) => json_string_field(text@, key@) == Some(s@),
            None => json_string_field(text@, key@) is None,
        },
{
    let v: serde_json::Value = serde_json::from_str(text).ok()?;
    let field = v.get(key)?;
    let s = field.as_str()?;
    Some(s.to_owned())
}

/// The state of one session with the server. Frames to send wait in
/// `outbox`, in the order they were queued.
pub struct Bot {
    pub login_time: u32,
    pub config: Config,
    pub rooms_in: Table<()>,
    pub user_map: CacheMap<User>,
    pub room_map: CacheMap<Room>,
    pub outbox: Vec<String>,
}

impl Bot {
    pub open spec fn wf(&self) -> bool {
        &&& self.rooms_in.wf()
        &&& self.user_map.wf()
        &&& self.room_map.wf()
    }

    /// The frames waiting to be sent, oldest first.
    pub open spec fn queued(&self) -> Seq<Seq<char>> {
        strings_view(self.outbox@)
    }

    /// Everything but the queue of frames is as in `other`.
    pub open spec fn same_but_outbox(&self, other: &Bot) -> bool {
        &&& self.login_time == other.login_time
        &&& self.config == other.config
        &&& self.rooms_in == other.rooms_in
        &&& self.user_map == other.user_map
        &&& self.room_map == other.room_map
    }

    /// A session that has joined nothing and knows no one.
    pub fn new(config: Config) -> (r: Bot)
        ensures
            r.wf(),
            r.login_time == 0,
            r.config == config,
            r.rooms_in@ == Map::<Seq<char>, ()>::empty(),
            r.user_map@ == Map::<Seq<char>, User>::empty(),
            r.room_map@ == Map::<Seq<char>, Room>::empty(),
            r.queued() == Seq::<Seq<char>>::empty(),
    {
        let r = Bot {
            login_time: 0,
            config,
            rooms_in: Table::new(),
            user_map: CacheMap::new(),
            room_map: CacheMap::new(),
            outbox: Vec::new(),
        };
        assert(r.queued() =~= Seq::<Seq<char>>::empty());
        r
    }

    /// Queues a frame; it never blocks.
    pub fn send(&mut self, text: String)
        ensures
            final(self).queued() == old(self).queued().push(text@),
            final(self).same_but_outbox(old(self)),
    {
        self.outbox.push(text);
        assert(self.queued() =~= old(self).queued().push(text@));
    }

    /// Hands over the queued frames, oldest first, and empties the queue.
    pub fn take_outgoing(&mut self) -> (r: Vec<String>)
        ensures
            strings_view(r@) == old(self).queued(),
            final(self).queued() == Seq::<Seq<char>>::empty(),
            final(self).same_but_outbox(old(self)),
    {
        let mut out: Vec<String> = Vec::new();
        core::mem::swap(&mut out, &mut self.outbox);
        assert(self.queued() =~= Seq::<Seq<char>>::empty());
        out
    }

    /// `after` is `before` having joined room `name`.
    pub open spec fn joined(before: Bot, after: Bot, name: Seq<char>) -> bool {
        &&& CacheMap::<Room>::inserted(before.room_map, after.room_map, name)
        &&& after.rooms_in@ == before.rooms_in@.insert(name, ())
        &&& after.queued() == before.queued().push(seq!['|', '/', 'j', 'o', 'i', 'n', ' '] + name)
        &&& after.login_time == before.login_time
        &&& after.config == before.config
        &&& after.user_map == before.user_map
    }

    /// `after` is `before` having joined each room of `names` in turn:
    /// `steps` are the sessions in between.
    pub open spec fn joined_through(steps: Seq<Bot>, names: Seq<Seq<char>>) -> bool {
        &&& steps.len() == names.len() + 1
        &&& forall|i: int|
            0 <= i < names.len() ==> #[trigger] Bot::joined(steps[i], steps[i + 1], names[i])
    }

    /// `after` is `before` having joined each room of `names` in turn.
    pub open spec fn joined_all(before: Bot, after: Bot, names: Seq<Seq<char>>) -> bool {
        exists|steps: Seq<Bot>|
            #[trigger] Bot::joined_through(steps, names) && steps[0] == before && steps.last()
                == after
    }

    /// `after` is `before` with the user of list entry `entry`, written
    /// `<auth><name>`, put in room `room` at that level.
    pub open spec fn listed(before: Bot, after: Bot, entry: Seq<char>, room: Seq<char>) -> bool {
        &&& CacheMap::<Room>::user_added(before.room_map, after.room_map, tail(entry), room)
        &&& CacheMap::<User>::auth_added(
            before.user_map,
            after.user_map,
            head(entry),
            tail(entry),
            room,
        )
        &&& after.same_but_maps(&before)
    }

    /// `after` is `before` with each entry of `entries` listed in turn:
    /// `steps` are the sessions in between.
    pub open spec fn listed_through(
        steps: Seq<Bot>,
        entries: Seq<Seq<char>>,
        room: Seq<char>,
    ) -> bool {
        &&& steps.len() == entries.len() + 1
        &&& forall|i: int|
            0 <= i < entries.len() ==> #[trigger] Bot::listed(
                steps[i],
                steps[i + 1],
                entries[i],
                room,
            )
    }

    /// `after` is `before` with each entry of `entries` listed in turn.
    pub open spec fn listed_all(
        before: Bot,
        after: Bot,
        entries: Seq<Seq<char>>,
        room: Seq<char>,
    ) -> bool {
        exists|steps: Seq<Bot>|
            #[trigger] Bot::listed_through(steps, entries, room) && steps[0] == before
                && steps.last() == after
    }

    /// Joining nothing leaves the session as it is.
    pub proof fn lemma_joined_none(b0: Bot)
        ensures
            Bot::joined_all(b0, b0, Seq::empty()),
    {
        assert(Bot::joined_through(seq![b0], Seq::empty()));
    }

    /// Joining one more room extends a run of joins.
    pub proof fn lemma_joined_step(b0: Bot, b1: Bot, b2: Bot, names: Seq<Seq<char>>, name: Seq<char>)
        requires
            Bot::joined_all(b0, b1, names),
            Bot::joined(b1, b2, name),
        ensures
            Bot::joined_all(b0, b2, names.push(name)),
    {
        let steps = choose|steps: Seq<Bot>|
            #[trigger] Bot::joined_through(steps, names) && steps[0] == b0 && steps.last() == b1;
        let more = steps.push(b2);
        let ns = names.push(name);
        assert forall|i: int| 0 <= i < ns.len() implies #[trigger] Bot::joined(
            more[i],
            more[i + 1],
            ns[i],
        ) by {
            if i < names.len() {
                assert(Bot::joined(steps[i], steps[i + 1], names[i]));
            }
        }
        assert(Bot::joined_through(more, ns));
    }

    /// Listing nothing leaves the session as it is.
    pub proof fn lemma_listed_none(b0: Bot, room: Seq<char>)
        ensures
            Bot::listed_all(b0, b0, Seq::empty(), room),
    {
        assert(Bot::listed_through(seq![b0], Seq::empty(), room));
    }

    /// Listing one more user extends a run of listings.
    pub proof fn lemma_listed_step(
        b0: Bot,
        b1: Bot,
        b2: Bot,
        entries: Seq<Seq<char>>,
        entry: Seq<char>,
        room: Seq<char>,
    )
        requires
            Bot::listed_all(b0, b1, entries, room),
            Bot::listed(b1, b2, entry, room),
        ensures
            Bot::listed_all(b0, b2, entries.push(entry), room),
    {
        let steps = choose|steps: Seq<Bot>|
            #[trigger] Bot::listed_through(steps, entries, room) && steps[0] == b0 && steps.last()
                == b1;
        let more = steps.push(b2);
        let es = entries.push(entry);
        assert forall|i: int| 0 <= i < es.len() implies #[trigger] Bot::listed(
            more[i],
            more[i + 1],
            es[i],
            room,
        ) by {
            if i < entries.len() {
                assert(Bot::listed(steps[i], steps[i + 1], entries[i], room));
            }
        }
        assert(Bot::listed_through(more, es, room));
    }

    /// Everything but the two caches is as in `other`.
    pub open spec fn same_but_maps(&self, other: &Bot) -> bool {
        &&& self.login_time == other.login_time
        &&& self.config == other.config
        &&& self.rooms_in == other.rooms_in
        &&& self.outbox == other.outbox
    }

    /// Joins a room: caches it, records it as joined, and queues the
    /// command `|/join <name>`.
    pub fn join_room(&mut self, name: &str)
        requires
            old(self).wf(),
        ensures
            final(self).wf(),
            Bot::joined(*old(self), *final(self), name@),
    {
        self.room_map.insert(name);
        self.rooms_in.set(name.to_owned(), ());
        let mut out: Vec<char> = Vec::new();
        out.push('|');
        out.push('/');
        out.push('j');
        out.push('o');
        out.push('i');
        out.push('n');
        out.push(' ');
        push_str(&mut out, name);
        assert(out@ =~= seq!['|', '/', 'j', 'o', 'i', 'n', ' '] + name@);
        self.send(string_of(out.as_slice()));
    }

    /// Leaves a room: drops it from the cache and from the joined rooms, and
    /// queues the command `|/leave <name>`. False if the room was not cached.
    pub fn leave_room(&mut self, name: &str) -> (r: bool)
        requires
            old(self).wf(),
        ensures
            final(self).wf(),
            r == old(self).room_map@.contains_key(normalize(name@)),
            final(self).room_map@ == old(self).room_map@.remove(normalize(name@)),
            final(self).rooms_in@ == old(self).rooms_in@.remove(name@),
            final(self).queued() == old(self).queued().push(
                seq!['|', '/', 'l', 'e', 'a', 'v', 'e', ' '] + name@,
            ),
            final(self).login_time == old(self).login_time,
            final(self).config == old(self).config,
            final(self).user_map == old(self).user_map,
    {
        let r = self.room_map.remove(name);
        let key = name.to_owned();
        self.rooms_in.remove(&key);
        let mut out: Vec<char> = Vec::new();
        out.push('|');
        out.push('/');
        out.push('l');
        out.push('e');
        out.push('a');
        out.push('v');
        out.push('e');
        out.push(' ');
        push_str(&mut out, name);
        assert(out@ =~= seq!['|', '/', 'l', 'e', 'a', 'v', 'e', ' '] + name@);
        self.send(string_of(out.as_slice()));
        r
    }

    /// Whether an event goes to the plugins: it has a payload and was sent
    /// no earlier than the login, so that replayed history is left alone.
    pub fn is_live(&self, m: &Message) -> (r: bool)
        ensures
            r == (m.payload@.len() > 0 && m.timestamp >= self.login_time),
    {
        !m.payload.as_str().is_empty() && m.timestamp >= self.login_time
    }

    /// Finishes a login with the server's answer `body`: a JSON object after
    /// one throwaway character. Its `assertion` is sent as
    /// `|/trn <user>,0,<assertion>`. A login error, with nothing sent, when
    /// the body is empty or holds no assertion.
    pub fn login(&mut self, user: &str, body: &str) -> (r: Result<(), Error>)
        ensures
            final(self).same_but_outbox(old(self)),
            match r {
                Ok(()) => {
                    &&& body@.len() > 0
                    &&& json_string_field(body@.drop_first(), "assertion"@) is Some
                    &&& final(self).queued() == old(self).queued().push(
                        "|/trn "@ + user@ + ",0,"@ + json_string_field(
                            body@.drop_first(),
                            "assertion"@,
                        )->0,
                    )
                },
                Err(e) => {
                    &&& e == Error::Login
                    &&& (body@.len() == 0 || json_string_field(body@.drop_first(), "assertion"@) is None)
                    &&& final(self).queued() == old(self).queued()
                },
            },
    {
        let cs = chars_of(body);
        if cs.len() == 0 {
            return Err(Error::Login);
        }
        let rest = string_of(sub_chars(&cs, 1, cs.len()).as_slice());
        assert(rest@ =~= body@.drop_first());
        match json_field(rest.as_str(), "assertion") {
            None => Err(Error::Login),
            Some(a) => {
                let mut out: Vec<char> = Vec::new();
                push_str(&mut out, "|/trn ");
                push_str(&mut out, user);
                push_str(&mut out, ",0,");
                push_str(&mut out, a.as_str());
                self.send(string_of(out.as_slice()));
                Ok(())
            },
        }
    }

    /// Records the time from which messages count as live.
    pub fn set_login_time(&mut self, timestamp: u32)
        ensures
            final(self).login_time == timestamp,
            final(self).config == old(self).config,
            final(self).rooms_in == old(self).rooms_in,
            final(self).user_map == old(self).user_map,
            final(self).room_map == old(self).room_map,
            final(self).outbox == old(self).outbox,
    {
        self.login_time = timestamp;
    }
}

} // verus!
