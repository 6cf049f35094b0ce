//! Server lines parsed into events, and what each event does to the session.
use vstd::prelude::*;
use crate::bot::Bot;
use crate::error::Error;
use crate::target::{
    lemma_insert_then_add_auth, lemma_insert_then_add_user, CacheMap, Room, Target, User,
};
use crate::text::{
    chars_of, has_char, join_from, join_spec, lower_of, lowercase, parse_u32, parse_u32_spec,
    same_chars, split_chars, split_spec, string_of, strings_of, strings_view, sub_chars, views,
    decimal, decimal_spec, head, tail, push_str,
};
use crate::helpers::normalize;
use crate::target::MAX_FRAME;
use crate::text::truncate;

verus! {

/// The parts of one line as the protocol defines them.
pub struct Line {
    pub command: Seq<char>,
    pub params: Seq<Seq<char>>,
    pub timestamp: u32,
    pub room: Seq<char>,
    pub auth: Seq<char>,
    pub user: Seq<char>,
    pub payload: Seq<char>,
    pub private: bool,
}

/// The command of a line: its second `|` field, in lower case.
pub open spec fn line_command(fields: Seq<Seq<char>>) -> Seq<char> {
    if fields.len() > 1 {
        lower_of(fields[1])
    } else {
        Seq::empty()
    }
}

/// The parameters: the fields after the command, when there is one.
pub open spec fn line_params(fields: Seq<Seq<char>>, command: Seq<char>) -> Seq<Seq<char>> {
    if command.len() > 0 && fields.len() > 2 {
        fields.subrange(2, fields.len() as int)
    } else {
        Seq::empty()
    }
}

/// The room a line comes from: its first text line without the leading `>`.
pub open spec fn line_room(lines: Seq<Seq<char>>) -> Seq<char> {
    if lines.len() > 0 && lines[0].len() > 0 && lines[0][0] == '>' {
        lines[0].drop_first()
    } else {
        Seq::empty()
    }
}

/// A chat message in a room, with a time stamp.
pub open spec fn is_chat(command: Seq<char>) -> bool {
    command == seq!['c', ':']
}

/// A private message.
pub open spec fn is_pm(command: Seq<char>) -> bool {
    command == seq!['p', 'm']
}

/// A chat message without time stamp, a join, a leave or a rename.
pub open spec fn is_presence(command: Seq<char>) -> bool {
    command == seq!['c'] || command == seq!['j'] || command == seq!['l'] || command == seq!['n']
}

/// The field that holds the acting user, with the authorization level as
/// its first character; zero when the command has none.
pub open spec fn user_field(command: Seq<char>) -> int {
    if is_chat(command) {
        3
    } else if is_pm(command) || is_presence(command) {
        2
    } else {
        0
    }
}

/// A line read by the protocol's rules; `None` when a field that its command
/// needs is missing.
pub open spec fn parse_line(text: Seq<char>) -> Option<Line> {
    parse_with(text, line_command(split_spec(text, '|')))
}

/// A line read by the protocol's rules, given its command in lower case.
pub open spec fn parse_with(text: Seq<char>, command: Seq<char>) -> Option<Line> {
    let fields = split_spec(text, '|');
    let lines = split_spec(text, '\n');
    let params = line_params(fields, command);
    let stamped = command.contains(':');
    let w = user_field(command);
    let chat_like = is_chat(command) || is_pm(command);
    if stamped && params.len() == 0 {
        None
    } else if w > 0 && (fields.len() <= w || fields[w].len() == 0) {
        None
    } else if chat_like && fields.len() < 4 {
        None
    } else {
        Some(
            Line {
                command,
                params,
                timestamp: if stamped {
                    match parse_u32_spec(params[0]) {
                        Some(t) => t,
                        None => 0,
                    }
                } else {
                    0
                },
                room: line_room(lines),
                auth: if w > 0 {
                    fields[w].take(1)
                } else {
                    Seq::empty()
                },
                user: if w > 0 {
                    fields[w].drop_first()
                } else {
                    Seq::empty()
                },
                payload: if chat_like {
                    join_spec(fields.subrange(4, fields.len() as int), seq!['|'])
                } else if w > 0 {
                    Seq::empty()
                } else {
                    lines.last()
                },
                private: is_pm(command),
            },
        )
    }
}

/// What the caller has to do for an event besides what it did to the
/// session.
#[derive(Debug)]
pub enum Action {
    Nothing,
    /// Log in with this challenge, written `<id>|<string>`.
    Login(String),
}

/// The highest avatar number the server offers.
pub const MAX_AVATAR: u64 = 294;

/// An event: one line from the server, parsed.
pub struct Message {
    /// When the line arrived, in seconds.
    pub received: u64,
    pub timestamp: u32,
    pub command: String,
    pub params: Vec<String>,
    pub private: bool,
    pub room: Room,
    pub user: User,
    pub auth: String,
    pub payload: String,
}

impl Message {
    /// This event holds what `l` says.
    pub open spec fn reads(&self, l: Line) -> bool {
        &&& self.command@ == l.command
        &&& strings_view(self.params@) == l.params
        &&& self.timestamp == l.timestamp
        &&& self.private == l.private
        &&& self.room.fresh(l.room)
        &&& self.room.wf()
        &&& self.user.fresh(l.user)
        &&& self.user.wf()
        &&& self.auth@ == l.auth
        &&& self.payload@ == l.payload
    }

    /// What reading line `l` does to the session: the room and the user it
    /// names are cached, and, when it names both, the user is put in the room
    /// with the level that the line gives.
    pub open spec fn recorded(before: Bot, after: Bot, l: Line) -> bool {
        &&& after.login_time == before.login_time
        &&& after.config == before.config
        &&& after.rooms_in == before.rooms_in
        &&& after.outbox == before.outbox
        &&& (l.room.len() > 0 && l.user.len() > 0) ==> {
            &&& CacheMap::<Room>::user_added(before.room_map, after.room_map, l.user, l.room)
            &&& CacheMap::<User>::auth_added(
                before.user_map,
                after.user_map,
                l.auth,
                l.user,
                l.room,
            )
        }
        &&& (l.room.len() > 0 && l.user.len() == 0) ==> {
            &&& CacheMap::<Room>::inserted(before.room_map, after.room_map, l.room)
            &&& after.user_map == before.user_map
        }
        &&& (l.room.len() == 0 && l.user.len() > 0) ==> {
            &&& after.room_map == before.room_map
            &&& CacheMap::<User>::inserted(before.user_map, after.user_map, l.user)
        }
        &&& (l.room.len() == 0 && l.user.len() == 0) ==> {
            &&& after.room_map == before.room_map
            &&& after.user_map == before.user_map
        }
    }

    /// What handling event `m` does: `r` is its result and `after` the
    /// session that `before` becomes.
    pub open spec fn handled(m: Message, before: Bot, after: Bot, r: Result<Action, Error>) -> bool {
        let c = m.command@;
        let p = strings_view(m.params@);
        let room = m.room.name@;
        let user = m.user.name@;
        let fail = r == Err::<Action, Error>(Error::Protocol) && after == before;
        if c == "challstr"@ {
            if p.len() < 2 {
                fail
            } else {
                &&& r matches Ok(Action::Login(s)) && s@ == p[0] + seq!['|'] + p[1]
                &&& after == before
            }
        } else if c == "j"@ || c == "join"@ {
            &&& r == Ok::<Action, Error>(Action::Nothing)
            &&& CacheMap::<Room>::user_added(before.room_map, after.room_map, user, room)
            &&& CacheMap::<User>::auth_added(before.user_map, after.user_map, m.auth@, user, room)
            &&& after.same_but_maps(&before)
        } else if c == "l"@ || c == "leave"@ {
            &&& r == Ok::<Action, Error>(Action::Nothing)
            &&& CacheMap::<Room>::user_removed(before.room_map, after.room_map, user, room)
            &&& after.user_map == before.user_map
            &&& after.same_but_maps(&before)
        } else if c == "n"@ || c == "name"@ {
            if p.len() < 2 {
                fail
            } else {
                &&& r == Ok::<Action, Error>(Action::Nothing)
                &&& exists|mid: CacheMap<Room>|
                    #[trigger] CacheMap::<Room>::user_removed(before.room_map, mid, p[1], room)
                        && CacheMap::<Room>::user_added(mid, after.room_map, user, room)
                &&& CacheMap::<User>::auth_added(before.user_map, after.user_map, m.auth@, user, room)
                &&& after.same_but_maps(&before)
            }
        } else if c == ":"@ {
            &&& r == Ok::<Action, Error>(Action::Nothing)
            &&& after.login_time == m.timestamp
            &&& after.config == before.config
            &&& after.rooms_in == before.rooms_in
            &&& after.user_map == before.user_map
            &&& after.room_map == before.room_map
            &&& after.outbox == before.outbox
        } else if c == "updateuser"@ {
            if p.len() < 3 {
                fail
            } else if p[1] == "0"@ {
                &&& r == Ok::<Action, Error>(Action::Nothing)
                &&& if 0 < before.config.avatar <= MAX_AVATAR {
                    &&& after.queued() == before.queued().push(
                        "|/avatar "@ + decimal_spec(before.config.avatar as nat),
                    )
                    &&& after.same_but_outbox(&before)
                } else {
                    after == before
                }
            } else if p[1] == "1"@ {
                &&& r == Ok::<Action, Error>(Action::Nothing)
                &&& Bot::joined_all(before, after, strings_view(before.config.rooms@))
            } else {
                fail
            }
        } else if c == "users"@ {
            if p.len() < 1 {
                fail
            } else {
                &&& r == Ok::<Action, Error>(Action::Nothing)
                &&& Bot::listed_all(before, after, split_spec(p[0], ',').drop_first(), room)
            }
        } else {
            r == Ok::<Action, Error>(Action::Nothing) && after == before
        }
    }

    /// Handles an event: keeps the caches in step with joins, leaves,
    /// renames (the old id leaves the room, the new name joins it) and user
    /// lists, records the login time, sets the avatar and
    /// joins the configured rooms once logged in, and asks for a login when
    /// the server sends its challenge. A missing field is a protocol error
    /// that changes nothing.
    pub fn handle(&self, bot: &mut Bot) -> (r: Result<Action, Error>)
        requires
            old(bot).wf(),
            self.room.wf(),
            self.user.wf(),
        ensures
            final(bot).wf(),
            Message::handled(*self, *old(bot), *final(bot), r),
    {
        let c = &self.command;
        let np = self.params.len();
        if *c == "challstr".to_owned() {
            if np < 2 {
                return Err(Error::Protocol);
            }
            let mut out = chars_of(self.params[0].as_str());
            out.push('|');
            push_str(&mut out, self.params[1].as_str());
            let s = string_of(out.as_slice());
            assert(s@ =~= strings_view(self.params@)[0] + seq!['|'] + strings_view(self.params@)[1]);
            return Ok(Action::Login(s));
        } else if *c == "j".to_owned() || *c == "join".to_owned() {
            bot.room_map.insert_user_in_room(self.user.name.as_str(), self.room.name.as_str());
            bot.user_map.add_auth_to_user_in_room(
                self.auth.as_str(),
                self.user.name.as_str(),
                self.room.name.as_str(),
            );
        } else if *c == "l".to_owned() || *c == "leave".to_owned() {
            bot.room_map.remove_user_from_room(self.user.name.as_str(), self.room.name.as_str());
        } else if *c == "n".to_owned() || *c == "name".to_owned() {
            if np < 2 {
                return Err(Error::Protocol);
            }
            bot.room_map.remove_user_from_room(self.params[1].as_str(), self.room.name.as_str());
            let ghost mid = bot.room_map;
            bot.room_map.insert_user_in_room(self.user.name.as_str(), self.room.name.as_str());
            bot.user_map.add_auth_to_user_in_room(
                self.auth.as_str(),
                self.user.name.as_str(),
                self.room.name.as_str(),
            );
            proof {
                let p = strings_view(self.params@);
                assert(CacheMap::<Room>::user_removed(old(bot).room_map, mid, p[1], self.room.name@));
            }
        } else if *c == ":".to_owned() {
            bot.set_login_time(self.timestamp);
        } else if *c == "updateuser".to_owned() {
            if np < 3 {
                return Err(Error::Protocol);
            }
            if self.params[1] == "0".to_owned() {
                let avatar = bot.config.avatar;
                if avatar > 0 && avatar <= MAX_AVATAR {
                    let mut out = chars_of("|/avatar ");
                    let mut digits = decimal(avatar);
                    out.append(&mut digits);
                    bot.send(string_of(out.as_slice()));
                }
            } else if self.params[1] == "1".to_owned() {
                self.join_configured(bot);
            } else {
                return Err(Error::Protocol);
            }
        } else if *c == "users".to_owned() {
            if np < 1 {
                return Err(Error::Protocol);
            }
            self.list_users(bot);
        }
        Ok(Action::Nothing)
    }

    /// Joins each room of the configuration, in order.
    fn join_configured(&self, bot: &mut Bot)
        requires
            old(bot).wf(),
        ensures
            final(bot).wf(),
            Bot::joined_all(*old(bot), *final(bot), strings_view(old(bot).config.rooms@)),
    {
        let ghost names = strings_view(bot.config.rooms@);
        let n = bot.config.rooms.len();
        let mut i: usize = 0;
        assert(names.take(0) =~= Seq::<Seq<char>>::empty());
        proof {
            Bot::lemma_joined_none(*bot);
        }
        while i < n
            invariant
                i <= n,
                n == old(bot).config.rooms@.len(),
                names == strings_view(old(bot).config.rooms@),
                bot.config == old(bot).config,
                bot.wf(),
                Bot::joined_all(*old(bot), *bot, names.take(i as int)),
            decreases n - i,
        {
            let name = bot.config.rooms[i].clone();
            let ghost prev = *bot;
            bot.join_room(name.as_str());
            proof {
                assert(names[i as int] == old(bot).config.rooms@[i as int]@);
                assert(names.take(i + 1) =~= names.take(i as int).push(name@));
                Bot::lemma_joined_step(*old(bot), prev, *bot, names.take(i as int), name@);
            }
            i = i + 1;
        }
        assert(names.take(n as int) =~= names);
    }

    /// Puts each user of a user list, after its leading count, in this
    /// event's room.
    fn list_users(&self, bot: &mut Bot)
        requires
            old(bot).wf(),
            self.params@.len() >= 1,
        ensures
            final(bot).wf(),
            Bot::listed_all(
                *old(bot),
                *final(bot),
                split_spec(self.params@[0]@, ',').drop_first(),
                self.room.name@,
            ),
    {
        let cs = chars_of(self.params[0].as_str());
        let entries = split_chars(&cs, ',');
        let ghost es = split_spec(self.params@[0]@, ',').drop_first();
        let mut i: usize = 1;
        assert(es.take(0) =~= Seq::<Seq<char>>::empty());
        proof {
            Bot::lemma_listed_none(*bot, self.room.name@);
        }
        while i < entries.len()
            invariant
                1 <= i <= entries.len(),
                views(entries@) == split_spec(self.params@[0]@, ','),
                es == views(entries@).drop_first(),
                bot.wf(),
                Bot::listed_all(*old(bot), *bot, es.take(i - 1), self.room.name@),
            decreases entries.len() - i,
        {
            let e = &entries[i];
            let auth: Vec<char> = if e.len() > 0 {
                sub_chars(e, 0, 1)
            } else {
                Vec::new()
            };
            let user: Vec<char> = if e.len() > 0 {
                sub_chars(e, 1, e.len())
            } else {
                Vec::new()
            };
            assert(auth@ =~= head(e@));
            assert(user@ =~= tail(e@));
            let a = string_of(auth.as_slice());
            let u = string_of(user.as_slice());
            let ghost prev = *bot;
            bot.room_map.insert_user_in_room(u.as_str(), self.room.name.as_str());
            bot.user_map.add_auth_to_user_in_room(a.as_str(), u.as_str(), self.room.name.as_str());
            proof {
                assert(es[i - 1] == views(entries@)[i as int]);
                assert(es.take(i as int) =~= es.take(i - 1).push(e@));
                Bot::lemma_listed_step(*old(bot), prev, *bot, es.take(i - 1), e@, self.room.name@);
            }
            i = i + 1;
        }
        assert(es.take(entries.len() - 1) =~= es);
    }

    /// The frame that sends `text` back where this event came from: to the
    /// user when it was private, else to the room.
    pub open spec fn reply_frame(&self, text: Seq<char>) -> Seq<char> {
        if self.private {
            truncate(self.user.spec_frame(text), MAX_FRAME as nat)
        } else {
            truncate(self.room.spec_frame(text), MAX_FRAME as nat)
        }
    }

    /// Answers the acting user: queues `(<user>) <text>` where the event
    /// came from.
    pub fn reply(&self, bot: &mut Bot, text: &str)
        ensures
            final(bot).queued() == old(bot).queued().push(
                self.reply_frame(seq!['('] + self.user.name@ + seq![')', ' '] + text@),
            ),
            final(bot).same_but_outbox(old(bot)),
    {
        let mut out: Vec<char> = Vec::new();
        out.push('(');
        push_str(&mut out, self.user.name.as_str());
        out.push(')');
        out.push(' ');
        push_str(&mut out, text);
        let msg = string_of(out.as_slice());
        assert(msg@ =~= seq!['('] + self.user.name@ + seq![')', ' '] + text@);
        if self.private {
            self.user.send(bot, msg.as_str());
        } else {
            self.room.send(bot, msg.as_str());
        }
    }

    /// Queues `text` where the event came from.
    pub fn send(&self, bot: &mut Bot, text: &str)
        ensures
            final(bot).queued() == old(bot).queued().push(self.reply_frame(text@)),
            final(bot).same_but_outbox(old(bot)),
    {
        if self.private {
            self.user.send(bot, text);
        } else {
            self.room.send(bot, text);
        }
    }

    /// The pattern of the configured command prefixes.
    pub fn prefix_string(&self, bot: &Bot) -> (r: String)
        ensures
            r@ == seq!['^', '('] + join_spec(strings_view(bot.config.plugin_prefixes@), seq!['|'])
                + seq![')'],
    {
        bot.config.prefix_string()
    }

    /// Parses one line, given with the room line of its frame before it, and
    /// caches the room and user it names. A line that lacks a field its
    /// command needs is a protocol error and changes nothing.
    pub fn from_string(text: &str, received: u64, bot: &mut Bot) -> (r: Result<Message, Error>)
        requires
            old(bot).wf(),
        ensures
            final(bot).wf(),
            match r {
                Ok(m) => {
                    &&& parse_line(text@) is Some
                    &&& m.reads(parse_line(text@)->0)
                    &&& m.received == received
                    &&& Message::recorded(*old(bot), *final(bot), parse_line(text@)->0)
                },
                Err(e) => {
                    &&& e == Error::Protocol
                    &&& parse_line(text@) is None
                    &&& *final(bot) == *old(bot)
                },
            },
    {
        let cs = chars_of(text);
        let fields = split_chars(&cs, '|');
        let command = if fields.len() > 1 {
            let f = string_of(fields[1].as_slice());
            lowercase(f.as_str())
        } else {
            String::new()
        };
        Message::from_command(text, command.as_str(), received, bot)
    }

    /// Parses one line as `from_string` does, given the command of the line
    /// already in lower case.
    pub fn from_command(text: &str, command: &str, received: u64, bot: &mut Bot) -> (r: Result<
        Message,
        Error,
    >)
        requires
            old(bot).wf(),
        ensures
            final(bot).wf(),
            match r {
                Ok(m) => {
                    &&& parse_with(text@, command@) is Some
                    &&& m.reads(parse_with(text@, command@)->0)
                    &&& m.received == received
                    &&& Message::recorded(*old(bot), *final(bot), parse_with(text@, command@)->0)
                },
                Err(e) => {
                    &&& e == Error::Protocol
                    &&& parse_with(text@, command@) is None
                    &&& *final(bot) == *old(bot)
                },
            },
    {
        let cs = chars_of(text);
        let fields = split_chars(&cs, '|');
        let lines = split_chars(&cs, '\n');
        let ghost fs = split_spec(text@, '|');
        let ghost ls = split_spec(text@, '\n');
        let command = command.to_owned();
        let cmd = chars_of(command.as_str());
        let params: Vec<String> = if cmd.len() > 0 && fields.len() > 2 {
            strings_of(&fields, 2)
        } else {
            Vec::new()
        };
        assert(strings_view(params@) =~= line_params(fs, cmd@));
        let stamped = has_char(&cmd, ':');
        let chat = same_chars(&cmd, &['c', ':']);
        let pm = same_chars(&cmd, &['p', 'm']);
        let presence = same_chars(&cmd, &['c']) || same_chars(&cmd, &['j']) || same_chars(
            &cmd,
            &['l'],
        ) || same_chars(&cmd, &['n']);
        proof {
            assert(['c', ':']@ == seq!['c', ':']);
            assert(['p', 'm']@ == seq!['p', 'm']);
            assert(['c']@ == seq!['c']);
            assert(['j']@ == seq!['j']);
            assert(['l']@ == seq!['l']);
            assert(['n']@ == seq!['n']);
        }
        let who: usize = if chat {
            3
        } else if pm || presence {
            2
        } else {
            0
        };
        assert(who == user_field(cmd@));
        if stamped && params.len() == 0 {
            return Err(Error::Protocol);
        }
        if who > 0 && (fields.len() <= who || fields[who].len() == 0) {
            return Err(Error::Protocol);
        }
        if (chat || pm) && fields.len() < 4 {
            return Err(Error::Protocol);
        }
        let timestamp: u32 = if stamped {
            match parse_u32(&fields[2]) {
                Some(t) => t,
                None => 0,
            }
        } else {
            0
        };
        let room_chars: Vec<char> = if lines[0].len() > 0 && lines[0][0] == '>' {
            sub_chars(&lines[0], 1, lines[0].len())
        } else {
            Vec::new()
        };
        assert(room_chars@ == line_room(ls));
        let auth_chars: Vec<char> = if who > 0 {
            sub_chars(&fields[who], 0, 1)
        } else {
            Vec::new()
        };
        let user_chars: Vec<char> = if who > 0 {
            sub_chars(&fields[who], 1, fields[who].len())
        } else {
            Vec::new()
        };
        let payload_chars: Vec<char> = if chat || pm {
            join_from(&fields, 4, '|')
        } else if who > 0 {
            Vec::new()
        } else {
            let last = lines.len() - 1;
            sub_chars(&lines[last], 0, lines[last].len())
        };
        let room = string_of(room_chars.as_slice());
        let user = string_of(user_chars.as_slice());
        let auth = string_of(auth_chars.as_slice());
        let payload = string_of(payload_chars.as_slice());
        let ghost l = parse_with(text@, cmd@)->0;
        assert(l.payload =~= payload@);
        assert(l.user =~= user@);
        assert(l.auth =~= auth@);
        assert(l.timestamp == timestamp);
        let ghost b0 = *bot;
        if room_chars.len() > 0 {
            bot.room_map.insert(room.as_str());
        }
        let ghost b1 = *bot;
        if user_chars.len() > 0 {
            bot.user_map.insert(user.as_str());
        }
        let ghost b2 = *bot;
        if room_chars.len() > 0 && user_chars.len() > 0 {
            bot.room_map.insert_user_in_room(user.as_str(), room.as_str());
            bot.user_map.add_auth_to_user_in_room(auth.as_str(), user.as_str(), room.as_str());
            proof {
                lemma_insert_then_add_user(b0.room_map, b1.room_map, bot.room_map, l.user, l.room);
                lemma_insert_then_add_auth(
                    b0.user_map,
                    b2.user_map,
                    bot.user_map,
                    l.auth,
                    l.user,
                    l.room,
                );
            }
        }
        let m = Message {
            received,
            timestamp,
            command,
            params,
            private: pm,
            room: Room::new(room.as_str()),
            user: User::new(user.as_str()),
            auth,
            payload,
        };
        Ok(m)
    }
}

/// In a chat line whose user field is `<auth><name>`, the level is exactly
/// that first character and the user name exactly the rest, whatever the
/// character is (a space included); an event read from the line says the
/// same.
pub proof fn law_chat_user_field(text: Seq<char>, auth: char, name: Seq<char>, m: Message)
    requires
        line_command(split_spec(text, '|')) == seq!['c', ':'],
        split_spec(text, '|').len() >= 4,
        split_spec(text, '|')[3] == seq![auth] + name,
        parse_line(text) is Some ==> m.reads(parse_line(text)->0),
    ensures
        parse_line(text) is Some,
        parse_line(text)->0.auth == seq![auth],
        parse_line(text)->0.user == name,
        m.auth@ == seq![auth],
        m.user.name@ == name,
        m.user.id@ == normalize(name),
{
    let fields = split_spec(text, '|');
    assert(seq!['c', ':'].contains(':')) by {
        assert(seq!['c', ':'][1] == ':');
    }
    assert((seq![auth] + name).take(1) =~= seq![auth]);
    assert((seq![auth] + name).drop_first() =~= name);
}

} // verus!
