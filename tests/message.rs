use showdown::bot::{frame_lines, login_form, Bot};
use showdown::config::Config;
use showdown::error::Error;
use showdown::message::{Action, Message};
use showdown::plugin::viper::ViperPlugin;
use showdown::plugin::meme::MemePlugin;
use showdown::plugin::{Plugin, Plugins};
use showdown::cooldown::Verdict;

fn config() -> Config {
    Config {
        host: "sim.smogon.com".to_string(),
        port: "8000".to_string(),
        throttle_ms: 333,
        rooms: vec!["Lobby".to_string(), "Help".to_string()],
        avatar: 5,
        plugin_prefixes: vec![".".to_string()],
        case_insensitive: false,
    }
}

fn parse(line: &str, bot: &mut Bot) -> Message {
    Message::from_string(line, 0, bot).unwrap()
}

#[test]
fn end_to_end_chat_frame() {
    let mut bot = Bot::new(config());
    bot.set_login_time(500);
    let lines = frame_lines(">lobby\n|c:|1000|#alice|hello world");
    assert_eq!(lines, vec![">lobby\n|c:|1000|#alice|hello world".to_string()]);
    let m = Message::from_string(&lines[0], 7, &mut bot).unwrap();
    assert_eq!(m.room.name, "lobby");
    assert_eq!(m.user.name, "alice");
    assert_eq!(m.auth, "#");
    assert_eq!(m.timestamp, 1000);
    assert_eq!(m.received, 7);
    assert_eq!(m.payload, "hello world");
    assert_eq!(m.command, "c:");
    assert!(!m.private);
    assert!(bot.is_live(&m));
    assert!(bot.room_map.contains("lobby"));
    assert!(bot.room_map.contains_user_in_room("alice", "lobby"));
    let u = bot.user_map.map.get(&"alice".to_string()).unwrap();
    assert!(u.has_auth("#", "lobby"));
}

#[test]
fn history_before_login_is_not_live() {
    let mut bot = Bot::new(config());
    bot.set_login_time(2000);
    let m = parse(">lobby\n|c:|1000|#alice|old news", &mut bot);
    assert!(!bot.is_live(&m));
    let m = parse(">lobby\n|j| bob", &mut bot);
    assert!(!bot.is_live(&m));
}

#[test]
fn auth_is_first_character() {
    for (field, auth, name) in [(" bob", " ", "bob"), ("+Bob B", "+", "Bob B"), ("@x", "@", "x"), ("★star", "★", "star")] {
        let mut bot = Bot::new(config());
        let line = format!(">room\n|c:|5|{}|hi|there", field);
        let m = parse(&line, &mut bot);
        assert_eq!(m.auth, auth);
        assert_eq!(m.user.name, name);
        assert_eq!(m.payload, "hi|there");
    }
}

#[test]
fn private_message_is_marked() {
    let mut bot = Bot::new(config());
    let m = parse("\n|pm|+Carol|~bot|psst", &mut bot);
    assert!(m.private);
    assert_eq!(m.user.name, "Carol");
    assert_eq!(m.auth, "+");
    assert_eq!(m.payload, "psst");
    assert_eq!(m.room.name, "");
    assert!(bot.user_map.contains("carol"));
    assert_eq!(bot.room_map.len(), 0);
}

#[test]
fn bare_line_and_other_commands() {
    let mut bot = Bot::new(config());
    let m = parse("\nhello there", &mut bot);
    assert_eq!(m.command, "");
    assert_eq!(m.payload, "hello there");
    assert!(m.params.is_empty());
    let m = parse(">lobby\n|html|<b>hi</b>", &mut bot);
    assert_eq!(m.command, "html");
    assert_eq!(m.params, vec!["<b>hi</b>".to_string()]);
    assert_eq!(m.payload, "|html|<b>hi</b>");
    assert!(bot.room_map.contains("lobby"));
}

#[test]
fn command_is_lower_cased() {
    let mut bot = Bot::new(config());
    let m = parse("\n|C:|12|+ann|x", &mut bot);
    assert_eq!(m.command, "c:");
    assert_eq!(m.timestamp, 12);
}

#[test]
fn timestamps() {
    let mut bot = Bot::new(config());
    assert_eq!(parse("\n|:|1500000000", &mut bot).timestamp, 1500000000);
    assert_eq!(parse("\n|:|+42", &mut bot).timestamp, 42);
    assert_eq!(parse("\n|:|abc", &mut bot).timestamp, 0);
    assert_eq!(parse("\n|:|4294967295", &mut bot).timestamp, 4294967295);
    assert_eq!(parse("\n|:|4294967296", &mut bot).timestamp, 0);
    assert_eq!(parse("\n|:|", &mut bot).timestamp, 0);
}

#[test]
fn malformed_lines_are_protocol_errors() {
    let mut bot = Bot::new(config());
    assert_eq!(Message::from_string(">lobby\n|c:|1000", 0, &mut bot).err(), Some(Error::Protocol));
    assert_eq!(Message::from_string(">lobby\n|c:|1000||hi", 0, &mut bot).err(), Some(Error::Protocol));
    assert_eq!(Message::from_string("\n|pm|+a", 0, &mut bot).err(), Some(Error::Protocol));
    assert_eq!(Message::from_string(">lobby\n|j", 0, &mut bot).err(), Some(Error::Protocol));
    assert_eq!(Message::from_string("\n|:", 0, &mut bot).err(), Some(Error::Protocol));
    assert_eq!(bot.room_map.len(), 0);
    assert_eq!(bot.user_map.len(), 0);
}

#[test]
fn frames_without_room() {
    assert_eq!(frame_lines("|a\n|b"), vec!["\n|a".to_string(), "\n|b".to_string()]);
    assert_eq!(frame_lines(""), vec!["\n".to_string()]);
    assert_eq!(frame_lines(">r\n|x"), vec![">r\n|x".to_string()]);
}

#[test]
fn handle_challenge_asks_for_login() {
    let mut bot = Bot::new(config());
    let m = parse("\n|challstr|4|abc", &mut bot);
    match m.handle(&mut bot) {
        Ok(Action::Login(c)) => assert_eq!(c, "4|abc"),
        _ => panic!("no login"),
    }
    let m = parse("\n|challstr|4", &mut bot);
    assert_eq!(m.handle(&mut bot).err(), Some(Error::Protocol));
}

#[test]
fn handle_join_leave_and_rename() {
    let mut bot = Bot::new(config());
    let m = parse(">lobby\n|j|%Dan", &mut bot);
    assert!(m.handle(&mut bot).is_ok());
    assert!(bot.room_map.contains_user_in_room("dan", "lobby"));
    let m = parse(">lobby\n|l|%Dan", &mut bot);
    assert!(m.handle(&mut bot).is_ok());
    assert!(!bot.room_map.contains_user_in_room("dan", "lobby"));
    let m = parse(">lobby\n|j| OldDan", &mut bot);
    assert!(m.handle(&mut bot).is_ok());
    assert!(bot.room_map.contains_user_in_room("olddan", "lobby"));
    let m = parse(">lobby\n|n| Eve|olddan", &mut bot);
    assert!(m.handle(&mut bot).is_ok());
    assert!(bot.room_map.contains_user_in_room("eve", "lobby"));
    assert!(!bot.room_map.contains_user_in_room("olddan", "lobby"));
    let m = parse(">lobby\n|n| Fay", &mut bot);
    assert_eq!(m.handle(&mut bot).err(), Some(Error::Protocol));
}

#[test]
fn handle_login_time_avatar_and_rooms() {
    let mut bot = Bot::new(config());
    let m = parse("\n|:|777", &mut bot);
    assert!(m.handle(&mut bot).is_ok());
    assert_eq!(bot.login_time, 777);
    let m = parse("\n|updateuser|Bot|0|1", &mut bot);
    assert!(m.handle(&mut bot).is_ok());
    assert_eq!(bot.take_outgoing(), vec!["|/avatar 5".to_string()]);
    let m = parse("\n|updateuser|Bot|1|1", &mut bot);
    assert!(m.handle(&mut bot).is_ok());
    assert_eq!(bot.take_outgoing(), vec!["|/join Lobby".to_string(), "|/join Help".to_string()]);
    assert!(bot.room_map.contains("lobby"));
    assert!(bot.room_map.contains("help"));
    let m = parse("\n|updateuser|Bot|2|1", &mut bot);
    assert_eq!(m.handle(&mut bot).err(), Some(Error::Protocol));
    let m = parse("\n|updateuser|Bot|1", &mut bot);
    assert_eq!(m.handle(&mut bot).err(), Some(Error::Protocol));
    assert!(bot.take_outgoing().is_empty());
}

#[test]
fn avatar_out_of_range_is_not_sent() {
    let mut c = config();
    c.avatar = 295;
    let mut bot = Bot::new(c);
    let m = parse("\n|updateuser|Bot|0|1", &mut bot);
    assert!(m.handle(&mut bot).is_ok());
    assert!(bot.take_outgoing().is_empty());
}

#[test]
fn handle_user_list() {
    let mut bot = Bot::new(config());
    let m = parse(">lobby\n|users|3,@Ann, Bo,+Cy", &mut bot);
    assert!(m.handle(&mut bot).is_ok());
    assert!(bot.room_map.contains_user_in_room("ann", "lobby"));
    assert!(bot.room_map.contains_user_in_room("bo", "lobby"));
    assert!(bot.room_map.contains_user_in_room("cy", "lobby"));
    let ann = bot.user_map.map.get(&"ann".to_string()).unwrap();
    assert!(ann.has_auth("@", "lobby"));
}

#[test]
fn join_and_leave_rooms() {
    let mut bot = Bot::new(config());
    bot.join_room("Lobby");
    assert!(bot.room_map.contains("lobby"));
    assert!(bot.leave_room("Lobby"));
    assert!(!bot.leave_room("Lobby"));
    assert_eq!(
        bot.take_outgoing(),
        vec!["|/join Lobby".to_string(), "|/leave Lobby".to_string(), "|/leave Lobby".to_string()]
    );
}

#[test]
fn login_answer_sends_assertion() {
    let mut bot = Bot::new(config());
    assert!(bot.login("Bob", "]{\"actionsuccess\":true,\"assertion\":\"xyz\"}").is_ok());
    assert_eq!(bot.take_outgoing(), vec!["|/trn Bob,0,xyz".to_string()]);
    assert_eq!(bot.login("Bob", "]{\"other\":1}").err(), Some(Error::Login));
    assert_eq!(bot.login("Bob", "]not json").err(), Some(Error::Login));
    assert_eq!(bot.login("Bob", "").err(), Some(Error::Login));
    assert!(bot.take_outgoing().is_empty());
}

#[test]
fn login_form_fields() {
    let f = login_form("Bob B", "", "4|abc");
    let want: Vec<(String, String)> = vec![
        ("act".into(), "getassertion".into()),
        ("userid".into(), "bobb".into()),
        ("challstr".into(), "4|abc".into()),
    ];
    assert_eq!(f, want);
    let f = login_form("Bob B", "pw", "4|abc");
    let want: Vec<(String, String)> = vec![
        ("act".into(), "login".into()),
        ("name".into(), "Bob B".into()),
        ("pass".into(), "pw".into()),
        ("challstr".into(), "4|abc".into()),
    ];
    assert_eq!(f, want);
}

#[test]
fn replies_follow_the_event() {
    let mut bot = Bot::new(config());
    let m = parse(">lobby\n|c:|1|+ann|hey", &mut bot);
    m.reply(&mut bot, "hi");
    m.send(&mut bot, "plain");
    let p = parse("\n|pm|+ann|~bot|hey", &mut bot);
    p.reply(&mut bot, "hi");
    assert_eq!(
        bot.take_outgoing(),
        vec!["lobby|(ann) hi".to_string(), "lobby|plain".to_string(), "|/w ann,(ann) hi".to_string()]
    );
    assert_eq!(m.prefix_string(&bot), "^(.)");
}

#[test]
fn viper_rate_limit_replies_once() {
    let mut bot = Bot::new(config());
    let m = parse(">lobby\n|c:|1|+ann|#viper", &mut bot);
    let mut v = ViperPlugin::new(vec!["a".to_string(), "b".to_string()]);
    assert!(v.is_match(&m));
    assert_eq!(v.respond(&m, &mut bot, 100, 1), Verdict::Proceed);
    assert_eq!(v.respond(&m, &mut bot, 110, 0), Verdict::Warn);
    assert_eq!(v.respond(&m, &mut bot, 120, 0), Verdict::Ignore);
    assert_eq!(v.respond(&m, &mut bot, 710, 0), Verdict::Proceed);
    let out = bot.take_outgoing();
    assert_eq!(out.len(), 3);
    assert_eq!(out[0], "lobby|(ann) b");
    assert_eq!(
        out[1],
        "lobby|**Slow down** (ann can use this once per 60 seconds and now waits 10 minutes)"
    );
    assert_eq!(out[2], "lobby|(ann) a");
    let n = parse(">lobby\n|c:|1|+ann|hello", &mut bot);
    assert!(!v.is_match(&n));
}

#[test]
fn viper_handle_answers_from_list() {
    let mut bot = Bot::new(config());
    let m = parse(">lobby\n|c:|1|+ann|le vipa", &mut bot);
    let mut v = ViperPlugin::new(vec!["only".to_string()]);
    v.handle(&m, &mut bot);
    assert_eq!(bot.take_outgoing(), vec!["lobby|(ann) only".to_string()]);
    let mut e = ViperPlugin::new(vec![]);
    let m2 = parse(">lobby\n|c:|1|+bo|le vipa", &mut bot);
    e.handle(&m2, &mut bot);
    assert_eq!(
        bot.take_outgoing(),
        vec!["lobby|(bo) Could not get a viper ugh =.= smh @ shy imouto".to_string()]
    );
}

#[test]
fn parse_with_given_command() {
    let mut bot = Bot::new(config());
    let m = Message::from_command(">lobby\n|C:|9|@zed|yo", "c:", 3, &mut bot).unwrap();
    assert_eq!(m.command, "c:");
    assert_eq!(m.user.name, "zed");
    assert_eq!(m.auth, "@");
    assert_eq!(m.payload, "yo");
    assert_eq!(m.timestamp, 9);
    assert!(bot.room_map.contains_user_in_room("zed", "lobby"));
}

#[test]
fn dispatch_runs_matching_plugins_on_live_events() {
    let mut bot = Bot::new(config());
    bot.set_login_time(5);
    let mut plugins = Plugins::new(ViperPlugin::new(vec!["v".to_string()]), MemePlugin::new(vec![]));
    let old = parse(">lobby\n|c:|1|+ann|#viper", &mut bot);
    let _ = plugins.dispatch(&old, &mut bot);
    assert!(bot.take_outgoing().is_empty());
    let live = parse(">lobby\n|c:|9|+ann|#viper", &mut bot);
    let _ = plugins.dispatch(&live, &mut bot);
    assert_eq!(bot.take_outgoing(), vec!["lobby|(ann) v".to_string()]);
    let meme = parse(">lobby\n|c:|9|+ann|#meme", &mut bot);
    let _ = plugins.dispatch(&meme, &mut bot);
    assert_eq!(
        bot.take_outgoing(),
        vec!["lobby|(ann) Could not get a meme ugh =.= smh @ shy imouto".to_string()]
    );
}

#[test]
fn error_descriptions() {
    assert_eq!(Error::Protocol.description(), "malformed line");
    assert_eq!(Error::Login.description(), "login failed");
    assert_eq!(Error::Transport.description(), "cannot reach the server");
    assert_eq!(Error::ChannelClosed.description(), "the outgoing queue is closed");
    assert_eq!(Error::Decode.description(), "frame is not valid UTF-8");
}
