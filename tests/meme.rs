use showdown::bot::Bot;
use showdown::command::{arguments, generate_pattern};
use showdown::config::Config;
use showdown::message::Message;
use showdown::plugin::meme::{Meme, MemePlugin};
use showdown::plugin::Plugin;

fn config() -> Config {
    Config {
        host: "sim.smogon.com".to_string(),
        port: "8000".to_string(),
        throttle_ms: 333,
        rooms: vec![],
        avatar: 0,
        plugin_prefixes: vec![".".to_string(), "#".to_string()],
        case_insensitive: false,
    }
}

fn chat(text: &str, bot: &mut Bot) -> Message {
    Message::from_string(&format!(">lobby\n|c:|1|+ann|{}", text), 0, bot).unwrap()
}

#[test]
fn meme_add_get_and_info() {
    let mut bot = Bot::new(config());
    let mut p = MemePlugin::new(vec![]);
    let get = chat("#meme", &mut bot);
    assert!(p.is_match(&get));
    p.respond(&get, &mut bot, 0, 0);
    let add = chat("#meme hello", &mut bot);
    assert!(p.is_match(&add));
    p.respond(&add, &mut bot, 100, 0);
    assert_eq!(p.memes.len(), 1);
    assert_eq!(p.memes[0].content, "hello");
    assert_eq!(p.memes[0].author, "ann");
    assert_eq!(p.memes[0].date, 100);
    let again = chat("#meme HELLO", &mut bot);
    p.respond(&again, &mut bot, 200, 0);
    assert_eq!(p.memes.len(), 1);
    p.respond(&get, &mut bot, 300, 0);
    let info = chat("#info", &mut bot);
    p.respond(&info, &mut bot, 301, 0);
    assert_eq!(
        bot.take_outgoing(),
        vec![
            "lobby|(ann) Could not get a meme ugh =.= smh @ shy imouto".to_string(),
            "lobby|(ann) hello is now a meme".to_string(),
            "lobby|(ann) HELLO is already a meme you dip".to_string(),
            "lobby|(ann) hello".to_string(),
            "lobby|(ann) This meme was added by ann at Thu, 1 Jan 1970 00:01:40 +0000".to_string(),
        ]
    );
    let added = p.take_added();
    assert_eq!(added.len(), 1);
    assert_eq!(added[0].content, "hello");
    assert!(p.take_added().is_empty());
}

#[test]
fn meme_cooldown_warns_once() {
    let mut bot = Bot::new(config());
    let mut p = MemePlugin::new(vec![Meme { date: 0, author: "x".to_string(), content: "m".to_string() }]);
    let get = chat("le meme", &mut bot);
    p.respond(&get, &mut bot, 1000, 0);
    p.respond(&get, &mut bot, 1001, 0);
    p.respond(&get, &mut bot, 1002, 0);
    let out = bot.take_outgoing();
    assert_eq!(out.len(), 2);
    assert_eq!(out[0], "lobby|(ann) m");
    assert_eq!(
        out[1],
        "lobby|**Slow down with those memes...kid** (ann is banned from meme for 10 minutes. Currently allowed 1 meme per 60 seconds)"
    );
}

#[test]
fn meme_info_without_meme_is_silent() {
    let mut bot = Bot::new(config());
    let mut p = MemePlugin::new(vec![]);
    let info = chat("#memeinfo", &mut bot);
    assert!(p.is_match(&info));
    p.respond(&info, &mut bot, 5, 0);
    assert!(bot.take_outgoing().is_empty());
    let other = chat("#memes", &mut bot);
    assert!(!p.is_match(&other));
}

#[test]
fn meme_handle_uses_clock_and_pick() {
    let mut bot = Bot::new(config());
    let mut p = MemePlugin::new(vec![Meme { date: 0, author: "x".to_string(), content: "only".to_string() }]);
    let get = chat("#meme", &mut bot);
    p.handle(&get, &mut bot);
    assert_eq!(bot.take_outgoing(), vec!["lobby|(ann) only".to_string()]);
}

#[test]
fn arguments_of_a_command() {
    let c = config();
    let pat = generate_pattern(&c, "test", 2);
    assert_eq!(arguments(".test a, b", &pat), vec![".".to_string(), "a".to_string(), "b".to_string()]);
    assert!(arguments(".test a", &pat).is_empty());
}
