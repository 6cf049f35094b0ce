use showdown::command::{generate_pattern, Plugin};
use showdown::config::Config;
use showdown::cooldown::{RateLimiter, Verdict};

fn config(case_insensitive: bool) -> Config {
    Config {
        host: "sim.smogon.com".to_string(),
        port: "8000".to_string(),
        throttle_ms: 333,
        rooms: vec![],
        avatar: 0,
        plugin_prefixes: vec![".".to_string(), "#".to_string()],
        case_insensitive,
    }
}

#[test]
fn no_args_test() {
    let b = config(false);
    let p = Plugin::new(&b, "test", "test", 0, None);
    assert!(p.is_match(".test"));
    assert!(p.is_match("#test"));
    assert!(!p.is_match(".test test"));
    assert!(!p.is_match("atest"));
    assert!(!p.is_match(".TeSt"));
    let bi = config(true);
    let p = Plugin::new(&bi, "test", "test", 0, None);
    assert!(p.is_match(".TeSt"));
}

#[test]
fn one_arg_test() {
    let b = config(false);
    let p = Plugin::new(&b, "test", "test", 1, None);
    assert!(p.is_match(".test test,ing,,,"));
    assert!(!p.is_match(".test"));
}

#[test]
fn two_args_test() {
    let b = config(false);
    let p = Plugin::new(&b, "test", "test", 2, None);
    assert!(p.is_match(".test test, testing"));
    assert!(p.is_match(".test test,   test"));
    assert!(!p.is_match(".test test"));
}

#[test]
fn three_args_test() {
    let b = config(false);
    let p = Plugin::new(&b, "test", "test", 3, None);
    assert!(p.is_match(".test test, test, test"));
    assert!(!p.is_match(".test test, test"));
}

#[test]
fn matcher_scenarios_by_argument_count() {
    let c = config(false);
    let one = Plugin::new(&c, "test", "test", 1, None);
    assert!(one.is_match(".test a,b,,"));
    let two = Plugin::new(&c, "test", "test", 2, None);
    assert!(two.is_match(".test a, b"));
    assert!(!two.is_match(".test a"));
    let three = Plugin::new(&c, "test", "test", 3, None);
    assert!(three.is_match(".test a, b, c"));
    assert!(!three.is_match(".test a, b"));
    let zero = Plugin::new(&c, "test", "test", 0, None);
    assert!(!zero.is_match("#TEST"));
    let folded = Plugin::new(&config(true), "test", "test", 0, None);
    assert!(folded.is_match("#TEST"));
}

#[test]
fn pattern_text_is_exact() {
    let c = config(false);
    assert_eq!(generate_pattern(&c, "test", 0), r"^((\.|\#)test)$");
    assert_eq!(generate_pattern(&c, "test", 1), r"^((\.|\#)test\s+(.+)$)");
    assert_eq!(generate_pattern(&c, "test", 2), r"^((\.|\#)test\s+(.+),\s+(.+)$)");
    assert_eq!(
        generate_pattern(&c, "test", 4),
        r"^((\.|\#)test\s+(.+),\s+([^,]+),\s+([^,]+),\s+(.+)$)"
    );
    let ci = config(true);
    assert_eq!(generate_pattern(&ci, "a.b", 0), r"^((?i)(\.|\#)a\.b)$");
}

#[test]
fn command_is_escaped() {
    let c = config(false);
    let p = Plugin::new(&c, "dot", "a.b", 0, None);
    assert_eq!(p.command, r"a\.b");
    assert!(p.is_match(".a.b"));
    assert!(!p.is_match(".axb"));
}

#[test]
fn prefix_string_joins_prefixes() {
    assert_eq!(config(false).prefix_string(), "^(.|#)");
    let mut c = config(false);
    c.plugin_prefixes = vec![];
    assert_eq!(c.prefix_string(), "^()");
}

#[test]
fn cooldown_ban_cycle() {
    let mut l = RateLimiter::new(60, 600);
    assert_eq!(l.decide("Alice", 1000), Verdict::Proceed);
    assert_eq!(l.decide("alice", 1010), Verdict::Warn);
    assert_eq!(l.decide("ALICE", 1020), Verdict::Ignore);
    assert_eq!(l.decide("alice", 1500), Verdict::Ignore);
    assert_eq!(l.decide("alice", 1610), Verdict::Proceed);
    assert_eq!(l.decide("bob", 1020), Verdict::Proceed);
}

#[test]
fn cooldown_waits_are_respected() {
    let mut l = RateLimiter::new(60, 600);
    assert_eq!(l.decide("alice", 0), Verdict::Proceed);
    assert_eq!(l.decide("alice", 60), Verdict::Proceed);
    assert_eq!(l.decide("alice", 119), Verdict::Warn);
}

#[test]
fn plugin_cooldown_per_user() {
    let c = config(false);
    let mut p = Plugin::new(&c, "t", "t", 0, Some(30));
    assert_eq!(p.cooldown, 30);
    p.update_last_used("Alice", 100);
    assert!(p.last_used.get(&"alice".to_string()).is_some());
}
