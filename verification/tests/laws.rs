use std::time::{Duration, Instant};

use gerritbot::bot::Bot;
use gerritbot::cache::{Expiration, MsgCacheLine};
use gerritbot::gerrit::{Account, Approval, Change, Event};
use gerritbot::notify::{approval_is_news, approval_score, cache_line, compose, question, Question};
use gerritbot::pending::Stage;
use gerritbot::text::{decimal_text, join_texts};
use gerritbot::users::{AddFilterResult, Filter, User};

/// The script: it answers with the subject, the type and the value.
fn answer(q: &Question) -> String {
    format!("{} {} {}", q.subject, q.approval_type, q.value)
}

fn s(text: &str) -> String {
    String::from(text)
}

fn approval(approval_type: &str, old_value: Option<&str>, value: &str) -> Approval {
    Approval {
        approval_type: s(approval_type),
        value: s(value),
        old_value: old_value.map(s),
    }
}

fn event(subject: &str, approvals: Vec<Approval>) -> Event {
    Event {
        author: Some(Account {
            username: s("approver"),
            email: None,
        }),
        approvals: Some(approvals),
        comment: None,
        change: Change {
            subject: s(subject),
            topic: None,
            url: s("http://localhost/1"),
            owner: Account {
                username: s("owner"),
                email: Some(s("me@example.com")),
            },
        },
    }
}

fn news(subject: &str) -> Event {
    event(subject, vec![approval("Code-Review", Some("0"), "1")])
}

fn known(bot: Bot) -> Bot {
    let mut bot = bot;
    bot.add_user("me", "me@example.com");
    bot
}

/// The identifier of the user who is told about an event, and the text.
fn told_to(bot: &mut Bot, event: Event) -> Option<(String, String)> {
    let mut stage = bot.get_approvals_msg(event);
    loop {
        match stage {
            Stage::Ask(pending, question) => {
                stage = bot.resume_approvals_msg(pending, answer(&question));
            }
            Stage::Told(told) => {
                return told.map(|(user, text)| (user.spark_person_id.clone(), text));
            }
        }
    }
}

fn told(bot: &mut Bot, event: Event) -> Option<String> {
    told_to(bot, event).map(|(_, text)| text)
}

const NEVER: Expiration = Expiration {
    secs: u64::MAX,
    nanos: 999_999_999,
};

#[test]
fn own_approvals_are_silent() {
    let mut bot = known(Bot::new());
    let mut own = news("A");
    own.change.owner.username = s("approver");
    assert_eq!(told(&mut bot, own), None);
}

#[test]
fn the_first_enabled_owner_is_told() {
    let mut bot = Bot::new();
    bot.add_user("silent", "me@example.com").enabled = false;
    bot.add_user("other", "other@example.com");
    bot.add_user("first", "me@example.com");
    bot.add_user("second", "me@example.com");
    let (person_id, text) = told_to(&mut bot, news("A")).unwrap();
    assert_eq!(person_id, "first");
    assert_eq!(text, "A Code-Review 1");
}

#[test]
fn a_repeated_event_with_several_news_is_silent() {
    let approvals = || {
        vec![
            approval("Code-Review", Some("0"), "1"),
            approval("Verified", Some("0"), "-1"),
            approval("Code-Review", Some("2"), "1"),
        ]
    };
    let mut bot = known(Bot::with_msg_cache(2, NEVER));
    assert_eq!(told(&mut bot, news("Z")), Some(s("Z Code-Review 1")));
    assert_eq!(
        told(&mut bot, event("A", approvals())),
        Some(s("A Code-Review 1\n\nA Verified -1"))
    );
    assert_eq!(told(&mut bot, event("A", approvals())), None);
    assert_eq!(told(&mut bot, event("A", approvals())), None);
}

#[test]
fn a_full_round_forgets_a_line() {
    let mut bot = known(Bot::with_msg_cache(3, NEVER));
    assert!(told(&mut bot, news("A")).is_some());
    assert!(told(&mut bot, news("B")).is_some());
    assert!(told(&mut bot, news("C")).is_some());
    // a line that is found counts as used
    assert!(told(&mut bot, news("A")).is_none());
    assert!(told(&mut bot, news("D")).is_some());
    assert!(told(&mut bot, news("A")).is_none());
    assert!(told(&mut bot, news("B")).is_some());
}

#[test]
fn an_expired_line_is_forgotten() {
    let mut bot = known(Bot::with_msg_cache(3, Expiration::from_millis(20)));
    assert!(told(&mut bot, news("A")).is_some());
    let start = Instant::now();
    while start.elapsed() < Duration::from_millis(100) {}
    assert!(told(&mut bot, news("A")).is_some());
}

#[test]
fn without_a_cache_everything_is_told() {
    let mut bot = known(Bot::new());
    assert!(told(&mut bot, news("A")).is_some());
    assert!(told(&mut bot, news("A")).is_some());
    bot.init_msg_cache(3, NEVER);
    assert!(told(&mut bot, news("A")).is_some());
    assert!(told(&mut bot, news("A")).is_none());
    bot.init_msg_cache(3, NEVER);
    assert!(told(&mut bot, news("A")).is_some());
}

#[test]
fn a_line_is_told_once_over_a_series() {
    let mut bot = known(Bot::with_msg_cache(4, NEVER));
    // two votes of one line in one event
    let twice = vec![
        approval("Code-Review", Some("0"), "1"),
        approval("Code-Review", Some("2"), "1"),
    ];
    assert_eq!(
        told(&mut bot, event("A", twice)),
        Some(s("A Code-Review 1"))
    );
    // different subjects, but one topic
    let mut first = news("B");
    first.change.topic = Some(s("topic"));
    let mut second = news("C");
    second.change.topic = Some(s("topic"));
    assert_eq!(told(&mut bot, first), Some(s("B Code-Review 1")));
    assert_eq!(told(&mut bot, second), None);
    // without a topic the subject decides
    assert_eq!(told(&mut bot, news("C")), Some(s("C Code-Review 1")));
    // one line was told before, the other one was not
    let mixed = vec![
        approval("Code-Review", Some("0"), "1"),
        approval("Code-Review", Some("0"), "2"),
    ];
    assert_eq!(
        told(&mut bot, event("A", mixed)),
        Some(s("A Code-Review 2"))
    );
    assert_eq!(told(&mut bot, news("A")), None);
    assert_eq!(told(&mut bot, news("C")), None);
}

#[test]
fn an_approval_is_asked_about_once() {
    let mut bot = known(Bot::with_msg_cache(3, NEVER));
    let e = news("A");
    let a = approval("Code-Review", Some("0"), "1");
    let b = approval("Code-Review", None, "1");
    assert_eq!(bot.ask_about(0, &e, &b), None);
    assert_eq!(bot.ask_about(0, &e, &a), Some(question(&e, &a)));
    assert_eq!(bot.ask_about(0, &e, &a), None);
    // the lines of users are their own
    assert_eq!(bot.ask_about(1, &e, &a), Some(question(&e, &a)));
}

#[test]
fn a_line_is_remembered_before_the_answer() {
    let mut bot = known(Bot::with_msg_cache(3, NEVER));
    assert!(matches!(
        bot.get_approvals_msg(news("A")),
        Stage::Ask(_, _)
    ));
    // the answer never came
    assert_eq!(told(&mut bot, news("A")), None);
}

#[test]
fn questions_hold_what_the_script_needs() {
    let mut e = news("A");
    e.comment = Some(s("Nice"));
    let q = question(&e, &approval("Verified", Some("0"), "-2"));
    assert_eq!(
        q,
        Question {
            approver: s("approver"),
            comment: Some(s("Nice")),
            value: -2,
            approval_type: s("Verified"),
            url: s("http://localhost/1"),
            subject: s("A"),
        }
    );
}

#[test]
fn a_cache_is_needed_for_news_alone() {
    let mut bot = Bot::with_msg_cache(0, NEVER);
    assert!(!bot.needs_cache(&news("A")));
    assert_eq!(told(&mut bot, news("A")), None);
    let mut bot = known(bot);
    assert!(bot.needs_cache(&news("A")));
    let old = event("A", vec![approval("Code-Review", None, "1")]);
    assert!(!bot.needs_cache(&old));
    assert_eq!(told(&mut bot, old), None);
}

#[test]
fn patterns_that_match_nothing_are_refused() {
    let mut bot = known(Bot::new());
    for pattern in [r"\P{any}", r"\P{gc=any}", r"[^\s\S]", r"(?-u)[^\x00-\xff]"] {
        assert_eq!(
            bot.add_filter("me", pattern),
            Err(AddFilterResult::InvalidFilter)
        );
    }
    assert_eq!(bot.get_filter("me"), Ok(None));
    // a repetition of nothing is bounded as well
    assert_eq!(
        bot.add_filter("me", "(?:){4294967295}"),
        Err(AddFilterResult::InvalidFilter)
    );
    assert_eq!(bot.add_filter("me", r"\p{any}"), Ok(()));
    assert!(bot.is_filtered(0, "x"));
}

#[test]
fn the_last_switch_counts() {
    let mut bot = Bot::new();
    assert!(bot.enable("me", "me@example.com", true).enabled);
    assert!(!bot.enable("me", "new@example.com", false).enabled);
    assert_eq!(bot.num_users(), 1);
    assert_eq!(bot.users[0].email, "me@example.com");
    assert_eq!(
        bot.status_for("me"),
        "Notifications for you are **disabled**. I am notifying another 1 user(s)."
    );
}

#[test]
fn a_switch_keeps_the_filter() {
    let mut bot = known(Bot::new());
    bot.add_filter("me", "x").unwrap();
    bot.enable("me", "me@example.com", false);
    assert_eq!(bot.get_filter("me"), Ok(Some(&Filter::new("x"))));
    assert_eq!(
        bot.add_filter("me", "y"),
        Err(AddFilterResult::UserDisabled)
    );
    assert_eq!(bot.get_filter("me"), Ok(Some(&Filter::new("x"))));
    assert_eq!(
        bot.get_filter("nobody"),
        Err(AddFilterResult::UserNotFound)
    );
}

#[test]
fn a_filter_is_switched_back() {
    let mut bot = known(Bot::new());
    bot.add_filter("me", s("x.y")).unwrap();
    assert_eq!(bot.enable_filter("me", false), Ok(s("x.y")));
    assert!(!bot.get_filter("me").unwrap().unwrap().enabled);
    assert_eq!(bot.enable_filter("me", true), Ok(s("x.y")));
    assert_eq!(bot.get_filter("me"), Ok(Some(&Filter::new("x.y"))));
}

#[test]
fn filters_match_somewhere_in_the_message() {
    let mut bot = known(Bot::new());
    assert!(!bot.is_filtered(0, "abc"));
    bot.add_filter("me", "^b").unwrap();
    assert!(!bot.is_filtered(0, "abc"));
    assert!(bot.is_filtered(0, "bc"));
    bot.add_filter("me", "b").unwrap();
    assert!(bot.is_filtered(0, "abc"));
    assert_eq!(bot.keep_msg(0, s("abc")), None);
    assert_eq!(bot.keep_msg(0, s("ac")), Some(s("ac")));
    assert_eq!(bot.keep_msg(0, s("")), None);
    bot.enable_filter("me", false).unwrap();
    assert!(!bot.is_filtered(0, "abc"));
}

#[test]
fn decisions_follow_the_outside_answers() {
    let mut user = User::new("me", "me@example.com");
    assert_eq!(
        user.switch_filter(true, true),
        Err(AddFilterResult::FilterNotConfigured)
    );
    assert!(!user.keeps_back(Some(true)));
    assert_eq!(
        user.give_filter(s("a"), false),
        Err(AddFilterResult::InvalidFilter)
    );
    assert_eq!(user.give_filter(s("a"), true), Ok(()));
    assert!(user.keeps_back(Some(true)));
    assert!(!user.keeps_back(Some(false)));
    assert!(!user.keeps_back(None));
    assert_eq!(
        user.switch_filter(false, false),
        Err(AddFilterResult::InvalidFilter)
    );
    assert_eq!(user.switch_filter(false, true), Ok(s("a")));
    assert!(!user.keeps_back(Some(true)));
    user.enabled = false;
    assert_eq!(
        user.give_filter(s("b"), true),
        Err(AddFilterResult::UserDisabled)
    );
    assert_eq!(
        user.switch_filter(true, true),
        Err(AddFilterResult::UserDisabled)
    );
    assert_eq!(Filter::default().regex, "");
    assert!(!Filter::default().enabled);
}

#[test]
fn saved_users_come_back() {
    let mut bot = known(Bot::with_msg_cache(3, NEVER));
    bot.add_user("you", "you@example.com");
    bot.add_filter("you", "x").unwrap();
    let bot = Bot::from_users(bot.into_users());
    assert_eq!(bot.num_users(), 2);
    assert_eq!(bot.users[0].spark_person_id, "me");
    assert_eq!(bot.get_filter("you"), Ok(Some(&Filter::new("x"))));
    assert!(bot.msg_cache.is_none());
}

#[test]
fn users_are_found_by_their_identifier() {
    let mut bot = known(Bot::new());
    bot.add_user("you", "you@example.com");
    assert_eq!(bot.find_user("you").unwrap().email, "you@example.com");
    assert!(bot.find_user("nobody").is_none());
    bot.find_user_mut("you").unwrap().enabled = false;
    assert!(!bot.users[1].enabled);
    assert!(bot.find_user_mut("nobody").is_none());
    assert_eq!(bot.find_or_add_user("me", "x").email, "me@example.com");
    assert_eq!(bot.find_or_add_user("they", "x").email, "x");
    assert_eq!(bot.num_users(), 3);
}

#[test]
fn news_are_changes_to_something() {
    assert!(approval_is_news(&approval("t", Some("1"), "2")));
    assert!(!approval_is_news(&approval("t", Some("2"), "2")));
    assert!(!approval_is_news(&approval("t", Some("2"), "0")));
    assert!(!approval_is_news(&approval("t", None, "2")));
    assert!(approval_is_news(&approval("t", Some("2"), "")));
}

#[test]
fn scores_are_decimal_numbers() {
    let score = |value: &str| approval_score(&approval("t", None, value));
    assert_eq!(score("2"), 2);
    assert_eq!(score("+2"), 2);
    assert_eq!(score("-2"), -2);
    assert_eq!(score("-0"), 0);
    assert_eq!(score("007"), 7);
    assert_eq!(score(""), 0);
    assert_eq!(score("-"), 0);
    assert_eq!(score("+"), 0);
    assert_eq!(score("+-2"), 0);
    assert_eq!(score(" 2"), 0);
    assert_eq!(score("2x"), 0);
    assert_eq!(score("2147483647"), i32::MAX);
    assert_eq!(score("2147483648"), 0);
    assert_eq!(score("-2147483648"), i32::MIN);
    assert_eq!(score("-2147483649"), 0);
}

#[test]
fn lines_hold_topic_or_subject() {
    let mut e = news("A");
    let a = approval("Code-Review", Some("0"), "1");
    let line = cache_line(7, &e, &a);
    let expected = MsgCacheLine::new(7, s("A"), s("approver"), s("Code-Review"), s("1"));
    assert!(line == expected);
    assert!(
        line.into_key() == (7, s("A"), s("approver"), s("Code-Review"), s("1"))
    );
    e.change.topic = Some(s("T"));
    let line = cache_line(7, &e, &a);
    assert_eq!(line.subject, "T");
}

#[test]
fn lines_are_equal_by_their_parts() {
    let line = |u: usize, parts: [&str; 4]| {
        MsgCacheLine::new(u, s(parts[0]), s(parts[1]), s(parts[2]), s(parts[3]))
    };
    let a = line(1, ["s", "a", "t", "v"]);
    assert!(a == line(1, ["s", "a", "t", "v"]));
    for other in vec![
        line(2, ["s", "a", "t", "v"]),
        line(1, ["x", "a", "t", "v"]),
        line(1, ["s", "x", "t", "v"]),
        line(1, ["s", "a", "x", "v"]),
        line(1, ["s", "a", "t", "x"]),
        line(1, ["sa", "", "t", "v"]),
    ] {
        assert!(a != other);
        assert!(a.clone().into_key() != other.into_key());
    }
}

#[test]
fn lines_are_ordered_by_their_parts() {
    let line = |u: usize, parts: [&str; 4]| {
        MsgCacheLine::new(u, s(parts[0]), s(parts[1]), s(parts[2]), s(parts[3]))
    };
    let sorted = vec![
        line(1, ["", "z", "z", "z"]),
        line(1, ["B", "z", "z", "z"]),
        line(1, ["a", "a", "z", "z"]),
        line(1, ["a", "b", "a", "z"]),
        line(1, ["a", "b", "b", "+1"]),
        line(1, ["a", "b", "b", "-1"]),
        line(1, ["a", "b", "b", "-12"]),
        line(1, ["aa", "", "", ""]),
        line(1, ["z", "", "", ""]),
        line(1, ["\u{e9}", "", "", ""]),
        line(1, ["\u{ff5e}", "", "", ""]),
        line(1, ["\u{1f609}", "", "", ""]),
        line(2, ["", "", "", ""]),
    ];
    for i in 0..sorted.len() {
        for j in 0..sorted.len() {
            assert_eq!(sorted[i].partial_cmp(&sorted[j]), i.partial_cmp(&j));
            assert_eq!(sorted[i].cmp(&sorted[j]), i.cmp(&j));
            assert_eq!(sorted[i] < sorted[j], i < j);
        }
    }
}

#[test]
fn texts_are_written_exactly() {
    assert_eq!(decimal_text(0), "0");
    assert_eq!(decimal_text(9), "9");
    assert_eq!(decimal_text(10), "10");
    assert_eq!(decimal_text(1234567890), "1234567890");
    assert_eq!(decimal_text(usize::MAX), format!("{}", usize::MAX));
    assert_eq!(join_texts(&vec![], ", "), "");
    assert_eq!(join_texts(&vec![s("a")], ", "), "a");
    assert_eq!(join_texts(&vec![s("a"), s(""), s("c")], ", "), "a, , c");
    assert_eq!(compose(&vec![]), None);
    assert_eq!(compose(&vec![s("a"), s("b")]), Some(s("a\n\nb")));
}

#[test]
fn expirations_are_split_into_seconds() {
    let e = Expiration::from_millis(1050);
    assert_eq!((e.secs, e.nanos), (1, 50_000_000));
    let e = Expiration::from_secs(3);
    assert_eq!((e.secs, e.nanos), (3, 0));
}
