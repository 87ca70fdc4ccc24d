use gerritbot::bot::Bot;
use gerritbot::cache::Expiration;
use gerritbot::gerrit::{Account, Approval, Change, Event};
use gerritbot::notify::Question;
use gerritbot::update::{
    reply_to_filter_add, reply_to_filter_disable, reply_to_filter_enable, reply_to_filter_status,
    resume, update, Action, Outcome, Response, Task, GREETINGS_MSG, HELP_MSG,
};
use gerritbot::users::{AddFilterResult, Filter};

const ENABLE_FIRST: &str =
    "Notification for you are disabled. Please enable notifications first, and then add a filter.";
const INVALID: &str = "Your provided filter is invalid. Please double-check the regex you provided. Specifications of the regex are here: https://doc.rust-lang.org/regex/regex/index.html#syntax";

/// Answers with the question.
fn echo(q: &Question) -> String {
    format!(
        "{}|{}|{}|{}|{}|{}",
        q.approver,
        q.comment.as_deref().unwrap_or("none"),
        q.value,
        q.approval_type,
        q.url,
        q.subject
    )
}

fn s(text: &str) -> String {
    String::from(text)
}

fn known(person_id: &str) -> Bot {
    let mut bot = Bot::new();
    bot.add_user(person_id, "me@example.com");
    bot
}

/// Performs a command, and returns the bot, whether it is to be saved, the addressee and the text.
fn command(action: Action, bot: Bot) -> (Bot, bool, String, String) {
    let (bot, outcome) = update(action, bot);
    match outcome {
        Outcome::Done(Some(Task::Reply(r))) => (bot, false, r.person_id, r.message),
        Outcome::Done(Some(Task::ReplyAndSave(r))) => (bot, true, r.person_id, r.message),
        _ => panic!("a command is answered at once"),
    }
}

fn approval(approval_type: &str, old_value: Option<&str>, value: &str) -> Approval {
    Approval {
        approval_type: s(approval_type),
        value: s(value),
        old_value: old_value.map(s),
    }
}

fn event(approvals: Vec<Approval>) -> Event {
    Event {
        author: Some(Account {
            username: s("approver"),
            email: None,
        }),
        approvals: Some(approvals),
        comment: None,
        change: Change {
            subject: s("A subject"),
            topic: None,
            url: s("http://localhost/1"),
            owner: Account {
                username: s("owner"),
                email: Some(s("me@example.com")),
            },
        },
    }
}

/// The text about an event, if any, and the bot. The script is `answer`.
fn notice(event: Event, bot: Bot, answer: fn(&Question) -> String) -> (Bot, Option<String>) {
    let (mut bot, mut outcome) = update(Action::UpdateApprovals(event), bot);
    loop {
        match outcome {
            Outcome::Ask(pending, question) => {
                let answer = answer(&question);
                (bot, outcome) = resume(bot, pending, answer);
            }
            Outcome::Done(Some(Task::Reply(r))) => {
                assert_eq!(r.person_id, "me");
                return (bot, Some(r.message));
            }
            Outcome::Done(Some(Task::ReplyAndSave(_))) => {
                panic!("a notice does not change the users")
            }
            Outcome::Done(None) => return (bot, None),
        }
    }
}

#[test]
fn enable_is_saved_and_answered() {
    let (bot, save, to, text) = command(Action::Enable(s("me"), s("me@example.com")), Bot::new());
    assert!(save);
    assert_eq!(to, "me");
    assert_eq!(text, "Got it! Happy reviewing!");
    assert_eq!(bot.num_users(), 1);
    assert!(bot.users[0].enabled);
}

#[test]
fn disable_is_saved_and_answered() {
    let (bot, save, to, text) = command(Action::Disable(s("me"), s("x@example.com")), known("me"));
    assert!(save);
    assert_eq!(to, "me");
    assert_eq!(text, "Got it! I will stay silent.");
    assert_eq!(bot.num_users(), 1);
    assert!(!bot.users[0].enabled);
    assert_eq!(bot.users[0].email, "me@example.com");
}

#[test]
fn help_and_greetings() {
    let (_, save, to, text) = command(Action::Help(s("me")), Bot::new());
    assert!(!save);
    assert_eq!(to, "me");
    assert_eq!(text, HELP_MSG);
    assert!(text.starts_with("Commands:\n\n`enable` -- I will start notifying you.\n"));
    assert!(text.contains("a little bit more information. 😉\n"));

    let (_, save, to, text) = command(Action::Unknown(s("me")), Bot::new());
    assert!(!save);
    assert_eq!(to, "me");
    assert_eq!(text, GREETINGS_MSG);
    assert!(text.starts_with("Hi. I am GerritBot (**in a beta phase**)."));
}

#[test]
fn status_counts_the_others() {
    let (_, save, to, text) = command(Action::Status(s("me")), Bot::new());
    assert!(!save);
    assert_eq!(to, "me");
    assert_eq!(
        text,
        "Notifications for you are **disabled**. I am notifying another 0 user(s)."
    );

    let mut bot = known("me");
    let ids: Vec<String> = (0..12).map(|i| format!("id{}", i)).collect();
    for id in &ids {
        bot.enable(id, "other@example.com", false);
    }
    let (bot, _, _, text) = command(Action::Status(s("me")), bot);
    assert_eq!(
        text,
        "Notifications for you are **enabled**. I am notifying another 12 user(s)."
    );
    let (_, _, _, text) = command(Action::Status(s("id3")), bot);
    assert_eq!(
        text,
        "Notifications for you are **disabled**. I am notifying another 13 user(s)."
    );
}

#[test]
fn filter_status_is_answered() {
    let (_, save, to, text) = command(Action::FilterStatus(s("me")), Bot::new());
    assert!(!save);
    assert_eq!(to, "me");
    assert_eq!(text, ENABLE_FIRST);

    let (mut bot, _, _, text) = command(Action::FilterStatus(s("me")), known("me"));
    assert_eq!(text, "No filter is configured for you.");

    bot.add_filter("me", "a+b").unwrap();
    let (mut bot, _, _, text) = command(Action::FilterStatus(s("me")), bot);
    assert_eq!(
        text,
        "The following filter is configured for you: `a+b`. It is **enabled**."
    );

    bot.enable_filter("me", false).unwrap();
    let (_, _, _, text) = command(Action::FilterStatus(s("me")), bot);
    assert_eq!(
        text,
        "The following filter is configured for you: `a+b`. It is **disabled**."
    );
}

#[test]
fn filter_add_is_answered() {
    let (_, save, _, text) = command(Action::FilterAdd(s("me"), s("a")), Bot::new());
    assert!(!save);
    assert_eq!(text, ENABLE_FIRST);

    let mut bot = known("me");
    bot.users[0].enabled = false;
    let (_, save, _, text) = command(Action::FilterAdd(s("me"), s("a")), bot);
    assert!(!save);
    assert_eq!(text, ENABLE_FIRST);

    let (bot, save, _, text) = command(Action::FilterAdd(s("me"), s("a[")), known("me"));
    assert!(!save);
    assert_eq!(text, INVALID);
    assert_eq!(bot.get_filter("me"), Ok(None));

    let (bot, save, to, text) = command(Action::FilterAdd(s("me"), s("a")), bot);
    assert!(save);
    assert_eq!(to, "me");
    assert_eq!(text, "Filter successfully added and enabled.");
    assert_eq!(bot.get_filter("me"), Ok(Some(&Filter::new("a"))));
}

#[test]
fn filter_enable_is_answered() {
    let (_, save, _, text) = command(Action::FilterEnable(s("me")), Bot::new());
    assert!(!save);
    assert_eq!(text, ENABLE_FIRST);

    let mut bot = known("me");
    bot.users[0].enabled = false;
    let (_, save, _, text) = command(Action::FilterEnable(s("me")), bot);
    assert!(!save);
    assert_eq!(text, ENABLE_FIRST);

    let (mut bot, save, _, text) = command(Action::FilterEnable(s("me")), known("me"));
    assert!(!save);
    assert_eq!(
        text,
        "Cannot enable filter since there is none configured. User `filter <regex>` to add a new filter."
    );

    bot.users[0].filter = Some(Filter::new("a["));
    let (mut bot, save, _, text) = command(Action::FilterEnable(s("me")), bot);
    assert!(!save);
    assert_eq!(text, INVALID);

    bot.users[0].filter = Some(Filter {
        regex: s("a"),
        enabled: false,
    });
    let (bot, save, to, text) = command(Action::FilterEnable(s("me")), bot);
    assert!(save);
    assert_eq!(to, "me");
    assert_eq!(
        text,
        "Filter successfully enabled. The following filter is configured: a"
    );
    assert_eq!(bot.get_filter("me"), Ok(Some(&Filter::new("a"))));
}

#[test]
fn filter_disable_is_answered() {
    let silent = "Notification for you are disabled. No need to disable the filter.";
    let (_, save, _, text) = command(Action::FilterDisable(s("me")), Bot::new());
    assert!(!save);
    assert_eq!(text, silent);

    let mut bot = known("me");
    bot.users[0].enabled = false;
    let (_, save, _, text) = command(Action::FilterDisable(s("me")), bot);
    assert!(!save);
    assert_eq!(text, silent);

    let (mut bot, save, _, text) = command(Action::FilterDisable(s("me")), known("me"));
    assert!(!save);
    assert_eq!(
        text,
        "No need to disable the filter since there is none configured."
    );

    bot.users[0].filter = Some(Filter::new("a["));
    let (mut bot, save, _, text) = command(Action::FilterDisable(s("me")), bot);
    assert!(!save);
    assert_eq!(text, INVALID);

    bot.add_filter("me", "a").unwrap();
    let (bot, save, to, text) = command(Action::FilterDisable(s("me")), bot);
    assert!(save);
    assert_eq!(to, "me");
    assert_eq!(text, "Filter successfully disabled.");
    assert!(!bot.users[0].filter.as_ref().unwrap().enabled);
}

#[test]
fn no_op_does_nothing() {
    let (bot, outcome) = update(Action::NoOp, known("me"));
    assert!(matches!(outcome, Outcome::Done(None)));
    assert_eq!(bot.num_users(), 1);
}

#[test]
fn replies_follow_the_results() {
    let message = |task: Task| match task {
        Task::Reply(r) => (false, r.message),
        Task::ReplyAndSave(r) => (true, r.message),
    };
    assert!(reply_to_filter_status(s("me"), Err(AddFilterResult::UserDisabled)).is_none());
    assert_eq!(
        message(reply_to_filter_status(s("me"), Ok(None)).unwrap()),
        (false, s("No filter is configured for you."))
    );
    assert_eq!(
        message(reply_to_filter_add(s("me"), Err(AddFilterResult::InvalidFilter))),
        (false, s(INVALID))
    );
    assert_eq!(
        message(reply_to_filter_enable(s("me"), Ok(s("x")))),
        (
            true,
            s("Filter successfully enabled. The following filter is configured: x")
        )
    );
    assert_eq!(
        message(reply_to_filter_disable(s("me"), Ok(s("x")))),
        (true, s("Filter successfully disabled."))
    );
    let response = Response::new(s("me"), "text");
    assert_eq!(response.person_id, "me");
    assert_eq!(response.message, "text");
}

#[test]
fn a_notice_holds_the_messages_of_all_news() {
    let approvals = vec![
        approval("Code-Review", Some("0"), "+2"),
        approval("Code-Review", Some("1"), "1"),
        approval("Code-Review", None, "1"),
        approval("Code-Review", Some("1"), "0"),
        approval("Verified", Some("1"), "-1"),
        approval("Other", Some("1"), "yes"),
    ];
    let (_, text) = notice(event(approvals), known("me"), echo);
    assert_eq!(
        text.unwrap(),
        "approver|none|2|Code-Review|http://localhost/1|A subject\n\n\
         approver|none|-1|Verified|http://localhost/1|A subject\n\n\
         approver|none|0|Other|http://localhost/1|A subject"
    );
}

#[test]
fn a_filter_keeps_single_messages_back() {
    let approvals = || {
        vec![
            approval("Code-Review", Some("0"), "2"),
            approval("Verified", Some("1"), "-1"),
        ]
    };
    let mut bot = known("me");
    bot.add_filter("me", "Code.Review").unwrap();
    let (mut bot, text) = notice(event(approvals()), bot, echo);
    assert_eq!(
        text.unwrap(),
        "approver|none|-1|Verified|http://localhost/1|A subject"
    );
    // a filter that is not valid keeps nothing back
    bot.users[0].filter = Some(Filter::new("Code[Review"));
    let (_, text) = notice(event(approvals()), bot, echo);
    assert!(text.unwrap().contains("Code-Review"));
}

#[test]
fn the_controller_pauses_for_each_message() {
    let approvals = vec![
        approval("Code-Review", None, "2"),
        approval("Code-Review", Some("0"), "2"),
        approval("Code-Review", Some("1"), "2"),
        approval("Verified", Some("0"), "x"),
    ];
    let mut bot = known("me");
    bot.init_msg_cache(10, Expiration::from_secs(60));
    let (bot, outcome) = update(Action::UpdateApprovals(event(approvals)), bot);
    let (pending, first) = match outcome {
        Outcome::Ask(pending, question) => (pending, question),
        Outcome::Done(_) => panic!("the script is asked"),
    };
    assert_eq!(
        first,
        Question {
            approver: s("approver"),
            comment: None,
            value: 2,
            approval_type: s("Code-Review"),
            url: s("http://localhost/1"),
            subject: s("A subject"),
        }
    );
    assert_eq!((pending.user_ref, pending.done), (0, 1));
    assert!(pending.messages.is_empty());
    let (bot, outcome) = resume(bot, pending, s("one"));
    let (pending, second) = match outcome {
        Outcome::Ask(pending, question) => (pending, question),
        Outcome::Done(_) => panic!("the script is asked"),
    };
    assert_eq!(second.approval_type, "Verified");
    assert_eq!(second.value, 0);
    assert_eq!((pending.user_ref, pending.done), (0, 3));
    assert_eq!(pending.messages, vec![s("one")]);
    let (_, outcome) = resume(bot, pending, s("two"));
    match outcome {
        Outcome::Done(Some(Task::Reply(r))) => {
            assert_eq!(r.person_id, "me");
            assert_eq!(r.message, "one\n\ntwo");
        }
        _ => panic!("the owner is told"),
    }
}

#[test]
fn nothing_is_asked_without_news() {
    let (_, text) = notice(
        event(vec![
            approval("Code-Review", None, "2"),
            approval("Code-Review", Some("2"), "2"),
            approval("Code-Review", Some("2"), "0"),
        ]),
        known("me"),
        |_| panic!("there is nothing to ask"),
    );
    assert_eq!(text, None);
}

#[test]
fn an_empty_message_is_not_sent() {
    let (_, text) = notice(
        event(vec![approval("Code-Review", Some("0"), "2")]),
        known("me"),
        |_| String::new(),
    );
    assert_eq!(text, None);
}

#[test]
fn events_without_an_addressee() {
    let news = || event(vec![approval("Code-Review", Some("0"), "2")]);
    let mut no_approvals = news();
    no_approvals.approvals = None;
    let mut no_author = news();
    no_author.author = None;
    let mut own = news();
    own.author.as_mut().unwrap().username = s("owner");
    let mut no_email = news();
    no_email.change.owner.email = None;
    let mut stranger = news();
    stranger.change.owner.email = Some(s("other@example.com"));
    for event in vec![no_approvals, no_author, own, no_email, stranger] {
        let (_, text) = notice(event, known("me"), echo);
        assert_eq!(text, None);
    }
}

#[test]
fn the_comment_reaches_the_script() {
    let mut news = event(vec![approval("Code-Review", Some("0"), "2")]);
    news.comment = Some(s("Nice\nwork"));
    let (_, text) = notice(news, known("me"), echo);
    assert_eq!(
        text.unwrap(),
        "approver|Nice\nwork|2|Code-Review|http://localhost/1|A subject"
    );
}

#[test]
fn changes_of_one_topic_are_told_once() {
    let mut bot = known("me");
    bot.init_msg_cache(10, Expiration::from_secs(60));
    let mut first = event(vec![approval("Code-Review", Some("0"), "2")]);
    first.change.topic = Some(s("topic"));
    let mut second = first.clone();
    second.change.subject = s("Another subject");
    let mut third = second.clone();
    third.change.topic = None;
    let (bot, text) = notice(first, bot, echo);
    assert!(text.is_some());
    let (bot, text) = notice(second, bot, echo);
    assert_eq!(text, None);
    let (_, text) = notice(third, bot, echo);
    assert!(text.is_some());
}
