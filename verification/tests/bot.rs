use std::time::{Duration, Instant};

use gerritbot::bot::Bot;
use gerritbot::cache::Expiration;
use gerritbot::gerrit::{Account, Approval, Change, Event};
use gerritbot::notify::{question, Question};
use gerritbot::pending::Stage;
use gerritbot::users::{AddFilterResult, Filter};
use hlua::{Lua, LuaFunction};
use serde_json::Value;

const FORMAT_SCRIPT: &str = r#"
local icons = {
    ["Code-Review"] = { positive = "👍", negative = "👎", neutral = "📝" },
}

local function icon_for(icon, value)
    if value > 0 then
        return icon.positive
    elseif value < 0 then
        return icon.negative
    end
    return icon.neutral
end

local function quote(comment)
    local lines = {}
    local first = true
    for line in string.gmatch(comment or "", "[^\n]+") do
        if not first then
            table.insert(lines, "> " .. line)
        end
        first = false
    end
    return table.concat(lines, "<br>\n")
end

function main(approver, comment, value, type, url, subject)
    local icon = icons[type]
    if not icon then
        return ""
    end
    local sign = value > 0 and "+" or ""
    local message = string.format("[%s](%s) %s %s%d (%s) from %s",
        subject, url, icon_for(icon, value), sign, value, type, approver)
    local quoted = quote(comment)
    if quoted ~= "" then
        message = message .. "\n\n" .. quoted
    end
    return message
end
"#;

const EVENT_JSON: &str = r#"
{"author":{"name":"Approver","username":"approver"},"approvals":[{"type":"Code-Review","description":"Code-Review","value":"2","oldValue":"-1"}],"comment":"Patch Set 1: Code-Review+2\n\nJust a buggy script. FAILURE\n\nAnd more problems. FAILURE","patchSet":{"number":"1","revision":"49a65998c02eda928559f2d0b586c20bc8e37b10","parents":["fb1909b4eda306985d2bbce769310e5a50a98cf5"],"ref":"refs/changes/42/42/1","uploader":{"name":"Author","email":"author@example.com","username":"Author"},"createdOn":1494165142,"author":{"name":"Author","email":"author@example.com","username":"Author"},"isDraft":false,"kind":"REWORK","sizeInsertions":0,"sizeDeletions":0},"change":{"project":"demo-project","branch":"master","id":"Ic160fa37fca005fec17a2434aadf0d9dcfbb7b14","number":"49","subject":"Some review.","owner":{"name":"Author","email":"author@example.com","username":"author"},"url":"http://localhost/42","commitMessage":"Some review.\n\nChange-Id: Ic160fa37fca005fec17a2434aadf0d9dcfbb7b14\n","status":"NEW"},"project":"demo-project","refName":"refs/heads/master","changeKey":{"id":"Ic160fa37fca005fec17a2434aadf0d9dcfbb7b14"},"type":"comment-added","eventCreatedOn":1499190282}"#;

/// What the script answers.
fn format(question: Question) -> String {
    let mut lua = Lua::new();
    lua.openlibs();
    lua.execute_from_reader::<(), _>(FORMAT_SCRIPT.as_bytes())
        .unwrap();
    let mut f: LuaFunction<_> = lua.get("main").unwrap();
    f.call_with_args((
        question.approver,
        question.comment,
        question.value,
        question.approval_type,
        question.url,
        question.subject,
    ))
    .unwrap()
}

fn format_msg(event: &Event, approval: &Approval) -> String {
    format(question(event, approval))
}

fn text(value: &Value) -> String {
    String::from(value.as_str().unwrap())
}

fn opt_text(value: &Value) -> Option<String> {
    value.as_str().map(String::from)
}

fn account(value: &Value) -> Account {
    Account {
        username: text(&value["username"]),
        email: opt_text(&value["email"]),
    }
}

fn approval(value: &Value) -> Approval {
    Approval {
        approval_type: text(&value["type"]),
        value: text(&value["value"]),
        old_value: opt_text(&value["oldValue"]),
    }
}

fn get_event() -> Event {
    let json: Value = serde_json::from_str(EVENT_JSON).unwrap();
    let change = &json["change"];
    Event {
        author: Some(account(&json["author"])),
        approvals: json["approvals"]
            .as_array()
            .map(|approvals| approvals.iter().map(approval).collect()),
        comment: opt_text(&json["comment"]),
        change: Change {
            subject: text(&change["subject"]),
            topic: opt_text(&change["topic"]),
            url: text(&change["url"]),
            owner: account(&change["owner"]),
        },
    }
}

/// Lets the time pass.
fn wait(time: Duration) {
    let start = Instant::now();
    while start.elapsed() < time {}
}

/// The user who is told about an event, and the text.
fn told(bot: &mut Bot, event: Event) -> Option<(String, String, String)> {
    let mut stage = bot.get_approvals_msg(event);
    loop {
        match stage {
            Stage::Ask(pending, question) => {
                stage = bot.resume_approvals_msg(pending, format(question));
            }
            Stage::Told(told) => {
                return told
                    .map(|(user, msg)| (user.spark_person_id.clone(), user.email.clone(), msg));
            }
        }
    }
}

#[test]
fn add_user() {
    let mut bot = Bot::new();
    bot.add_user("some_person_id", "some@example.com");
    assert_eq!(bot.users.len(), 1);
    assert_eq!(bot.users[0].spark_person_id, "some_person_id");
    assert_eq!(bot.users[0].email, "some@example.com");
    assert!(bot.users[0].enabled);
}

#[test]
fn status_for() {
    let mut bot = Bot::new();
    bot.add_user("some_person_id", "some@example.com");

    let resp = bot.status_for("some_person_id");
    assert!(resp.contains("enabled"));

    bot.users[0].enabled = false;
    let resp = bot.status_for("some_person_id");
    assert!(resp.contains("disabled"));

    let resp = bot.status_for("some_non_existent_id");
    assert!(resp.contains("disabled"));
}

#[test]
fn enable_non_existent_user() {
    let test = |enable| {
        let mut bot = Bot::new();
        let num_users = bot.num_users();
        bot.enable("some_person_id", "some@example.com", enable);
        assert!(bot
            .users
            .iter()
            .position(|u| {
                u.spark_person_id == "some_person_id"
                    && u.email == "some@example.com"
                    && u.enabled == enable
            })
            .is_some());
        assert!(bot.num_users() == num_users + 1);
    };
    test(true);
    test(false);
}

#[test]
fn enable_existent_user() {
    let test = |enable| {
        let mut bot = Bot::new();
        bot.add_user("some_person_id", "some@example.com");
        let num_users = bot.num_users();

        bot.enable("some_person_id", "some@example.com", enable);
        assert!(bot
            .users
            .iter()
            .position(|u| {
                u.spark_person_id == "some_person_id"
                    && u.email == "some@example.com"
                    && u.enabled == enable
            })
            .is_some());
        assert!(bot.num_users() == num_users);
    };
    test(true);
    test(false);
}

#[test]
fn get_approvals_msg_for_empty_bot() {
    // bot does not have the user => no message
    let mut bot = Bot::new();
    let res = told(&mut bot, get_event());
    assert!(res.is_none());
}

#[test]
fn get_approvals_msg_for_same_author_and_approver() {
    // the approval is from the author => no message
    let mut bot = Bot::new();
    bot.add_user("approver_spark_id", "approver@example.com");
    let res = told(&mut bot, get_event());
    assert!(res.is_none());
}

#[test]
fn get_approvals_msg_for_user_with_disabled_notifications() {
    // the approval is for the user with disabled notifications
    // => no message
    let mut bot = Bot::new();
    bot.add_user("author_spark_id", "author@example.com");
    bot.users[0].enabled = false;
    let res = told(&mut bot, get_event());
    assert!(res.is_none());
}

#[test]
fn get_approvals_msg_for_user_with_enabled_notifications() {
    // the approval is for the user with enabled notifications
    // => message
    let mut bot = Bot::new();
    bot.add_user("author_spark_id", "author@example.com");
    let res = told(&mut bot, get_event());
    assert!(res.is_some());
    let (person_id, email, msg) = res.unwrap();
    assert_eq!(person_id, "author_spark_id");
    assert_eq!(email, "author@example.com");
    assert!(msg.contains("Some review."));
}

#[test]
fn get_approvals_msg_for_user_with_enabled_notifications_and_filter() {
    // the approval is for the user with enabled notifications
    // => message
    let mut bot = Bot::new();
    bot.add_user("author_spark_id", "author@example.com");

    {
        let res = bot.add_filter("author_spark_id", ".*Code-Review.*");
        assert!(res.is_ok());
        let res = told(&mut bot, get_event());
        assert!(res.is_none());
    }
    {
        let res = bot.enable_filter("author_spark_id", false);
        assert!(res.is_ok());
        let res = told(&mut bot, get_event());
        assert!(res.is_some());
        let (person_id, email, msg) = res.unwrap();
        assert_eq!(person_id, "author_spark_id");
        assert_eq!(email, "author@example.com");
        assert!(msg.contains("Some review."));
    }
    {
        let res = bot.enable_filter("author_spark_id", true);
        assert!(res.is_ok());
        let res = bot.add_filter("author_spark_id", "some_non_matching_filter");
        assert!(res.is_ok());
        let res = told(&mut bot, get_event());
        assert!(res.is_some());
        let (person_id, email, msg) = res.unwrap();
        assert_eq!(person_id, "author_spark_id");
        assert_eq!(email, "author@example.com");
        assert!(msg.contains("Some review."));
    }
}

#[test]
fn get_approvals_msg_for_quickly_repeated_event() {
    // same approval for the user with enabled notifications 2 times in less than 1 sec
    // => first time get message, second time nothing
    let mut bot = Bot::with_msg_cache(10, Expiration::from_secs(1));
    bot.add_user("author_spark_id", "author@example.com");
    {
        let res = told(&mut bot, get_event());
        assert!(res.is_some());
        let (person_id, email, msg) = res.unwrap();
        assert_eq!(person_id, "author_spark_id");
        assert_eq!(email, "author@example.com");
        assert!(msg.contains("Some review."));
    }
    {
        let res = told(&mut bot, get_event());
        assert!(res.is_none());
    }
}

#[test]
fn get_approvals_msg_for_slowly_repeated_event() {
    // same approval for the user with enabled notifications 2 times in more than 100 msec
    // => get message 2 times
    let mut bot = Bot::with_msg_cache(10, Expiration::from_millis(50));
    bot.add_user("author_spark_id", "author@example.com");
    {
        let res = told(&mut bot, get_event());
        assert!(res.is_some());
        let (person_id, email, msg) = res.unwrap();
        assert_eq!(person_id, "author_spark_id");
        assert_eq!(email, "author@example.com");
        assert!(msg.contains("Some review."));
    }
    wait(Duration::from_millis(200));
    {
        let res = told(&mut bot, get_event());
        assert!(res.is_some());
        let (person_id, email, msg) = res.unwrap();
        assert_eq!(person_id, "author_spark_id");
        assert_eq!(email, "author@example.com");
        assert!(msg.contains("Some review."));
    }
}

#[test]
fn get_approvals_msg_for_bot_with_low_msgs_capacity() {
    // same approval for the user with enabled notifications 2 times in more less 100 msec
    // but there is also another approval and bot's msg capacity is 1
    // => get message 3 times
    let mut bot = Bot::with_msg_cache(1, Expiration::from_secs(1));
    bot.add_user("author_spark_id", "author@example.com");
    {
        let mut event = get_event();
        event.change.subject = String::from("A");
        let res = told(&mut bot, event);
        assert!(res.is_some());
    }
    {
        let mut event = get_event();
        event.change.subject = String::from("B");
        let res = told(&mut bot, event);
        assert!(res.is_some());
    }
    {
        let mut event = get_event();
        event.change.subject = String::from("A");
        let res = told(&mut bot, event);
        assert!(res.is_some());
    }
}

#[test]
fn test_format_msg() {
    let mut bot = Bot::new();
    bot.add_user("author_spark_id", "author@example.com");
    let event = get_event();
    let res = format_msg(&event, &event.approvals.as_ref().unwrap()[0]);
    assert_eq!(
        res,
        "[Some review.](http://localhost/42) 👍 +2 (Code-Review) from approver\n\n> Just a buggy script. FAILURE<br>\n> And more problems. FAILURE"
    );
}

#[test]
fn format_msg_filters_specific_messages() {
    let mut bot = Bot::new();
    bot.add_user("author_spark_id", "author@example.com");
    let mut event = get_event();
    event.approvals.as_mut().unwrap()[0].approval_type = String::from("Some new type");
    let res = format_msg(&event, &event.approvals.as_ref().unwrap()[0]);
    assert!(res.is_empty());
}

#[test]
fn add_invalid_filter_for_existing_user() {
    let mut bot = Bot::new();
    bot.add_user("some_person_id", "some@example.com");

    let res = bot.add_filter("some_person_id", ".some_weard_regex/[");
    assert_eq!(res, Err(AddFilterResult::InvalidFilter));
    assert!(bot
        .users
        .iter()
        .position(|u| {
            u.spark_person_id == "some_person_id"
                && u.email == "some@example.com"
                && u.filter == None
        })
        .is_some());

    let res = bot.enable_filter("some_person_id", true);
    assert_eq!(res, Err(AddFilterResult::FilterNotConfigured));
    let res = bot.enable_filter("some_person_id", false);
    assert_eq!(res, Err(AddFilterResult::FilterNotConfigured));
}

#[test]
fn add_valid_filter_for_existing_user() {
    let mut bot = Bot::new();
    bot.add_user("some_person_id", "some@example.com");

    let res = bot.add_filter("some_person_id", ".*some_word.*");
    assert!(res.is_ok());
    assert!(bot
        .users
        .iter()
        .position(|u| {
            u.spark_person_id == "some_person_id"
                && u.email == "some@example.com"
                && u.filter == Some(Filter::new(".*some_word.*"))
        })
        .is_some());

    {
        let filter = bot.get_filter("some_person_id");
        assert_eq!(filter, Ok(Some(&Filter::new(".*some_word.*"))));
    }
    let res = bot.enable_filter("some_person_id", false);
    assert_eq!(res, Ok(String::from(".*some_word.*")));
    assert!(bot
        .users
        .iter()
        .position(|u| {
            u.spark_person_id == "some_person_id"
                && u.email == "some@example.com"
                && u.filter.as_ref().map(|f| f.enabled) == Some(false)
        })
        .is_some());
    {
        let filter = bot.get_filter("some_person_id").unwrap().unwrap();
        assert_eq!(filter.regex, ".*some_word.*");
        assert_eq!(filter.enabled, false);
    }
    let res = bot.enable_filter("some_person_id", true);
    assert_eq!(res, Ok(String::from(".*some_word.*")));
    assert!(bot
        .users
        .iter()
        .position(|u| {
            u.spark_person_id == "some_person_id"
                && u.email == "some@example.com"
                && u.filter.as_ref().map(|f| f.enabled) == Some(true)
        })
        .is_some());
    {
        let filter = bot.get_filter("some_person_id");
        assert_eq!(filter, Ok(Some(&Filter::new(".*some_word.*"))));
    }
}

#[test]
fn add_valid_filter_for_non_existing_user() {
    let mut bot = Bot::new();
    let res = bot.add_filter("some_person_id", ".*some_word.*");
    assert_eq!(res, Err(AddFilterResult::UserNotFound));
    let res = bot.enable_filter("some_person_id", true);
    assert_eq!(res, Err(AddFilterResult::UserNotFound));
    let res = bot.enable_filter("some_person_id", false);
    assert_eq!(res, Err(AddFilterResult::UserNotFound));
}

#[test]
fn add_valid_filter_for_disabled_user() {
    let mut bot = Bot::new();
    bot.add_user("some_person_id", "some@example.com");
    bot.users[0].enabled = false;

    let res = bot.add_filter("some_person_id", ".*some_word.*");
    assert_eq!(res, Err(AddFilterResult::UserDisabled));
    let res = bot.enable_filter("some_person_id", true);
    assert_eq!(res, Err(AddFilterResult::UserDisabled));
    let res = bot.enable_filter("some_person_id", false);
    assert_eq!(res, Err(AddFilterResult::UserDisabled));
}

#[test]
fn enable_non_configured_filter_for_existing_user() {
    let mut bot = Bot::new();
    bot.add_user("some_person_id", "some@example.com");

    let res = bot.enable_filter("some_person_id", true);
    assert_eq!(res, Err(AddFilterResult::FilterNotConfigured));
    let res = bot.enable_filter("some_person_id", false);
    assert_eq!(res, Err(AddFilterResult::FilterNotConfigured));
}

#[test]
fn enable_invalid_filter_for_existing_user() {
    let mut bot = Bot::new();
    bot.add_user("some_person_id", "some@example.com");
    bot.users[0].filter = Some(Filter::new("invlide_filter_set_from_outside["));

    let res = bot.enable_filter("some_person_id", true);
    assert_eq!(res, Err(AddFilterResult::InvalidFilter));
    let res = bot.enable_filter("some_person_id", false);
    assert_eq!(res, Err(AddFilterResult::InvalidFilter));
}
