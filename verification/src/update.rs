//! The actions that the bot is asked for, and its answers.
use vstd::prelude::*;
use crate::bot::{
    filter_of, filter_result, status_text, switch_text, switch_word, with_enabled, with_filter,
    with_switched_filter, Bot, BotView,
};
use crate::cache::same_limits;
use crate::gerrit::Event;
use crate::notify::{consults_cache, is_usable, Notice, Question, QuestionView};
use crate::pending::{can_begin, can_go_on, Pending, PendingView, Stage, StageView};
use crate::spark::{Email, PersonId};
use crate::users::{
    has_id, lemma_position, text_result, AddFilterResult, Filter, FilterView, UserView,
};

verus! {

/// What the bot is asked for.
#[derive(Debug)]
pub enum Action {
    Enable(PersonId, Email),
    Disable(PersonId, Email),
    UpdateApprovals(Event),
    Help(PersonId),
    Unknown(PersonId),
    Status(PersonId),
    FilterStatus(PersonId),
    FilterAdd(PersonId, String),
    FilterEnable(PersonId),
    FilterDisable(PersonId),
    NoOp,
}

/// A message to a person.
#[derive(Debug)]
pub struct Response {
    pub person_id: PersonId,
    pub message: String,
}

/// What a [`Response`] holds.
pub struct ResponseView {
    pub person_id: Seq<char>,
    pub message: Seq<char>,
}

impl View for Response {
    type V = ResponseView;

    open spec fn view(&self) -> ResponseView {
        ResponseView { person_id: self.person_id@, message: self.message@ }
    }
}

impl Response {
    pub fn new<A: Into<String>>(person_id: PersonId, message: A) -> (response: Response)
        ensures
            response.person_id == person_id,
            call_ensures(A::into, (message,), response.message),
    {
        Response { person_id: person_id, message: message.into() }
    }
}

/// What is to be done after an action.
#[derive(Debug)]
pub enum Task {
    Reply(Response),
    ReplyAndSave(Response),
}

/// What a [`Task`] holds.
pub enum TaskView {
    Reply(ResponseView),
    ReplyAndSave(ResponseView),
}

impl View for Task {
    type V = TaskView;

    open spec fn view(&self) -> TaskView {
        match self {
            Task::Reply(response) => TaskView::Reply(response@),
            Task::ReplyAndSave(response) => TaskView::ReplyAndSave(response@),
        }
    }
}

/// What an optional task holds.
pub open spec fn opt_task(task: Option<Task>) -> Option<TaskView> {
    match task {
        Some(task) => Some(task@),
        None => None,
    }
}

/// What comes of an action.
#[derive(Debug)]
pub enum Outcome {
    /// The action is done, and the task is what is left to do.
    Done(Option<Task>),
    /// The formatting script is asked. [`resume`] goes on with its answer.
    Ask(Pending, Question),
}

/// What an [`Outcome`] holds.
pub enum OutcomeView {
    Done(Option<TaskView>),
    Ask(PendingView, QuestionView),
}

impl View for Outcome {
    type V = OutcomeView;

    open spec fn view(&self) -> OutcomeView {
        match self {
            Outcome::Done(task) => OutcomeView::Done(opt_task(*task)),
            Outcome::Ask(pending, question) => OutcomeView::Ask(pending@, question@),
        }
    }
}

pub const GREETINGS_MSG: &'static str =
    r#"Hi. I am GerritBot (**in a beta phase**). I can watch Gerrit reviews for you, and notify you about new +1/-1's.

To enable notifications, just type in **enable**. A small note: your email in Spark and in Gerrit has to be the same. Otherwise, I can't match your accounts.

For more information, type in **help**.

By the way, my icon is made by
[ Madebyoliver ](http://www.flaticon.com/authors/madebyoliver)
from
[ www.flaticon.com ](http://www.flaticon.com)
and is licensed by
[ CC 3.0 BY](http://creativecommons.org/licenses/by/3.0/).
"#;

pub const HELP_MSG: &'static str = r#"Commands:

`enable` -- I will start notifying you.

`disable` -- I will stop notifying you.

`filter [<regex>|enable|disable]` -- Add a `regex` to filter messages by applying the regex to the message sent to Spark, that is, you can filter whatever you like in the response from me. `enable` and `disable` options enable resp. disable a configured filter. The `filter` command without options shows if a filter is configured, and if it is enabled. Note: When adding a filter regex, wrap the regex with ``, otherwise Spark will eat all special characters.

`status` -- Show if I am notifying you, and a little bit more information. 😉

`help` -- This message
"#;

pub const ENABLED_MSG: &'static str = "Got it! Happy reviewing!";

pub const DISABLED_MSG: &'static str = "Got it! I will stay silent.";

pub const NO_FILTER_MSG: &'static str = "No filter is configured for you.";

pub const ENABLE_FIRST_MSG: &'static str =
    "Notification for you are disabled. Please enable notifications first, and then add a filter.";

pub const INVALID_FILTER_MSG: &'static str =
    "Your provided filter is invalid. Please double-check the regex you provided. Specifications of the regex are here: https://doc.rust-lang.org/regex/regex/index.html#syntax";

pub const FILTER_ADDED_MSG: &'static str = "Filter successfully added and enabled.";

pub const NOTHING_TO_ENABLE_MSG: &'static str =
    "Cannot enable filter since there is none configured. User `filter <regex>` to add a new filter.";

pub const FILTER_DISABLED_MSG: &'static str = "Filter successfully disabled.";

pub const ALREADY_SILENT_MSG: &'static str =
    "Notification for you are disabled. No need to disable the filter.";

pub const NOTHING_TO_DISABLE_MSG: &'static str =
    "No need to disable the filter since there is none configured.";

/// A reply to a person.
pub open spec fn reply(person_id: Seq<char>, message: Seq<char>) -> TaskView {
    TaskView::Reply(ResponseView { person_id: person_id, message: message })
}

/// A reply to a person, after which the users are saved.
pub open spec fn reply_and_save(person_id: Seq<char>, message: Seq<char>) -> TaskView {
    TaskView::ReplyAndSave(ResponseView { person_id: person_id, message: message })
}

/// The report on a filter; empty if there is nothing to report.
pub open spec fn filter_status_text(r: Result<Option<FilterView>, AddFilterResult>) -> Seq<char> {
    match r {
        Ok(Some(filter)) => "The following filter is configured for you: `"@ + filter.regex
            + "`. It is **"@ + switch_word(filter.enabled) + "**."@,
        Ok(None) => NO_FILTER_MSG@,
        Err(AddFilterResult::UserNotFound) => ENABLE_FIRST_MSG@,
        Err(_) => Seq::empty(),
    }
}

/// The answer to a question for a filter.
pub open spec fn filter_status_task(
    person_id: Seq<char>,
    r: Result<Option<FilterView>, AddFilterResult>,
) -> Option<TaskView> {
    if filter_status_text(r).len() == 0 {
        None
    } else {
        Some(reply(person_id, filter_status_text(r)))
    }
}

/// The answer to somebody who gave a filter.
pub open spec fn filter_add_task(
    person_id: Seq<char>,
    r: Result<(), AddFilterResult>,
) -> TaskView {
    match r {
        Ok(_) => reply_and_save(person_id, FILTER_ADDED_MSG@),
        Err(AddFilterResult::InvalidFilter) => reply(person_id, INVALID_FILTER_MSG@),
        Err(_) => reply(person_id, ENABLE_FIRST_MSG@),
    }
}

/// The answer to somebody who switched a filter on.
pub open spec fn filter_enable_task(
    person_id: Seq<char>,
    r: Result<Seq<char>, AddFilterResult>,
) -> TaskView {
    match r {
        Ok(regex) => reply_and_save(
            person_id,
            "Filter successfully enabled. The following filter is configured: "@ + regex,
        ),
        Err(AddFilterResult::InvalidFilter) => reply(person_id, INVALID_FILTER_MSG@),
        Err(AddFilterResult::FilterNotConfigured) => reply(person_id, NOTHING_TO_ENABLE_MSG@),
        Err(_) => reply(person_id, ENABLE_FIRST_MSG@),
    }
}

/// The answer to somebody who switched a filter off.
pub open spec fn filter_disable_task(
    person_id: Seq<char>,
    r: Result<Seq<char>, AddFilterResult>,
) -> TaskView {
    match r {
        Ok(_) => reply_and_save(person_id, FILTER_DISABLED_MSG@),
        Err(AddFilterResult::InvalidFilter) => reply(person_id, INVALID_FILTER_MSG@),
        Err(AddFilterResult::FilterNotConfigured) => reply(person_id, NOTHING_TO_DISABLE_MSG@),
        Err(_) => reply(person_id, ALREADY_SILENT_MSG@),
    }
}

/// Whether `action` comes from a person, not from Gerrit.
pub open spec fn is_command(action: Action) -> bool {
    !(action is UpdateApprovals)
}

/// The users after the command `action`, and the answer.
pub open spec fn obeyed(action: Action, users: Seq<UserView>) -> (Seq<UserView>, Option<TaskView>)
    recommends
        is_command(action),
{
    match action {
        Action::Enable(id, email) => (
            with_enabled(users, id@, email@, true),
            Some(reply_and_save(id@, ENABLED_MSG@)),
        ),
        Action::Disable(id, email) => (
            with_enabled(users, id@, email@, false),
            Some(reply_and_save(id@, DISABLED_MSG@)),
        ),
        Action::Help(id) => (users, Some(reply(id@, HELP_MSG@))),
        Action::Unknown(id) => (users, Some(reply(id@, GREETINGS_MSG@))),
        Action::Status(id) => (users, Some(reply(id@, status_text(users, id@)))),
        Action::FilterStatus(id) => (users, filter_status_task(id@, filter_of(users, id@))),
        Action::FilterAdd(id, filter) => {
            let (after, r) = with_filter(users, id@, filter@);
            (after, Some(filter_add_task(id@, r)))
        },
        Action::FilterEnable(id) => {
            let (after, r) = with_switched_filter(users, id@, true);
            (after, Some(filter_enable_task(id@, r)))
        },
        Action::FilterDisable(id) => {
            let (after, r) = with_switched_filter(users, id@, false);
            (after, Some(filter_disable_task(id@, r)))
        },
        Action::NoOp => (users, None),
        Action::UpdateApprovals(_) => (users, None),
    }
}

/// The task that tells a user about an event.
pub open spec fn notice_task(told: Notice) -> Option<TaskView> {
    match told {
        Some((user, text)) => Some(reply(user.person_id, text)),
        None => None,
    }
}

/// What comes of an event whose handling got to `stage`.
pub open spec fn outcome_of(stage: StageView) -> OutcomeView {
    match stage {
        StageView::Ask(pending, question) => OutcomeView::Ask(pending, question),
        StageView::Told(told) => OutcomeView::Done(notice_task(told)),
    }
}

/// Whether `update` can lead from `before` to `after` with `outcome`.
pub open spec fn can_update(
    action: Action,
    before: BotView,
    after: BotView,
    outcome: OutcomeView,
) -> bool {
    match action {
        Action::UpdateApprovals(event) => after.users == before.users && exists|stage: StageView|
            #[trigger]
            can_begin(before.users, event@, before.cache, stage, after.cache) && outcome
                == outcome_of(stage),
        _ => {
            let (users, answer) = obeyed(action, before.users);
            after == (BotView { users: users, ..before }) && outcome == OutcomeView::Done(answer)
        },
    }
}

/// Whether `resume` can lead from `before` to `after` with `outcome`.
pub open spec fn can_resume(
    pending: PendingView,
    answer: Seq<char>,
    before: BotView,
    after: BotView,
    outcome: OutcomeView,
) -> bool {
    after.users == before.users && exists|stage: StageView| #[trigger]
        can_go_on(before.users, pending, answer, before.cache, stage, after.cache) && outcome
            == outcome_of(stage)
}

/// Answers a question for a filter.
pub fn reply_to_filter_status(
    person_id: PersonId,
    r: Result<Option<&Filter>, AddFilterResult>,
) -> (task: Option<Task>)
    ensures
        opt_task(task) == filter_status_task(person_id@, filter_result(r)),
{
    let resp: String = match r {
        Ok(Some(filter)) => {
            let mut resp = String::from("The following filter is configured for you: `");
            resp.append(filter.regex.as_str());
            resp.append("`. It is **");
            resp.append(switch_text(filter.enabled));
            resp.append("**.");
            resp
        },
        Ok(None) => String::from(NO_FILTER_MSG),
        Err(err) => match err {
            AddFilterResult::UserNotFound => String::from(ENABLE_FIRST_MSG),
            _ => String::new(),
        },
    };
    if !resp.as_str().is_empty() {
        Some(Task::Reply(Response::new(person_id, resp)))
    } else {
        None
    }
}

/// Answers somebody who gave a filter. That no filter is configured is not a possible outcome.
pub fn reply_to_filter_add(person_id: PersonId, r: Result<(), AddFilterResult>) -> (task: Task)
    requires
        r != Err::<(), AddFilterResult>(AddFilterResult::FilterNotConfigured),
    ensures
        task@ == filter_add_task(person_id@, r),
{
    match r {
        Ok(()) => Task::ReplyAndSave(Response::new(person_id, FILTER_ADDED_MSG)),
        Err(err) => {
            let message = match err {
                AddFilterResult::UserDisabled => ENABLE_FIRST_MSG,
                AddFilterResult::InvalidFilter => INVALID_FILTER_MSG,
                AddFilterResult::UserNotFound => ENABLE_FIRST_MSG,
                AddFilterResult::FilterNotConfigured => "",
            };
            Task::Reply(Response::new(person_id, message))
        },
    }
}

/// Answers somebody who switched a filter on.
pub fn reply_to_filter_enable(person_id: PersonId, r: Result<String, AddFilterResult>) -> (task:
    Task)
    ensures
        task@ == filter_enable_task(person_id@, text_result(r)),
{
    match r {
        Ok(filter) => {
            let mut message = String::from(
                "Filter successfully enabled. The following filter is configured: ",
            );
            message.append(filter.as_str());
            Task::ReplyAndSave(Response::new(person_id, message))
        },
        Err(err) => {
            let message = match err {
                AddFilterResult::UserDisabled => ENABLE_FIRST_MSG,
                AddFilterResult::InvalidFilter => INVALID_FILTER_MSG,
                AddFilterResult::UserNotFound => ENABLE_FIRST_MSG,
                AddFilterResult::FilterNotConfigured => NOTHING_TO_ENABLE_MSG,
            };
            Task::Reply(Response::new(person_id, message))
        },
    }
}

/// Answers somebody who switched a filter off.
pub fn reply_to_filter_disable(person_id: PersonId, r: Result<String, AddFilterResult>) -> (task:
    Task)
    ensures
        task@ == filter_disable_task(person_id@, text_result(r)),
{
    match r {
        Ok(_) => Task::ReplyAndSave(Response::new(person_id, FILTER_DISABLED_MSG)),
        Err(err) => {
            let message = match err {
                AddFilterResult::UserDisabled => ALREADY_SILENT_MSG,
                AddFilterResult::InvalidFilter => INVALID_FILTER_MSG,
                AddFilterResult::UserNotFound => ALREADY_SILENT_MSG,
                AddFilterResult::FilterNotConfigured => NOTHING_TO_DISABLE_MSG,
            };
            Task::Reply(Response::new(person_id, message))
        },
    }
}

/// What comes of an event whose handling got to `stage`.
fn conclude(stage: Stage) -> (outcome: Outcome)
    ensures
        outcome@ == outcome_of(stage@),
        outcome matches Outcome::Ask(pending, _) ==> stage matches Stage::Ask(p, _) && p == pending,
{
    match stage {
        Stage::Ask(pending, question) => Outcome::Ask(pending, question),
        Stage::Told(Some((user, message))) => {
            let response = Response::new(user.spark_person_id.clone(), message);
            Outcome::Done(Some(Task::Reply(response)))
        },
        Stage::Told(None) => Outcome::Done(None),
    }
}

/// Action controller
/// Returns the new state of the bot and an optional message to send to the user, or a question
/// for the script that formats the messages about approvals.
pub fn update(action: Action, bot: Bot) -> (r: (Bot, Outcome))
    requires
        action matches Action::UpdateApprovals(event) ==> consults_cache(bot@.users, event@)
            ==> is_usable(bot@.cache),
    ensures
        can_update(action, bot@, r.0@, r.1@),
        same_limits(bot@.cache, r.0@.cache),
        r.1 matches Outcome::Ask(pending, _) ==> pending@.fits(r.0@.users) && is_usable(r.0@.cache),
{
    let ghost before = bot@;
    let mut bot = bot;
    let task = match action {
        Action::Enable(person_id, email) => {
            bot.enable(person_id.as_str(), email.as_str(), true);
            Some(Task::ReplyAndSave(Response::new(person_id, ENABLED_MSG)))
        },
        Action::Disable(person_id, email) => {
            bot.enable(person_id.as_str(), email.as_str(), false);
            Some(Task::ReplyAndSave(Response::new(person_id, DISABLED_MSG)))
        },
        Action::UpdateApprovals(event) => {
            let outcome = conclude(bot.get_approvals_msg(event));
            return (bot, outcome);
        },
        Action::Help(person_id) => Some(Task::Reply(Response::new(person_id, HELP_MSG))),
        Action::Unknown(person_id) => Some(Task::Reply(Response::new(person_id, GREETINGS_MSG))),
        Action::Status(person_id) => {
            let status = bot.status_for(person_id.as_str());
            Some(Task::Reply(Response::new(person_id, status)))
        },
        Action::FilterStatus(person_id) => {
            let r = bot.get_filter(person_id.as_str());
            reply_to_filter_status(person_id, r)
        },
        Action::FilterAdd(person_id, filter) => {
            let r = bot.add_filter(person_id.as_str(), filter);
            proof {
                lemma_position(before.users, has_id(person_id@));
                assert(bot@.users == with_filter(before.users, person_id@, filter@).0);
            }
            Some(reply_to_filter_add(person_id, r))
        },
        Action::FilterEnable(person_id) => {
            let r = bot.enable_filter(person_id.as_str(), true);
            Some(reply_to_filter_enable(person_id, r))
        },
        Action::FilterDisable(person_id) => {
            let r = bot.enable_filter(person_id.as_str(), false);
            Some(reply_to_filter_disable(person_id, r))
        },
        Action::NoOp => None,
    };
    (bot, Outcome::Done(task))
}

/// Goes on with the handling of an event after the script gave `answer`.
pub fn resume(bot: Bot, pending: Pending, answer: String) -> (r: (Bot, Outcome))
    requires
        pending@.fits(bot@.users),
        is_usable(bot@.cache),
    ensures
        can_resume(pending@, answer@, bot@, r.0@, r.1@),
        same_limits(bot@.cache, r.0@.cache),
        r.1 matches Outcome::Ask(pending, _) ==> pending@.fits(r.0@.users) && is_usable(r.0@.cache),
{
    let mut bot = bot;
    let outcome = conclude(bot.resume_approvals_msg(pending, answer));
    (bot, outcome)
}

} // verus!
