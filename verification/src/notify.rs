//! Who is told about an event, and what.
//!
//! The messages about approvals are formatted by a script outside of the bot, which is asked a
//! [`Question`] about each approval that is worth a message.
//!
//! The messages of an event depend on what happens outside of the bot while it handles the
//! approvals one by one: how many remembered lines expire, and what the formatting script
//! answers. A [`Turn`] records this for one approval, so that the handling of an event is a
//! function of the event and of its turns.
use vstd::prelude::*;
use crate::cache::{same_limits, CacheView, LineView, MsgCacheLine};
use crate::gerrit::{Approval, ApprovalView, Event, EventView};
use crate::outside::parse_i32;
use crate::text::{join_texts, joined, opt_text, spelled_i32, texts};
use crate::users::{filtered, listens_at, position, UserView};

verus! {

/// The separator of the messages of an event: an empty line, since they are Markdown.
pub const MESSAGE_SEPARATOR: &'static str = "\n\n";

/// The position of the user who is told about `event`: the first enabled user with the address
/// of the owner of the change, unless the owner approved it.
pub open spec fn recipient(users: Seq<UserView>, event: EventView) -> Option<int> {
    if event.approvals is None || event.author is None {
        None
    } else if event.author->0.username == event.change.owner.username {
        None
    } else {
        match event.change.owner.email {
            Some(email) => position(users, listens_at(email)),
            None => None,
        }
    }
}

/// Whether `approval` is news: it replaces another value, and is not zero.
pub open spec fn is_news(approval: ApprovalView) -> bool {
    match approval.old_value {
        Some(old_value) => old_value != approval.value && approval.value != "0"@,
        None => false,
    }
}

/// The line by which the message about `approval` is remembered. Changes of one topic count as
/// one.
pub open spec fn line_of(user_ref: usize, event: EventView, approval: ApprovalView) -> LineView {
    (
        user_ref,
        match event.change.topic {
            Some(topic) => topic,
            None => event.change.subject,
        },
        event.author->0.username,
        approval.approval_type,
        approval.value,
    )
}

/// The value of an approval as a number; zero if it is none.
pub open spec fn score(approval: ApprovalView) -> i32 {
    match spelled_i32(approval.value) {
        Some(value) => value,
        None => 0,
    }
}

/// What the formatting script is told about an approval.
#[derive(Debug, Clone, PartialEq, Eq)]
pub struct Question {
    pub approver: String,
    pub comment: Option<String>,
    pub value: i32,
    pub approval_type: String,
    pub url: String,
    pub subject: String,
}

/// What a [`Question`] holds.
pub struct QuestionView {
    pub approver: Seq<char>,
    pub comment: Option<Seq<char>>,
    pub value: i32,
    pub approval_type: Seq<char>,
    pub url: Seq<char>,
    pub subject: Seq<char>,
}

impl View for Question {
    type V = QuestionView;

    open spec fn view(&self) -> QuestionView {
        QuestionView {
            approver: self.approver@,
            comment: opt_text(self.comment),
            value: self.value,
            approval_type: self.approval_type@,
            url: self.url@,
            subject: self.subject@,
        }
    }
}

/// The question about `approval`.
pub open spec fn question_about(event: EventView, approval: ApprovalView) -> QuestionView {
    QuestionView {
        approver: event.author->0.username,
        comment: event.comment,
        value: score(approval),
        approval_type: approval.approval_type,
        url: event.change.url,
        subject: event.change.subject,
    }
}

/// A question, and what the script answered.
pub type Exchange = (QuestionView, Seq<char>);

/// The message that is left of a formatted one: none if it is filtered or empty.
pub open spec fn kept(user: UserView, message: Seq<char>) -> Option<Seq<char>> {
    if filtered(user, message) || message.len() == 0 {
        None
    } else {
        Some(message)
    }
}

/// The messages after the script gave `answer`.
pub open spec fn extended(
    user: UserView,
    messages: Seq<Seq<char>>,
    answer: Seq<char>,
) -> Seq<Seq<char>> {
    match kept(user, answer) {
        Some(message) => messages.push(message),
        None => messages,
    }
}

/// What happens outside of the bot while it handles one approval.
pub struct Turn {
    /// how many lines expire before the line of the approval is looked up
    pub expired_at_lookup: nat,
    /// how many lines expire before the line of the approval is remembered
    pub expired_at_insert: nat,
    /// what the script answers, if it is asked
    pub answer: Seq<char>,
}

/// How far the handling of an event has come.
#[verifier::ext_equal]
pub struct Progress {
    pub cache: Option<CacheView>,
    /// what the script was asked, and answered
    pub exchanges: Seq<Exchange>,
    pub messages: Seq<Seq<char>>,
}

/// No approval has been handled yet.
pub open spec fn idle(cache: Option<CacheView>) -> Progress {
    Progress { cache: cache, exchanges: Seq::empty(), messages: Seq::empty() }
}

/// Whether lines can be looked up and remembered, if there is a cache.
pub open spec fn is_usable(cache: Option<CacheView>) -> bool {
    cache matches Some(cache) ==> cache.is_usable()
}

/// Whether the expirations of `turn` can happen while `line` is looked up and remembered.
pub open spec fn can_note(cache: Option<CacheView>, line: LineView, turn: Turn) -> bool {
    cache matches Some(cache) ==> {
        &&& cache.can_expire(turn.expired_at_lookup)
        &&& !cache.hits(line, turn.expired_at_lookup) ==> cache.looked_up(
            line,
            turn.expired_at_lookup,
        ).can_expire(turn.expired_at_insert)
    }
}

/// Whether the message with the line `line` was sent already.
pub open spec fn is_repeated(cache: Option<CacheView>, line: LineView, turn: Turn) -> bool {
    match cache {
        Some(cache) => cache.hits(line, turn.expired_at_lookup),
        None => false,
    }
}

/// The cache after the line `line` was looked up, and remembered if it was not found.
pub open spec fn noted(cache: Option<CacheView>, line: LineView, turn: Turn) -> Option<CacheView> {
    match cache {
        Some(cache) => {
            let after = cache.looked_up(line, turn.expired_at_lookup);
            if cache.hits(line, turn.expired_at_lookup) {
                Some(after)
            } else {
                Some(after.remembered(line, turn.expired_at_insert))
            }
        },
        None => None,
    }
}

/// Whether the script is asked about `approval`: it is news that was not sent already.
pub open spec fn is_asked(
    user_ref: usize,
    event: EventView,
    approval: ApprovalView,
    cache: Option<CacheView>,
    turn: Turn,
) -> bool {
    is_news(approval) && !is_repeated(cache, line_of(user_ref, event, approval), turn)
}

/// The progress after `approval` was handled.
pub open spec fn step(
    user: UserView,
    user_ref: usize,
    event: EventView,
    approval: ApprovalView,
    turn: Turn,
    before: Progress,
) -> Progress {
    if !is_news(approval) {
        before
    } else {
        let cache = noted(before.cache, line_of(user_ref, event, approval), turn);
        if is_asked(user_ref, event, approval, before.cache, turn) {
            Progress {
                cache: cache,
                exchanges: before.exchanges.push((question_about(event, approval), turn.answer)),
                messages: extended(user, before.messages, turn.answer),
            }
        } else {
            Progress { cache: cache, ..before }
        }
    }
}

/// Whether `turn` can happen while `approval` is handled. Any answer of the script can.
pub open spec fn can_happen(
    user_ref: usize,
    event: EventView,
    approval: ApprovalView,
    turn: Turn,
    before: Progress,
) -> bool {
    is_news(approval) ==> can_note(before.cache, line_of(user_ref, event, approval), turn)
}

/// The progress after `approvals` were handled in order, one turn each.
pub open spec fn handled(
    user: UserView,
    user_ref: usize,
    event: EventView,
    approvals: Seq<ApprovalView>,
    turns: Seq<Turn>,
    cache: Option<CacheView>,
) -> Progress
    decreases approvals.len(),
{
    if approvals.len() == 0 {
        idle(cache)
    } else {
        step(
            user,
            user_ref,
            event,
            approvals.last(),
            turns.last(),
            handled(user, user_ref, event, approvals.drop_last(), turns.drop_last(), cache),
        )
    }
}

/// Whether `turns` can happen, one after the other, while `approvals` are handled.
pub open spec fn can_unfold(
    user: UserView,
    user_ref: usize,
    event: EventView,
    approvals: Seq<ApprovalView>,
    turns: Seq<Turn>,
    cache: Option<CacheView>,
) -> bool
    decreases approvals.len(),
{
    if approvals.len() == 0 {
        turns.len() == 0
    } else {
        &&& turns.len() == approvals.len()
        &&& can_unfold(
            user,
            user_ref,
            event,
            approvals.drop_last(),
            turns.drop_last(),
            cache,
        )
        &&& can_happen(
            user_ref,
            event,
            approvals.last(),
            turns.last(),
            handled(user, user_ref, event, approvals.drop_last(), turns.drop_last(), cache),
        )
    }
}

/// The text for which the messages of an event are sent, if there are any.
pub open spec fn sent_text(messages: Seq<Seq<char>>) -> Option<Seq<char>> {
    if messages.len() == 0 {
        None
    } else {
        Some(joined(messages, MESSAGE_SEPARATOR@))
    }
}

/// What comes of an event: the user who is told, and the text; or nothing.
pub type Notice = Option<(UserView, Seq<char>)>;

/// What comes of an event for `user` once its approvals were handled.
pub open spec fn notice(user: UserView, messages: Seq<Seq<char>>) -> Notice {
    match sent_text(messages) {
        Some(text) => Some((user, text)),
        None => None,
    }
}

/// Whether `told` can come of `event`, with the given exchanges with the script, and leave the
/// cache as `cache_after`.
pub open spec fn can_tell(
    users: Seq<UserView>,
    cache: Option<CacheView>,
    event: EventView,
    exchanges: Seq<Exchange>,
    told: Notice,
    cache_after: Option<CacheView>,
) -> bool {
    match recipient(users, event) {
        None => exchanges.len() == 0 && told is None && cache_after == cache,
        Some(pos) => exists|turns: Seq<Turn>|
            {
                let after = handled(
                    users[pos],
                    pos as usize,
                    event,
                    event.approvals->0,
                    turns,
                    cache,
                );
                &&& #[trigger] can_unfold(
                    users[pos],
                    pos as usize,
                    event,
                    event.approvals->0,
                    turns,
                    cache,
                )
                &&& exchanges == after.exchanges
                &&& told == notice(users[pos], after.messages)
                &&& cache_after == after.cache
            },
    }
}

/// Whether the handling of `event` consults the cache: there is a recipient, and news.
pub open spec fn consults_cache(users: Seq<UserView>, event: EventView) -> bool {
    recipient(users, event) is Some && exists|i: int|
        0 <= i < event.approvals->0.len() && is_news(#[trigger] event.approvals->0[i])
}

/// Whether `approval` is news.
pub fn approval_is_news(approval: &Approval) -> (r: bool)
    ensures
        r == is_news(approval@),
{
    match &approval.old_value {
        Some(old_value) => *old_value.as_str() != *approval.value.as_str()
            && *approval.value.as_str() != *"0",
        None => false,
    }
}

/// The line by which the message about `approval` is remembered.
pub fn cache_line(user_ref: usize, event: &Event, approval: &Approval) -> (line: MsgCacheLine)
    requires
        event.author is Some,
    ensures
        line@ == line_of(user_ref, event@, approval@),
{
    let subject = match &event.change.topic {
        Some(topic) => topic.clone(),
        None => event.change.subject.clone(),
    };
    MsgCacheLine::new(
        user_ref,
        subject,
        event.author.as_ref().unwrap().username.clone(),
        approval.approval_type.clone(),
        approval.value.clone(),
    )
}

/// The value of an approval as a number; zero if it is none.
pub fn approval_score(approval: &Approval) -> (value: i32)
    ensures
        value == score(approval@),
{
    match parse_i32(approval.value.as_str()) {
        Some(value) => value,
        None => 0,
    }
}

/// The question about `approval`.
pub fn question(event: &Event, approval: &Approval) -> (question: Question)
    requires
        event.author is Some,
    ensures
        question@ == question_about(event@, approval@),
{
    Question {
        approver: event.author.as_ref().unwrap().username.clone(),
        comment: match &event.comment {
            Some(comment) => Some(comment.clone()),
            None => None,
        },
        value: approval_score(approval),
        approval_type: approval.approval_type.clone(),
        url: event.change.url.clone(),
        subject: event.change.subject.clone(),
    }
}

/// Puts the messages of an event together.
pub fn compose(messages: &Vec<String>) -> (text: Option<String>)
    ensures
        opt_text(text) == sent_text(texts(messages@)),
{
    if messages.len() == 0 {
        None
    } else {
        Some(join_texts(messages, MESSAGE_SEPARATOR))
    }
}

/// Handling approvals keeps the limits of the cache.
pub proof fn lemma_limits_kept(
    user: UserView,
    user_ref: usize,
    event: EventView,
    approvals: Seq<ApprovalView>,
    turns: Seq<Turn>,
    cache: Option<CacheView>,
)
    ensures
        same_limits(cache, handled(user, user_ref, event, approvals, turns, cache).cache),
    decreases approvals.len(),
{
    if approvals.len() > 0 {
        lemma_limits_kept(user, user_ref, event, approvals.drop_last(), turns.drop_last(), cache);
    }
}

} // verus!
