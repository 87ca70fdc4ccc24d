//! Laws on who is told about approvals, and what.
use vstd::prelude::*;
use crate::cache::CacheView;
use crate::gerrit::{ApprovalView, EventView};
use crate::notify::{
    can_tell, can_unfold, extended, handled, idle, is_news, line_of, notice, question_about,
    recipient, step, Exchange, Notice, Progress, Turn,
};
use crate::users::{filtered, lemma_position, listens_at, UserView};

verus! {

/// Nothing is asked or told, and nothing changes.
pub open spec fn is_silent(
    exchanges: Seq<Exchange>,
    told: Notice,
    before: Option<CacheView>,
    after: Option<CacheView>,
) -> bool {
    exchanges.len() == 0 && told is None && after == before
}

/// Nobody is told about their own approvals.
pub proof fn law_own_approvals_are_silent(
    users: Seq<UserView>,
    cache: Option<CacheView>,
    event: EventView,
    exchanges: Seq<Exchange>,
    told: Notice,
    cache_after: Option<CacheView>,
)
    requires
        can_tell(users, cache, event, exchanges, told, cache_after),
        event.author matches Some(author) ==> author.username == event.change.owner.username,
    ensures
        is_silent(exchanges, told, cache, cache_after),
{
}

/// Nobody is told about an event if no enabled user has the address of the owner of the change.
pub proof fn law_nobody_listens(
    users: Seq<UserView>,
    cache: Option<CacheView>,
    event: EventView,
    exchanges: Seq<Exchange>,
    told: Notice,
    cache_after: Option<CacheView>,
)
    requires
        can_tell(users, cache, event, exchanges, told, cache_after),
        forall|i: int|
            0 <= i < users.len() && (#[trigger] users[i]).enabled ==> event.change.owner.email
                != Some(users[i].email),
    ensures
        is_silent(exchanges, told, cache, cache_after),
{
    if event.change.owner.email is Some {
        lemma_position(users, listens_at(event.change.owner.email->0));
    }
}

/// Whether `user` is the first enabled one with the address of the owner of the change, and
/// somebody else approved it.
pub open spec fn is_owner(users: Seq<UserView>, event: EventView, user: UserView) -> bool {
    &&& user.enabled
    &&& event.change.owner.email == Some(user.email)
    &&& event.author is Some
    &&& event.author->0.username != event.change.owner.username
    &&& exists|i: int|
        0 <= i < users.len() && #[trigger] users[i] == user && forall|j: int|
            0 <= j < i && (#[trigger] users[j]).enabled ==> users[j].email != user.email
}

/// Who is told about an event is the first enabled user with the address of the owner of the
/// change, and is not the approver.
pub proof fn law_the_owner_is_told(
    users: Seq<UserView>,
    cache: Option<CacheView>,
    event: EventView,
    exchanges: Seq<Exchange>,
    user: UserView,
    text: Seq<char>,
    cache_after: Option<CacheView>,
)
    requires
        can_tell(users, cache, event, exchanges, Some((user, text)), cache_after),
    ensures
        is_owner(users, event, user),
{
    lemma_recipient_is_owner(users, event);
}

pub(crate) proof fn lemma_recipient_is_owner(users: Seq<UserView>, event: EventView)
    requires
        recipient(users, event) is Some,
    ensures
        0 <= recipient(users, event)->0 < users.len(),
        is_owner(users, event, users[recipient(users, event)->0]),
{
    lemma_position(users, listens_at(event.change.owner.email->0));
    let i = recipient(users, event)->0;
    let user = users[i];
    assert forall|j: int| 0 <= j < i && (#[trigger] users[j]).enabled implies users[j].email
        != user.email by {
        assert(!listens_at(event.change.owner.email->0)(users[j]));
    }
}

/// Nothing comes of an event without news: each of its approvals is new, stays as it was, or
/// becomes zero.
pub proof fn law_no_news_no_notice(
    users: Seq<UserView>,
    cache: Option<CacheView>,
    event: EventView,
    exchanges: Seq<Exchange>,
    told: Notice,
    cache_after: Option<CacheView>,
)
    requires
        can_tell(users, cache, event, exchanges, told, cache_after),
        event.approvals matches Some(approvals) ==> forall|i: int|
            0 <= i < approvals.len() ==> !is_news(#[trigger] approvals[i]),
    ensures
        is_silent(exchanges, told, cache, cache_after),
{
    if let Some(pos) = recipient(users, event) {
        let approvals = event.approvals->0;
        let turns = lemma_turns(users, cache, event, exchanges, told, cache_after);
        lemma_no_news(users[pos], pos as usize, event, approvals, turns, cache);
    }
}

/// The turns by which an event was handled.
pub(crate) proof fn lemma_turns(
    users: Seq<UserView>,
    cache: Option<CacheView>,
    event: EventView,
    exchanges: Seq<Exchange>,
    told: Notice,
    cache_after: Option<CacheView>,
) -> (turns: Seq<Turn>)
    requires
        can_tell(users, cache, event, exchanges, told, cache_after),
        recipient(users, event) is Some,
    ensures
        ({
            let pos = recipient(users, event)->0;
            let approvals = event.approvals->0;
            let after = handled(users[pos], pos as usize, event, approvals, turns, cache);
            &&& can_unfold(users[pos], pos as usize, event, approvals, turns, cache)
            &&& exchanges == after.exchanges
            &&& told == notice(users[pos], after.messages)
            &&& cache_after == after.cache
        }),
{
    let pos = recipient(users, event)->0;
    choose|turns: Seq<Turn>|
        {
            let after = handled(users[pos], pos as usize, event, event.approvals->0, turns, cache);
            &&& #[trigger] can_unfold(
                users[pos],
                pos as usize,
                event,
                event.approvals->0,
                turns,
                cache,
            )
            &&& exchanges == after.exchanges
            &&& told == notice(users[pos], after.messages)
            &&& cache_after == after.cache
        }
}

proof fn lemma_no_news(
    user: UserView,
    user_ref: usize,
    event: EventView,
    approvals: Seq<ApprovalView>,
    turns: Seq<Turn>,
    cache: Option<CacheView>,
)
    requires
        forall|i: int| 0 <= i < approvals.len() ==> !is_news(#[trigger] approvals[i]),
    ensures
        handled(user, user_ref, event, approvals, turns, cache) == idle(cache),
    decreases approvals.len(),
{
    if approvals.len() > 0 {
        lemma_no_news(user, user_ref, event, approvals.drop_last(), turns.drop_last(), cache);
    }
}

/// The messages that are left of the answers of the script, in order.
pub open spec fn kept_answers(user: UserView, exchanges: Seq<Exchange>) -> Seq<Seq<char>>
    decreases exchanges.len(),
{
    if exchanges.len() == 0 {
        Seq::empty()
    } else {
        extended(user, kept_answers(user, exchanges.drop_last()), exchanges.last().1)
    }
}

/// Who is told about an event is told what the script answered, in order, but for answers that
/// are empty or kept back by the filter.
pub proof fn law_the_answers_are_told(
    users: Seq<UserView>,
    cache: Option<CacheView>,
    event: EventView,
    exchanges: Seq<Exchange>,
    told: Notice,
    cache_after: Option<CacheView>,
)
    requires
        can_tell(users, cache, event, exchanges, told, cache_after),
    ensures
        recipient(users, event) matches Some(pos) ==> told == notice(
            users[pos],
            kept_answers(users[pos], exchanges),
        ),
{
    if let Some(pos) = recipient(users, event) {
        let turns = lemma_turns(users, cache, event, exchanges, told, cache_after);
        lemma_kept_answers(users[pos], pos as usize, event, event.approvals->0, turns, cache);
    }
}

proof fn lemma_kept_answers(
    user: UserView,
    user_ref: usize,
    event: EventView,
    approvals: Seq<ApprovalView>,
    turns: Seq<Turn>,
    cache: Option<CacheView>,
)
    ensures
        ({
            let after = handled(user, user_ref, event, approvals, turns, cache);
            after.messages == kept_answers(user, after.exchanges)
        }),
    decreases approvals.len(),
{
    if approvals.len() > 0 {
        let rest = approvals.drop_last();
        lemma_kept_answers(user, user_ref, event, rest, turns.drop_last(), cache);
        let before = handled(user, user_ref, event, rest, turns.drop_last(), cache);
        let exchange = (question_about(event, approvals.last()), turns.last().answer);
        assert(before.exchanges.push(exchange).drop_last() == before.exchanges);
    }
}

/// Whether the question of `exchange` is about one of the news among `approvals`.
pub open spec fn is_about_news(
    event: EventView,
    approvals: Seq<ApprovalView>,
    exchange: Exchange,
) -> bool {
    exists|i: int|
        0 <= i < approvals.len() && is_news(#[trigger] approvals[i]) && exchange.0
            == question_about(event, approvals[i])
}

/// Every question is about one of the approvals of the event, and that is news.
pub proof fn law_questions_are_about_news(
    users: Seq<UserView>,
    cache: Option<CacheView>,
    event: EventView,
    exchanges: Seq<Exchange>,
    told: Notice,
    cache_after: Option<CacheView>,
    k: int,
)
    requires
        can_tell(users, cache, event, exchanges, told, cache_after),
        0 <= k < exchanges.len(),
    ensures
        event.approvals is Some,
        is_about_news(event, event.approvals->0, exchanges[k]),
{
    let pos = recipient(users, event)->0;
    let turns = lemma_turns(users, cache, event, exchanges, told, cache_after);
    lemma_about_news(users[pos], pos as usize, event, event.approvals->0, turns, cache, k);
}

proof fn lemma_about_news(
    user: UserView,
    user_ref: usize,
    event: EventView,
    approvals: Seq<ApprovalView>,
    turns: Seq<Turn>,
    cache: Option<CacheView>,
    k: int,
)
    requires
        0 <= k < handled(user, user_ref, event, approvals, turns, cache).exchanges.len(),
    ensures
        is_about_news(
            event,
            approvals,
            handled(user, user_ref, event, approvals, turns, cache).exchanges[k],
        ),
    decreases approvals.len(),
{
    if approvals.len() > 0 {
        let rest = approvals.drop_last();
        let before = handled(user, user_ref, event, rest, turns.drop_last(), cache);
        let after = handled(user, user_ref, event, approvals, turns, cache);
        if k < before.exchanges.len() {
            lemma_about_news(user, user_ref, event, rest, turns.drop_last(), cache, k);
            let i = choose|i: int|
                0 <= i < rest.len() && is_news(#[trigger] rest[i]) && after.exchanges[k].0
                    == question_about(event, rest[i]);
            assert(approvals[i] == rest[i]);
        } else {
            assert(approvals[approvals.len() - 1] == approvals.last());
        }
    }
}

/// Every message that is sent is what the script answered for an approval that is news; it is
/// not empty, and the filter of the user does not keep it back.
pub proof fn law_messages_are_news(
    user: UserView,
    user_ref: usize,
    event: EventView,
    approvals: Seq<ApprovalView>,
    turns: Seq<Turn>,
    cache: Option<CacheView>,
    k: int,
)
    requires
        turns.len() == approvals.len(),
        0 <= k < handled(user, user_ref, event, approvals, turns, cache).messages.len(),
    ensures
        ({
            let message = handled(user, user_ref, event, approvals, turns, cache).messages[k];
            &&& message.len() > 0
            &&& !filtered(user, message)
            &&& exists|i: int|
                0 <= i < approvals.len() && is_news(approvals[i]) && (#[trigger] turns[i]).answer
                    == message
        }),
    decreases approvals.len(),
{
    if approvals.len() > 0 {
        let rest = approvals.drop_last();
        let before = handled(user, user_ref, event, rest, turns.drop_last(), cache);
        let message = handled(user, user_ref, event, approvals, turns, cache).messages[k];
        if k < before.messages.len() {
            law_messages_are_news(user, user_ref, event, rest, turns.drop_last(), cache, k);
            let i = choose|i: int|
                0 <= i < rest.len() && is_news(rest[i]) && (
                #[trigger] turns.drop_last()[i]).answer == message;
            assert(turns[i] == turns.drop_last()[i]);
        } else {
            assert(turns[turns.len() - 1].answer == message);
        }
    }
}

/// News whose line is not remembered, or has expired, is told: the script is asked, and the
/// message is added to those before it unless the filter keeps it back or it is empty.
pub proof fn law_unremembered_news_is_told(
    user: UserView,
    user_ref: usize,
    event: EventView,
    approval: ApprovalView,
    turn: Turn,
    before: Progress,
)
    requires
        is_news(approval),
        before.cache matches Some(cache) ==> !cache.lines.skip(
            turn.expired_at_lookup as int,
        ).contains(line_of(user_ref, event, approval)),
    ensures
        ({
            let after = step(user, user_ref, event, approval, turn, before);
            let question = question_about(event, approval);
            &&& after.exchanges == before.exchanges.push((question, turn.answer))
            &&& after.messages == if filtered(user, turn.answer) || turn.answer.len() == 0 {
                before.messages
            } else {
                before.messages.push(turn.answer)
            }
        }),
{
}

/// News whose line is remembered is not told again, and its line counts as used.
pub proof fn law_remembered_news_is_not_told(
    user: UserView,
    user_ref: usize,
    event: EventView,
    approval: ApprovalView,
    turn: Turn,
    before: Progress,
)
    requires
        before.cache is Some,
        before.cache->0.hits(line_of(user_ref, event, approval), turn.expired_at_lookup),
    ensures
        ({
            let after = step(user, user_ref, event, approval, turn, before);
            &&& after.exchanges == before.exchanges
            &&& after.messages == before.messages
            &&& is_news(approval) ==> after.cache->0.lines.last() == line_of(
                user_ref,
                event,
                approval,
            )
        }),
{
}

/// Changes of one topic share their lines, whatever their subjects are.
pub proof fn law_a_topic_is_told_once(
    user_ref: usize,
    a: EventView,
    b: EventView,
    approval: ApprovalView,
)
    requires
        a.change.topic is Some,
        a.change.topic == b.change.topic,
        a.author == b.author,
    ensures
        line_of(user_ref, a, approval) == line_of(user_ref, b, approval),
{
}

} // verus!
