//! Laws on votes: which of them are worth a message, to whom it goes, what the script is asked, and
//! what is remembered.
use vstd::prelude::*;
use crate::bot::{Bot, BotView};
use crate::cache::{CacheView, LineView, MsgCacheLine};
use crate::gerrit::{approval_views, Approval, ApprovalView, Event, EventView};
use crate::laws::calls::is_reply;
use crate::laws::dialog::{is_run, law_a_run_tells, resumes, run_exchanges, Halt};
use crate::laws::notices::lemma_turns;
use crate::laws::replies::{all_stay, lemma_all_stay};
use crate::notify::{
    approval_is_news, approval_score, cache_line, can_note, can_tell, compose, handled, is_news,
    is_repeated, line_of, noted, notice, question, question_about, recipient, step, Notice,
    Progress, Question, Turn,
};
use crate::outside::{regex_is_valid, regex_matches};
use crate::pending::{can_begin, can_go_on, can_proceed, fresh, PendingView, StageView};
use crate::text::{joined, spelled_i32, texts};
use crate::update::{notice_task, outcome_of, resume, update, Action, Outcome, OutcomeView, TaskView};
use crate::users::{
    lemma_position, lemma_position_at, listens_at, position, user_views, User, UserView,
};

verus! {

/// Whether a vote is worth a message: it replaces another value, and is not zero.
pub open spec fn is_new_vote(vote: Approval) -> bool {
    &&& vote.old_value is Some
    &&& vote.old_value->0@ != vote.value@
    &&& vote.value@ != "0"@
}

/// The votes that are worth a message, in order.
pub open spec fn new_votes(votes: Seq<Approval>) -> Seq<Approval>
    decreases votes.len(),
{
    if votes.len() == 0 {
        Seq::empty()
    } else if is_new_vote(votes.last()) {
        new_votes(votes.drop_last()).push(votes.last())
    } else {
        new_votes(votes.drop_last())
    }
}

/// Whether the user `i` is told about `event`: there are votes by somebody other than the owner of
/// the change, and `i` is the first user with notifications on who has the address of the owner.
pub open spec fn is_addressee(users: Seq<User>, event: Event, i: int) -> bool {
    &&& event.approvals is Some
    &&& event.author is Some
    &&& event.author->0.username@ != event.change.owner.username@
    &&& event.change.owner.email is Some
    &&& 0 <= i < users.len()
    &&& users[i].enabled
    &&& users[i].email@ == event.change.owner.email->0@
    &&& forall|j: int|
        0 <= j < i && (#[trigger] users[j]).enabled ==> users[j].email@
            != event.change.owner.email->0@
}

/// Whether there is nobody to tell about `event`.
pub open spec fn has_no_addressee(users: Seq<User>, event: Event) -> bool {
    ||| event.approvals is None
    ||| event.author is None
    ||| event.author->0.username@ == event.change.owner.username@
    ||| event.change.owner.email is None
    ||| forall|j: int|
        0 <= j < users.len() && (#[trigger] users[j]).enabled ==> users[j].email@
            != event.change.owner.email->0@
}

/// Whether `question` asks about `vote`: each of its fields is what it is named for.
pub open spec fn asks_about(question: Question, event: Event, vote: Approval) -> bool {
    &&& question.approver@ == event.author->0.username@
    &&& question.comment is Some <==> event.comment is Some
    &&& event.comment is Some ==> question.comment->0@ == event.comment->0@
    &&& question.value == match spelled_i32(vote.value@) {
        Some(value) => value,
        None => 0,
    }
    &&& question.approval_type@ == vote.approval_type@
    &&& question.url@ == event.change.url@
    &&& question.subject@ == event.change.subject@
}

/// Whether the filter of a user keeps a text back.
pub open spec fn is_held_back(user: User, text: Seq<char>) -> bool {
    &&& user.filter is Some
    &&& user.filter->0.enabled
    &&& regex_is_valid(user.filter->0.regex@)
    &&& regex_matches(user.filter->0.regex@, text)
}

/// The answers of the script that are sent to a user, in order: those that are not empty and not
/// held back.
pub open spec fn sent_answers(user: User, answers: Seq<String>) -> Seq<Seq<char>>
    decreases answers.len(),
{
    if answers.len() == 0 {
        Seq::empty()
    } else {
        let earlier = sent_answers(user, answers.drop_last());
        if answers.last()@.len() > 0 && !is_held_back(user, answers.last()@) {
            earlier.push(answers.last()@)
        } else {
            earlier
        }
    }
}

/// A vote is news exactly if it replaces another value and is not zero.
pub proof fn law_news_replaces_a_value(vote: &Approval, r: bool)
    requires
        call_ensures(approval_is_news, (vote,), r),
    ensures
        r <==> vote.old_value is Some && vote.old_value->0@ != vote.value@ && vote.value@ != "0"@,
{
}

/// A vote counts as the number that it spells, and as zero if it spells none.
pub proof fn law_a_vote_counts_as_it_is_spelled(vote: &Approval, value: i32)
    requires
        call_ensures(approval_score, (vote,), value),
    ensures
        spelled_i32(vote.value@) matches Some(spelled) ==> value == spelled,
        spelled_i32(vote.value@) is None ==> value == 0,
{
}

/// Each field of a question is what it is named for.
pub proof fn law_a_question_says_what_it_names(event: &Event, vote: &Approval, asked: Question)
    requires
        event.author is Some,
        call_ensures(question, (event, vote), asked),
    ensures
        asked.approver@ == event.author->0.username@,
        asked.comment is Some <==> event.comment is Some,
        event.comment is Some ==> asked.comment->0@ == event.comment->0@,
        asked.value == match spelled_i32(vote.value@) {
            Some(value) => value,
            None => 0,
        },
        asked.approval_type@ == vote.approval_type@,
        asked.url@ == event.change.url@,
        asked.subject@ == event.change.subject@,
{
}

/// A line holds the user, the topic of the change, or its subject if there is none, the approver,
/// the type and the value of the vote.
pub proof fn law_a_line_holds_its_vote(
    user_ref: usize,
    event: &Event,
    vote: &Approval,
    line: MsgCacheLine,
)
    requires
        event.author is Some,
        call_ensures(cache_line, (user_ref, event, vote), line),
    ensures
        line.user_ref == user_ref,
        event.change.topic is Some ==> line.subject@ == event.change.topic->0@,
        event.change.topic is None ==> line.subject@ == event.change.subject@,
        line.approver@ == event.author->0.username@,
        line.approval_type@ == vote.approval_type@,
        line.approval_value@ == vote.value@,
{
}

/// Two votes share a line exactly if they agree in the user, in the topic, or in the subject if
/// there is no topic, in the approver, in the type and in the value.
pub proof fn law_votes_share_a_line(
    u: usize,
    a: EventView,
    p: ApprovalView,
    v: usize,
    b: EventView,
    q: ApprovalView,
)
    ensures
        line_of(u, a, p) == line_of(v, b, q) <==> {
            &&& u == v
            &&& (if a.change.topic is Some {
                a.change.topic->0
            } else {
                a.change.subject
            }) == (if b.change.topic is Some {
                b.change.topic->0
            } else {
                b.change.subject
            })
            &&& a.author->0.username == b.author->0.username
            &&& p.approval_type == q.approval_type
            &&& p.value == q.value
        },
{
}

/// An event has a recipient exactly if it has votes by somebody other than the owner of the change
/// and some user with notifications on has the address of the owner. It is then the first such
/// user.
pub proof fn law_the_first_listener_is_the_recipient(users: Seq<UserView>, event: EventView, i: int)
    ensures
        recipient(users, event) == Some(i) <==> {
            &&& event.approvals is Some
            &&& event.author is Some
            &&& event.author->0.username != event.change.owner.username
            &&& event.change.owner.email is Some
            &&& 0 <= i < users.len()
            &&& users[i].enabled
            &&& users[i].email == event.change.owner.email->0
            &&& forall|j: int|
                0 <= j < i && (#[trigger] users[j]).enabled ==> users[j].email
                    != event.change.owner.email->0
        },
        recipient(users, event) is Some <==> {
            &&& event.approvals is Some
            &&& event.author is Some
            &&& event.author->0.username != event.change.owner.username
            &&& event.change.owner.email is Some
            &&& exists|j: int|
                0 <= j < users.len() && (#[trigger] users[j]).enabled && users[j].email
                    == event.change.owner.email->0
        },
{
    if event.change.owner.email is Some {
        let email = event.change.owner.email->0;
        lemma_position(users, listens_at(email));
        if let Some(k) = position(users, listens_at(email)) {
            assert(listens_at(email)(users[k]));
            assert forall|j: int| 0 <= j < k && (#[trigger] users[j]).enabled implies users[j].email
                != email by {
                assert(!listens_at(email)(users[j]));
            }
        } else {
            assert forall|j: int| 0 <= j < users.len() && (
            #[trigger] users[j]).enabled implies users[j].email != email by {
                assert(!listens_at(email)(users[j]));
            }
        }
        if 0 <= i < users.len() && listens_at(email)(users[i]) && (forall|j: int|
            0 <= j < i && (#[trigger] users[j]).enabled ==> users[j].email != email) {
            assert forall|j: int| 0 <= j < i implies !listens_at(email)(#[trigger] users[j]) by {}
            lemma_position_at(users, listens_at(email), i);
        }
    }
}

proof fn lemma_addressee(users: Seq<User>, event: Event, i: int)
    requires
        is_addressee(users, event, i),
    ensures
        recipient(user_views(users), event@) == Some(i),
{
    let views = user_views(users);
    assert(views[i] == users[i]@);
    assert forall|j: int| 0 <= j < i && (#[trigger] views[j]).enabled implies views[j].email
        != event@.change.owner.email->0 by {
        assert(views[j] == users[j]@);
    }
    law_the_first_listener_is_the_recipient(views, event@, i);
}

/// Nothing is asked or told about an event that has nobody to tell, and nothing changes.
pub proof fn law_nobody_is_told(event: Event, bot: Bot, r: (Bot, Outcome))
    requires
        call_ensures(update, (Action::UpdateApprovals(event), bot), r),
        has_no_addressee(bot.users@, event),
    ensures
        r.1 matches Outcome::Done(task) && task is None,
        all_stay(bot.users@, r.0.users@),
        r.0@.cache == bot@.cache,
{
    let views = user_views(bot.users@);
    law_the_first_listener_is_the_recipient(views, event@, 0);
    assert(recipient(views, event@) is None) by {
        if recipient(views, event@) is Some {
            let j = choose|j: int|
                0 <= j < views.len() && (#[trigger] views[j]).enabled && views[j].email
                    == event@.change.owner.email->0;
            assert(views[j] == bot.users@[j]@);
        }
    }
    lemma_all_stay(bot.users@, r.0.users@);
}

/// Whether the controller gets from the result `k` to the next one with the answer that the script
/// gives there.
pub open spec fn is_resumed(
    results: Seq<(Bot, Outcome)>,
    answers: Seq<String>,
    k: int,
) -> bool {
    results[k].1 is Ask && call_ensures(
        resume,
        (results[k].0, results[k].1->Ask_0, answers[k]),
        results[k + 1],
    )
}

/// Whether `results` are what the controller gives, one after the other, when it is asked to handle
/// `event` and then told `answers`.
pub open spec fn is_session(
    event: Event,
    bot: Bot,
    results: Seq<(Bot, Outcome)>,
    answers: Seq<String>,
) -> bool {
    &&& results.len() == answers.len() + 1
    &&& call_ensures(update, (Action::UpdateApprovals(event), bot), results[0])
    &&& forall|k: int| 0 <= k < answers.len() ==> #[trigger] is_resumed(results, answers, k)
}

/// The halts of a session.
pub open spec fn halts_of(results: Seq<(Bot, Outcome)>) -> Seq<Halt> {
    results.map_values(|r: (Bot, Outcome)| Halt { bot: r.0@, outcome: r.1@ })
}

/// What the controller gives in a session is a run of it.
pub proof fn law_a_session_is_a_run(
    event: Event,
    bot: Bot,
    results: Seq<(Bot, Outcome)>,
    answers: Seq<String>,
)
    requires
        is_session(event, bot, results, answers),
    ensures
        is_run(event, bot@, halts_of(results), texts(answers)),
{
    assert forall|k: int| 0 <= k < texts(answers).len() implies #[trigger] resumes(
        halts_of(results),
        texts(answers),
        k,
    ) by {
        assert(is_resumed(results, answers, k));
    }
}

/// Without a memory, the script is asked exactly once about each vote that is worth a message, in
/// order, and then the owner of the change is sent its answers, with an empty line between each
/// two of them, but for those that are empty or held back by the filter. Nobody is sent anything
/// if no answer is left. The users stay.
pub proof fn law_all_new_votes_are_told(
    event: Event,
    bot: Bot,
    results: Seq<(Bot, Outcome)>,
    answers: Seq<String>,
    i: int,
    k: int,
)
    requires
        is_session(event, bot, results, answers),
        bot.msg_cache is None,
        is_addressee(bot.users@, event, i),
        0 <= k < results.len(),
    ensures
        ({
            let news = new_votes(event.approvals->0@);
            let user = bot.users@[i];
            let sent = sent_answers(user, answers.take(k));
            &&& k <= news.len()
            &&& k < news.len() ==> results[k].1 is Ask && asks_about(
                results[k].1->Ask_1,
                event,
                news[k],
            )
            &&& k == news.len() ==> results[k].1 is Done && if sent.len() == 0 {
                results[k].1->Done_0 is None
            } else {
                is_reply(
                    results[k].1->Done_0,
                    user.spark_person_id@,
                    joined(sent, "\n\n"@),
                    false,
                )
            }
        }),
        all_stay(bot.users@, results[k].0.users@),
        results[k].0.msg_cache is None,
{
    let votes = event.approvals->0@;
    lemma_session(event, bot, results, answers, i, k);
    lemma_all_stay(bot.users@, results[k].0.users@);
    if let Outcome::Ask(pending, _) = results[k].1 {
        lemma_new_vote_at(votes, pending.done as int);
    }
}

/// How a session without a memory stands at the result `k`.
spec fn stands_at(
    event: Event,
    bot: Bot,
    results: Seq<(Bot, Outcome)>,
    answers: Seq<String>,
    i: int,
    k: int,
) -> bool {
    let votes = event.approvals->0@;
    let messages = sent_answers(bot.users@[i], answers.take(k));
    &&& results[k].0@.users == bot@.users
    &&& results[k].0@.cache is None
    &&& match results[k].1 {
        Outcome::Ask(pending, question) => {
            &&& pending@.event == event@
            &&& pending@.user_ref == i
            &&& pending@.messages == messages
            &&& pending.done < votes.len()
            &&& is_new_vote(votes[pending.done as int])
            &&& new_votes(votes.take(pending.done as int)).len() == k
            &&& question@ == question_about(event@, votes[pending.done as int]@)
        },
        Outcome::Done(task) => {
            &&& new_votes(votes).len() == k
            &&& results[k].1@ == OutcomeView::Done(notice_task(notice(bot.users@[i]@, messages)))
        },
    }
}

proof fn lemma_session(
    event: Event,
    bot: Bot,
    results: Seq<(Bot, Outcome)>,
    answers: Seq<String>,
    i: int,
    k: int,
)
    requires
        is_session(event, bot, results, answers),
        bot.msg_cache is None,
        is_addressee(bot.users@, event, i),
        0 <= k < results.len(),
    ensures
        stands_at(event, bot, results, answers, i, k),
    decreases k,
{
    let votes = event.approvals->0@;
    let views = user_views(bot.users@);
    let user = bot.users@[i];
    assert(i <= usize::MAX) by {
        assert(bot.users@.len() == bot.users.len());
    }
    assert(views[i] == user@);
    lemma_addressee(bot.users@, event, i);
    assert(event@.approvals->0 == approval_views(votes));
    if k == 0 {
        let stage = choose|stage: StageView| #[trigger]
            can_begin(views, event@, None, stage, results[0].0@.cache) && results[0].1@
                == outcome_of(stage);
        let start = fresh(i as usize, event@);
        assert(votes.take(0) == Seq::<Approval>::empty());
        assert(answers.take(0) == Seq::<String>::empty());
        lemma_proceed_without_cache(views, start, votes, stage, results[0].0@.cache);
    } else {
        lemma_session(event, bot, results, answers, i, k - 1);
        assert(is_resumed(results, answers, k - 1));
        let before = results[k - 1];
        let pending = before.1->Ask_0;
        let answer = answers[k - 1];
        assert(answers.take(k).drop_last() == answers.take(k - 1));
        assert(answers.take(k).last() == answer);
        let next = pending@.answered(views[i], answer@);
        assert(next.messages == sent_answers(user, answers.take(k)));
        let stage = choose|stage: StageView| #[trigger]
            can_go_on(views, pending@, answer@, None, stage, results[k].0@.cache) && results[k].1@
                == outcome_of(stage);
        lemma_new_votes_take(votes, pending.done as int);
        lemma_proceed_without_cache(views, next, votes, stage, results[k].0@.cache);
    }
}

/// The vote after the first `n` ones is, if it is worth a message, the next of those that are.
proof fn lemma_new_votes_take(votes: Seq<Approval>, n: int)
    requires
        0 <= n < votes.len(),
    ensures
        new_votes(votes.take(n + 1)) == if is_new_vote(votes[n]) {
            new_votes(votes.take(n)).push(votes[n])
        } else {
            new_votes(votes.take(n))
        },
{
    assert(votes.take(n + 1).drop_last() == votes.take(n));
}

proof fn lemma_new_vote_at(votes: Seq<Approval>, n: int)
    requires
        0 <= n < votes.len(),
        is_new_vote(votes[n]),
    ensures
        ({
            let k = new_votes(votes.take(n)).len() as int;
            k < new_votes(votes).len() && new_votes(votes)[k] == votes[n]
        }),
    decreases votes.len(),
{
    let rest = votes.drop_last();
    if n < rest.len() {
        lemma_new_vote_at(rest, n);
        assert(rest.take(n) == votes.take(n));
    } else {
        assert(votes.take(n) == rest);
    }
}

/// Without a memory, the handling goes on to the next vote that is worth a message.
proof fn lemma_proceed_without_cache(
    users: Seq<UserView>,
    pending: PendingView,
    votes: Seq<Approval>,
    stage: StageView,
    cache_after: Option<CacheView>,
)
    requires
        pending.approvals() == approval_views(votes),
        pending.done <= votes.len(),
        can_proceed(users, pending, None, stage, cache_after),
    ensures
        cache_after is None,
        match stage {
            StageView::Told(told) => {
                &&& told == notice(users[pending.user_ref as int], pending.messages)
                &&& new_votes(votes).len() == new_votes(votes.take(pending.done as int)).len()
            },
            StageView::Ask(asked, question) => {
                &&& asked == (PendingView { done: asked.done, ..pending })
                &&& pending.done <= asked.done < votes.len()
                &&& is_new_vote(votes[asked.done as int])
                &&& new_votes(votes.take(asked.done as int)).len() == new_votes(
                    votes.take(pending.done as int),
                ).len()
                &&& question == question_about(pending.event, votes[asked.done as int]@)
            },
        },
    decreases votes.len() - pending.done,
{
    let n = pending.done as int;
    if n >= votes.len() {
        assert(votes.take(n) == votes);
    } else {
        assert(pending.approvals()[n] == votes[n]@);
        assert(is_news(votes[n]@) == is_new_vote(votes[n]));
        if !is_new_vote(votes[n]) {
            lemma_new_votes_take(votes, n);
            lemma_proceed_without_cache(users, pending.passed(), votes, stage, cache_after);
        }
    }
}

/// The line of a vote: the user, the topic of the change, or its subject if there is none, the
/// approver, the type and the value of the vote.
pub open spec fn vote_line(user_ref: usize, event: EventView, vote: ApprovalView) -> LineView {
    (
        user_ref,
        if event.change.topic is Some {
            event.change.topic->0
        } else {
            event.change.subject
        },
        event.author->0.username,
        vote.approval_type,
        vote.value,
    )
}

/// What becomes of the memory when a vote that is worth a message is handled. A line that is
/// remembered moves to the end. A new one comes to the end, and the oldest one makes room for it
/// if need be.
pub open spec fn is_noted(before: CacheView, line: LineView, turn: Turn, after: CacheView) -> bool {
    let kept = before.lines.skip(turn.expired_at_lookup as int);
    let room: int = if turn.expired_at_insert == 0 && kept.len() == before.capacity {
        1
    } else {
        turn.expired_at_insert as int
    };
    &&& after.capacity == before.capacity
    &&& after.expiration == before.expiration
    &&& after.lines == if kept.contains(line) {
        kept.remove_value(line).push(line)
    } else {
        kept.skip(room).push(line)
    }
}

/// How a vote is handled. A vote that is not worth a message changes nothing. For any other one the
/// line is remembered, whatever the answer, and if it was not remembered before, the script is
/// asked and the answer is added to the messages, unless it is empty or held back.
pub open spec fn is_vote_handled(
    user: UserView,
    user_ref: usize,
    event: EventView,
    vote: ApprovalView,
    turn: Turn,
    before: Progress,
    after: Progress,
) -> bool {
    let line = vote_line(user_ref, event, vote);
    let worth = vote.old_value is Some && vote.old_value->0 != vote.value && vote.value != "0"@;
    let known = before.cache is Some && before.cache->0.lines.skip(
        turn.expired_at_lookup as int,
    ).contains(line);
    let held_back = user.filter is Some && user.filter->0.enabled && regex_is_valid(
        user.filter->0.regex,
    ) && regex_matches(user.filter->0.regex, turn.answer);
    &&& !worth ==> after == before
    &&& worth ==> (after.cache is Some <==> before.cache is Some)
    &&& worth && before.cache is Some ==> is_noted(before.cache->0, line, turn, after.cache->0)
    &&& worth && known ==> after.exchanges == before.exchanges && after.messages == before.messages
    &&& worth && !known ==> {
        &&& after.exchanges.len() == before.exchanges.len() + 1
        &&& after.exchanges.drop_last() == before.exchanges
        &&& after.exchanges.last().0.approver == event.author->0.username
        &&& after.exchanges.last().0.comment == event.comment
        &&& after.exchanges.last().0.value == match spelled_i32(vote.value) {
            Some(value) => value,
            None => 0,
        }
        &&& after.exchanges.last().0.approval_type == vote.approval_type
        &&& after.exchanges.last().0.url == event.change.url
        &&& after.exchanges.last().0.subject == event.change.subject
        &&& after.exchanges.last().1 == turn.answer
        &&& after.messages == if held_back || turn.answer.len() == 0 {
            before.messages
        } else {
            before.messages.push(turn.answer)
        }
    }
}

/// A vote is handled as it is worth, and as its line is remembered.
pub proof fn law_a_vote_is_handled(
    user: UserView,
    user_ref: usize,
    event: EventView,
    vote: ApprovalView,
    turn: Turn,
    before: Progress,
)
    ensures
        is_vote_handled(
            user,
            user_ref,
            event,
            vote,
            turn,
            before,
            step(user, user_ref, event, vote, turn, before),
        ),
{
    let after = step(user, user_ref, event, vote, turn, before);
    if after.exchanges.len() == before.exchanges.len() + 1 {
        assert(after.exchanges.drop_last() == before.exchanges);
    }
}

/// The progress while the votes of an event are handled one after the other: it starts with nothing
/// asked and no message, and each vote is handled in its turn.
pub open spec fn are_votes_handled(
    user: UserView,
    user_ref: usize,
    event: EventView,
    turns: Seq<Turn>,
    cache: Option<CacheView>,
    states: Seq<Progress>,
) -> bool {
    &&& turns.len() == event.approvals->0.len()
    &&& states.len() == turns.len() + 1
    &&& states[0].cache == cache
    &&& states[0].exchanges.len() == 0
    &&& states[0].messages.len() == 0
    &&& forall|a: int|
        0 <= a < turns.len() ==> is_vote_handled(
            user,
            user_ref,
            event,
            event.approvals->0[a],
            #[trigger] turns[a],
            states[a],
            states[a + 1],
        )
}

/// The controller handles the votes of an event one after the other, with or without a memory, for
/// the first user with notifications on who has the address of the owner of the change. What it
/// asked, sends and remembers in the end is what came of all of them.
pub proof fn law_all_votes_are_handled(
    event: Event,
    before: BotView,
    halts: Seq<Halt>,
    answers: Seq<Seq<char>>,
    i: int,
)
    requires
        before.users.len() <= usize::MAX,
        is_run(event, before, halts, answers),
        halts.last().outcome is Done,
        event@.approvals is Some,
        event@.author is Some,
        event@.author->0.username != event@.change.owner.username,
        event@.change.owner.email is Some,
        0 <= i < before.users.len(),
        before.users[i].enabled,
        before.users[i].email == event@.change.owner.email->0,
        forall|j: int|
            0 <= j < i && (#[trigger] before.users[j]).enabled ==> before.users[j].email
                != event@.change.owner.email->0,
    ensures
        halts.last().bot.users == before.users,
        exists|turns: Seq<Turn>, states: Seq<Progress>|
            {
                &&& #[trigger] are_votes_handled(
                    before.users[i],
                    i as usize,
                    event@,
                    turns,
                    before.cache,
                    states,
                )
                &&& states.last().cache == halts.last().bot.cache
                &&& states.last().exchanges == run_exchanges(halts, answers)
                &&& states.last().messages.len() == 0 ==> halts.last().outcome
                    == OutcomeView::Done(None)
                &&& states.last().messages.len() > 0 ==> {
                    &&& halts.last().outcome matches OutcomeView::Done(Some(TaskView::Reply(r)))
                    &&& r.person_id == before.users[i].person_id
                    &&& r.message == joined(states.last().messages, "\n\n"@)
                }
            },
{
    let users = before.users;
    let user = users[i];
    let votes = event@.approvals->0;
    law_a_run_tells(event, before, halts, answers);
    law_the_first_listener_is_the_recipient(users, event@, i);
    let exchanges = run_exchanges(halts, answers);
    let cache_after = halts.last().bot.cache;
    let told = choose|told: Notice| #[trigger]
        can_tell(users, before.cache, event@, exchanges, told, cache_after)
            && halts.last().outcome == OutcomeView::Done(notice_task(told));
    let turns = lemma_turns(users, before.cache, event@, exchanges, told, cache_after);
    let states = Seq::new(
        turns.len() + 1,
        |a: int| handled(user, i as usize, event@, votes.take(a), turns.take(a), before.cache),
    );
    assert(votes.take(0) == Seq::<ApprovalView>::empty());
    assert(votes.take(votes.len() as int) == votes);
    assert(turns.take(votes.len() as int) == turns);
    assert forall|a: int| 0 <= a < turns.len() implies is_vote_handled(
        user,
        i as usize,
        event@,
        votes[a],
        #[trigger] turns[a],
        states[a],
        states[a + 1],
    ) by {
        assert(votes.take(a + 1).drop_last() == votes.take(a));
        assert(turns.take(a + 1).drop_last() == turns.take(a));
        law_a_vote_is_handled(user, i as usize, event@, votes[a], turns[a], states[a]);
    }
    assert(are_votes_handled(users[i], i as usize, event@, turns, before.cache, states));
}

/// The script is asked about a vote that is worth a message unless its line is remembered. The line
/// is then the most recently used one, and no other line is new. A vote that is not worth a message
/// changes nothing.
pub proof fn law_a_vote_is_asked_about(
    bot: &mut Bot,
    user_ref: usize,
    event: &Event,
    vote: &Approval,
    asked: Option<Question>,
)
    requires
        event.author is Some,
        old(bot)@.cache matches Some(before) ==> before.capacity > 0,
        call_ensures(Bot::ask_about, (bot, user_ref, event, vote), asked),
    ensures
        all_stay(old(bot).users@, final(bot).users@),
        asked is Some ==> is_new_vote(*vote) && asks_about(asked->0, *event, *vote),
        !is_new_vote(*vote) ==> final(bot)@.cache == old(bot)@.cache,
        is_new_vote(*vote) && old(bot)@.cache is None ==> asked is Some,
        old(bot)@.cache is None ==> final(bot)@.cache is None,
        is_new_vote(*vote) ==> (old(bot)@.cache matches Some(before) ==> {
            let line = vote_line(user_ref, event@, vote@);
            &&& !before.lines.contains(line) ==> asked is Some
            &&& before.lines.contains(line) && before.expiration.is_never() ==> asked is None
            &&& final(bot)@.cache matches Some(after)
            &&& after.lines.len() > 0
            &&& after.lines.last() == line
            &&& forall|l: LineView| #[trigger]
                after.lines.contains(l) ==> l == line || before.lines.contains(l)
        }),
{
    assert(user_views(old(bot).users@) == user_views(final(bot).users@));
    lemma_all_stay(old(bot).users@, final(bot).users@);
    assert(is_news(vote@) == is_new_vote(*vote));
    let line = vote_line(user_ref, event@, vote@);
    assert(line == line_of(user_ref, event@, vote@));
    if is_new_vote(*vote) {
        let turn = choose|turn: Turn|
            {
                &&& #[trigger] can_note(old(bot)@.cache, line, turn)
                &&& asked is None == is_repeated(old(bot)@.cache, line, turn)
                &&& final(bot)@.cache == noted(old(bot)@.cache, line, turn)
            };
        if let Some(before) = old(bot)@.cache {
            let e = turn.expired_at_lookup as int;
            let kept = before.lines.skip(e);
            let after = final(bot)@.cache->0;
            assert forall|l: LineView| kept.contains(l) implies before.lines.contains(l) by {
                let n = choose|n: int| 0 <= n < kept.len() && kept[n] == l;
                assert(before.lines[e + n] == l);
            }
            assert(before.lines.skip(0) == before.lines);
            assert forall|l: LineView| #[trigger] after.lines.contains(l) implies l == line
                || before.lines.contains(l) by {
                let n = choose|n: int| 0 <= n < after.lines.len() && after.lines[n] == l;
                if n < after.lines.len() - 1 {
                    if kept.contains(line) {
                        kept.index_of_first_ensures(line);
                        let first = kept.index_of_first(line)->0;
                        kept.remove_ensures(first);
                        if n < first {
                            assert(kept[n] == l);
                        } else {
                            assert(kept[n + 1] == l);
                        }
                    } else {
                        let dropped = kept.len() - (after.lines.len() - 1);
                        assert(kept[dropped + n] == l);
                    }
                    assert(kept.contains(l));
                }
            }
        }
    }
}

/// A new vote whose line is not remembered is asked about, even if other votes are remembered: the
/// first vote of an event that is worth a message is the first question.
pub proof fn law_an_unheard_vote_is_asked_about(
    event: Event,
    bot: Bot,
    r: (Bot, Outcome),
    i: int,
    a: int,
)
    requires
        call_ensures(update, (Action::UpdateApprovals(event), bot), r),
        is_addressee(bot.users@, event, i),
        0 <= a < event.approvals->0@.len(),
        is_new_vote(event.approvals->0@[a]),
        forall|b: int| 0 <= b < a ==> !is_new_vote(#[trigger] event.approvals->0@[b]),
        bot@.cache matches Some(cache) ==> !cache.lines.contains(
            vote_line(i as usize, event@, event.approvals->0@[a]@),
        ),
    ensures
        r.1 is Ask,
        asks_about(r.1->Ask_1, event, event.approvals->0@[a]),
        all_stay(bot.users@, r.0.users@),
{
    let views = user_views(bot.users@);
    let votes = event.approvals->0@;
    assert(bot.users@.len() == bot.users.len());
    lemma_addressee(bot.users@, event, i);
    lemma_all_stay(bot.users@, r.0.users@);
    let stage = choose|stage: StageView| #[trigger]
        can_begin(views, event@, bot@.cache, stage, r.0@.cache) && r.1@ == outcome_of(stage);
    let start = fresh(i as usize, event@);
    lemma_first_new_vote(views, start, votes, bot@.cache, stage, r.0@.cache, a);
}

proof fn lemma_first_new_vote(
    users: Seq<UserView>,
    pending: PendingView,
    votes: Seq<Approval>,
    cache: Option<CacheView>,
    stage: StageView,
    cache_after: Option<CacheView>,
    a: int,
)
    requires
        pending.event.approvals is Some,
        pending.approvals() == approval_views(votes),
        pending.done <= a < votes.len(),
        is_new_vote(votes[a]),
        forall|b: int| pending.done <= b < a ==> !is_new_vote(#[trigger] votes[b]),
        cache matches Some(cache) ==> !cache.lines.contains(
            vote_line(pending.user_ref, pending.event, votes[a]@),
        ),
        can_proceed(users, pending, cache, stage, cache_after),
    ensures
        stage matches StageView::Ask(_, question) && question == question_about(
            pending.event,
            votes[a]@,
        ),
    decreases a - pending.done,
{
    let n = pending.done as int;
    assert(pending.approvals()[n] == votes[n]@);
    assert(is_news(votes[n]@) == is_new_vote(votes[n]));
    if n < a {
        lemma_first_new_vote(users, pending.passed(), votes, cache, stage, cache_after, a);
    } else if let Some(known) = cache {
        let line = vote_line(pending.user_ref, pending.event, votes[a]@);
        assert forall|turn: Turn| #[trigger] can_note(cache, line, turn) implies !is_repeated(
            cache,
            line,
            turn,
        ) by {
            let e = turn.expired_at_lookup as int;
            if known.lines.skip(e).contains(line) {
                let kept = known.lines.skip(e);
                let m = choose|m: int| 0 <= m < kept.len() && kept[m] == line;
                assert(known.lines[e + m] == line);
            }
        }
    }
}

/// The messages of an event are put together with an empty line between each two of them, and
/// there is no text if there is no message.
pub proof fn law_messages_are_put_together(messages: &Vec<String>, text: Option<String>)
    requires
        call_ensures(compose, (messages,), text),
    ensures
        text is None <==> messages@.len() == 0,
        text is Some ==> text->0@ == joined(texts(messages@), "\n\n"@),
{
}

/// The memory is needed exactly for an event that has somebody to tell and a vote that is worth a
/// message.
pub proof fn law_the_memory_is_needed(bot: &Bot, event: &Event, r: bool)
    requires
        call_ensures(Bot::needs_cache, (bot, event), r),
    ensures
        has_no_addressee(bot.users@, *event) ==> !r,
        forall|i: int| #[trigger]
            is_addressee(bot.users@, *event, i) ==> (r <==> exists|a: int|
                0 <= a < event.approvals->0@.len() && is_new_vote(
                    #[trigger] event.approvals->0@[a],
                )),
{
    let views = user_views(bot.users@);
    if has_no_addressee(bot.users@, *event) {
        law_the_first_listener_is_the_recipient(views, event@, 0);
        if recipient(views, event@) is Some {
            let j = choose|j: int|
                0 <= j < views.len() && (#[trigger] views[j]).enabled && views[j].email
                    == event@.change.owner.email->0;
            assert(views[j] == bot.users@[j]@);
        }
    }
    assert forall|i: int| #[trigger] is_addressee(bot.users@, *event, i) implies (r
        <==> exists|a: int|
        0 <= a < event.approvals->0@.len() && is_new_vote(#[trigger] event.approvals->0@[a])) by {
        lemma_addressee(bot.users@, *event, i);
        let votes = event.approvals->0@;
        assert forall|a: int| 0 <= a < votes.len() implies is_news(
            #[trigger] event@.approvals->0[a],
        ) == is_new_vote(votes[a]) by {
            assert(event@.approvals->0[a] == votes[a]@);
        }
        if r {
            let a = choose|a: int|
                0 <= a < event@.approvals->0.len() && is_news(#[trigger] event@.approvals->0[a]);
            assert(is_new_vote(votes[a]));
        }
        if exists|a: int| 0 <= a < votes.len() && is_new_vote(#[trigger] votes[a]) {
            let a = choose|a: int| 0 <= a < votes.len() && is_new_vote(#[trigger] votes[a]);
            assert(is_news(event@.approvals->0[a]));
        }
    }
}

} // verus!
