//! Laws on the handling of an event that pauses for the answers of the formatting script.
use vstd::prelude::*;
use crate::bot::BotView;
use crate::cache::{same_limits, CacheView};
use crate::gerrit::{ApprovalView, Event, EventView};
use crate::laws::memory::{lemma_noted_wf, Telling};
use crate::laws::notices::{
    is_owner, law_the_owner_is_told, lemma_recipient_is_owner, lemma_turns,
};
use crate::notify::{
    can_happen, can_note, can_tell, can_unfold, handled, is_asked, is_news, is_repeated, line_of,
    noted, notice, question_about, recipient, step, Exchange, Notice, Progress, Turn,
};
use crate::pending::{can_begin, can_go_on, can_proceed, fresh, PendingView, StageView};
use crate::update::{
    can_resume, can_update, notice_task, outcome_of, Action, OutcomeView, TaskView,
};
use crate::users::UserView;

verus! {

/// Where the handling of an event stops: how far it got, and the cache then.
pub struct Stop {
    pub stage: StageView,
    pub cache: Option<CacheView>,
}

/// Whether the handling of an event can get from the stop `i` to the next one with the answer
/// that the script gives there.
pub open spec fn leads_on(
    users: Seq<UserView>,
    stops: Seq<Stop>,
    answers: Seq<Seq<char>>,
    i: int,
) -> bool {
    stops[i].stage is Ask && can_go_on(
        users,
        stops[i].stage->Ask_0,
        answers[i],
        stops[i].cache,
        stops[i + 1].stage,
        stops[i + 1].cache,
    )
}

/// Whether the handling of an event can get from each of `stops` to the next when the script
/// answers `answers`, one at each stop but the last.
pub open spec fn goes_on(
    users: Seq<UserView>,
    stops: Seq<Stop>,
    answers: Seq<Seq<char>>,
) -> bool {
    &&& stops.len() == answers.len() + 1
    &&& forall|i: int| 0 <= i < answers.len() ==> #[trigger] leads_on(users, stops, answers, i)
}

/// Whether the handling of `event` can make `stops` when the script answers `answers`.
pub open spec fn is_dialog(
    users: Seq<UserView>,
    event: EventView,
    cache: Option<CacheView>,
    stops: Seq<Stop>,
    answers: Seq<Seq<char>>,
) -> bool {
    &&& can_begin(users, event, cache, stops[0].stage, stops[0].cache)
    &&& goes_on(users, stops, answers)
}

/// What the script was asked at each stop, and answered.
pub open spec fn exchanges_of(stops: Seq<Stop>, answers: Seq<Seq<char>>) -> Seq<Exchange> {
    Seq::new(answers.len(), |i: int| (stops[i].stage->Ask_1, answers[i]))
}

/// Whatever comes of an event whose handling pauses for the script is what can come of it as a
/// whole, with the questions and answers in between.
pub proof fn law_a_dialog_tells(
    users: Seq<UserView>,
    event: EventView,
    cache: Option<CacheView>,
    stops: Seq<Stop>,
    answers: Seq<Seq<char>>,
)
    requires
        users.len() <= usize::MAX,
        is_dialog(users, event, cache, stops, answers),
        stops.last().stage is Told,
    ensures
        can_tell(
            users,
            cache,
            event,
            exchanges_of(stops, answers),
            stops.last().stage->Told_0,
            stops.last().cache,
        ),
{
    let exchanges = exchanges_of(stops, answers);
    match recipient(users, event) {
        None => {
            assert(answers.len() > 0 ==> leads_on(users, stops, answers, 0));
            assert(exchanges.len() == 0);
        },
        Some(pos) => {
            let turns = lemma_dialog(users, event, cache, stops, answers, Seq::empty());
            let approvals = event.approvals->0;
            assert(approvals.take(approvals.len() as int) == approvals);
            assert(can_unfold(users[pos], pos as usize, event, event.approvals->0, turns, cache));
        },
    }
}

/// The handling of an event ends: there are at most as many questions as approvals.
pub proof fn law_a_dialog_ends(
    users: Seq<UserView>,
    event: EventView,
    cache: Option<CacheView>,
    stops: Seq<Stop>,
    answers: Seq<Seq<char>>,
)
    requires
        users.len() <= usize::MAX,
        is_dialog(users, event, cache, stops, answers),
    ensures
        stops.len() <= 1 + match event.approvals {
            Some(approvals) => approvals.len(),
            None => 0,
        },
        stops.last().stage is Ask ==> event.approvals is Some && stops.len()
            <= event.approvals->0.len(),
{
    if recipient(users, event) is Some {
        let _ = lemma_dialog(users, event, cache, stops, answers, Seq::empty());
    } else {
        assert(answers.len() > 0 ==> leads_on(users, stops, answers, 0));
    }
}

/// Whether the handling of `event` has come to `pending` by `turns`, with `exchanges`.
pub(crate) open spec fn comes_to(
    users: Seq<UserView>,
    event: EventView,
    cache: Option<CacheView>,
    turns: Seq<Turn>,
    exchanges: Seq<Exchange>,
    pending: PendingView,
    cache_now: Option<CacheView>,
) -> bool {
    let done = event.approvals->0.take(pending.done as int);
    let user = users[pending.user_ref as int];
    &&& pending.event == event
    &&& recipient(users, event) == Some(pending.user_ref as int)
    &&& pending.done <= event.approvals->0.len()
    &&& exchanges.len() <= pending.done
    &&& can_unfold(user, pending.user_ref, event, done, turns, cache)
    &&& handled(user, pending.user_ref, event, done, turns, cache) == (Progress {
        cache: cache_now,
        exchanges: exchanges,
        messages: pending.messages,
    })
}

/// One more approval was handled.
proof fn lemma_come_further(
    users: Seq<UserView>,
    event: EventView,
    cache: Option<CacheView>,
    turns: Seq<Turn>,
    before: Progress,
    pending: PendingView,
    turn: Turn,
    after: Progress,
    next: PendingView,
)
    requires
        comes_to(users, event, cache, turns, before.exchanges, pending, before.cache),
        pending.messages == before.messages,
        pending.done < event.approvals->0.len(),
        can_happen(
            pending.user_ref,
            event,
            event.approvals->0[pending.done as int],
            turn,
            before,
        ),
        after == step(
            users[pending.user_ref as int],
            pending.user_ref,
            event,
            event.approvals->0[pending.done as int],
            turn,
            before,
        ),
        next == (PendingView { messages: after.messages, ..pending.passed() }),
    ensures
        comes_to(users, event, cache, turns.push(turn), after.exchanges, next, after.cache),
{
    let more = event.approvals->0.take(pending.done as int + 1);
    assert(more.drop_last() == event.approvals->0.take(pending.done as int));
    assert(turns.push(turn).drop_last() == turns);
}

/// What the handling of `event` is by `turns`.
pub(crate) open spec fn telling_by(
    users: Seq<UserView>,
    user_ref: usize,
    event: EventView,
    turns: Seq<Turn>,
) -> Telling {
    Telling { user: users[user_ref as int], user_ref: user_ref, event: event, turns: turns }
}

/// Whether the approval that is asked about at `stop` is asked about by `turns`.
pub(crate) open spec fn is_asked_by(
    users: Seq<UserView>,
    event: EventView,
    cache: Option<CacheView>,
    turns: Seq<Turn>,
    stop: Stop,
) -> bool {
    let asked = stop.stage->Ask_0;
    &&& asked.event == event
    &&& recipient(users, event) == Some(asked.user_ref as int)
    &&& asked.done < turns.len()
    &&& telling_by(users, asked.user_ref, event, turns).asks(asked.done as int, cache)
}

/// What was asked about by the first turns stays so.
proof fn lemma_still_asked(
    users: Seq<UserView>,
    event: EventView,
    cache: Option<CacheView>,
    turns: Seq<Turn>,
    more: Seq<Turn>,
    stop: Stop,
)
    requires
        is_asked_by(users, event, cache, turns, stop),
        turns.len() <= more.len(),
        more.take(turns.len() as int) == turns,
    ensures
        is_asked_by(users, event, cache, more, stop),
{
    let a = stop.stage->Ask_0.done as int;
    assert(more.take(a) == turns.take(a));
    assert(more[a] == turns[a]);
}

/// The turns by which a handling that has come to `pending` gets to `stop`; if the script is asked
/// there, it gives `answer`.
proof fn lemma_proceed(
    users: Seq<UserView>,
    event: EventView,
    cache: Option<CacheView>,
    turns: Seq<Turn>,
    exchanges: Seq<Exchange>,
    pending: PendingView,
    cache_now: Option<CacheView>,
    stop: Stop,
    answer: Seq<char>,
) -> (more: Seq<Turn>)
    requires
        comes_to(users, event, cache, turns, exchanges, pending, cache_now),
        can_proceed(users, pending, cache_now, stop.stage, stop.cache),
    ensures
        turns.len() <= more.len(),
        more.take(turns.len() as int) == turns,
        stop.stage matches StageView::Told(told) ==> {
            let end = PendingView { done: event.approvals->0.len(), ..pending };
            &&& comes_to(users, event, cache, more, exchanges, end, stop.cache)
            &&& told == notice(users[pending.user_ref as int], pending.messages)
        },
        stop.stage matches StageView::Ask(asked, question) ==> {
            &&& pending.done <= asked.done < event.approvals->0.len()
            &&& is_asked_by(users, event, cache, more, stop)
            &&& comes_to(
                users,
                event,
                cache,
                more,
                exchanges.push((question, answer)),
                asked.answered(users[asked.user_ref as int], answer),
                stop.cache,
            )
        },
    decreases event.approvals->0.len() - pending.done,
{
    let approvals = event.approvals->0;
    let user = users[pending.user_ref as int];
    let before = Progress { cache: cache_now, exchanges: exchanges, messages: pending.messages };
    assert(turns.len() == pending.done);
    if pending.done >= approvals.len() {
        assert(turns.take(turns.len() as int) == turns);
        turns
    } else {
        let approval = approvals[pending.done as int];
        let line = line_of(pending.user_ref, event, approval);
        let turn = if is_news(approval) {
            choose|turn: Turn| #[trigger]
                can_note(cache_now, line, turn) && if is_repeated(cache_now, line, turn) {
                    can_proceed(
                        users,
                        pending.passed(),
                        noted(cache_now, line, turn),
                        stop.stage,
                        stop.cache,
                    )
                } else {
                    &&& stop.stage == StageView::Ask(
                        pending,
                        question_about(pending.event, approval),
                    )
                    &&& stop.cache == noted(cache_now, line, turn)
                }
        } else {
            Turn { expired_at_lookup: 0, expired_at_insert: 0, answer: answer }
        };
        let turn = Turn { answer: answer, ..turn };
        assert(is_news(approval) ==> can_note(cache_now, line, turn));
        let after = step(user, pending.user_ref, event, approval, turn, before);
        let next = PendingView { messages: after.messages, ..pending.passed() };
        lemma_come_further(users, event, cache, turns, before, pending, turn, after, next);
        assert(turns.push(turn).take(turns.len() as int) == turns);
        if is_asked(pending.user_ref, event, approval, cache_now, turn) {
            assert(next == pending.answered(user, answer));
            turns.push(turn)
        } else {
            assert(next == pending.passed());
            let more = lemma_proceed(
                users,
                event,
                cache,
                turns.push(turn),
                exchanges,
                next,
                after.cache,
                stop,
                answer,
            );
            let n = turns.len() as int;
            assert(more.take(n) == more.take(n + 1).take(n));
            more
        }
    }
}

/// The turns by which a dialog was held; if the script is asked at its last stop, it gives
/// `answer`.
pub(crate) proof fn lemma_dialog(
    users: Seq<UserView>,
    event: EventView,
    cache: Option<CacheView>,
    stops: Seq<Stop>,
    answers: Seq<Seq<char>>,
    answer: Seq<char>,
) -> (turns: Seq<Turn>)
    requires
        users.len() <= usize::MAX,
        is_dialog(users, event, cache, stops, answers),
        recipient(users, event) is Some,
    ensures
        forall|k: int|
            0 <= k < stops.len() && (#[trigger] stops[k]).stage is Ask ==> is_asked_by(
                users,
                event,
                cache,
                turns,
                stops[k],
            ),
        forall|k: int, l: int|
            0 <= k < l < stops.len() && (#[trigger] stops[l]).stage is Ask ==> (
            #[trigger] stops[k]).stage->Ask_0.done < stops[l].stage->Ask_0.done,
        answers.len() <= event.approvals->0.len(),
        stops.last().stage matches StageView::Told(told) ==> exists|end: PendingView|
            {
                &&& #[trigger] comes_to(
                    users,
                    event,
                    cache,
                    turns,
                    exchanges_of(stops, answers),
                    end,
                    stops.last().cache,
                )
                &&& end.done == event.approvals->0.len()
                &&& told == notice(users[end.user_ref as int], end.messages)
            },
        stops.last().stage matches StageView::Ask(asked, question) ==> {
            &&& answers.len() < event.approvals->0.len()
            &&& comes_to(
                users,
                event,
                cache,
                turns,
                exchanges_of(stops, answers).push((question, answer)),
                asked.answered(users[asked.user_ref as int], answer),
                stops.last().cache,
            )
        },
    decreases answers.len(),
{
    let exchanges = exchanges_of(stops, answers);
    if answers.len() == 0 {
        assert(exchanges == Seq::<Exchange>::empty());
        let pos = recipient(users, event)->0;
        let start = fresh(pos as usize, event);
        let none = Seq::<Turn>::empty();
        lemma_recipient_is_owner(users, event);
        assert(event.approvals->0.take(0) == Seq::<ApprovalView>::empty());
        assert(comes_to(users, event, cache, none, exchanges, start, cache));
        lemma_proceed(users, event, cache, none, exchanges, start, cache, stops.last(), answer)
    } else {
        let n = answers.len() - 1;
        let earlier = stops.drop_last();
        let earlier_answers = answers.drop_last();
        assert forall|i: int| 0 <= i < earlier_answers.len() implies #[trigger] leads_on(
            users,
            earlier,
            earlier_answers,
            i,
        ) by {
            assert(leads_on(users, stops, answers, i));
        }
        assert(leads_on(users, stops, answers, n));
        let turns = lemma_dialog(users, event, cache, earlier, earlier_answers, answers[n]);
        let last = stops[n];
        assert(last == earlier.last());
        let asked = last.stage->Ask_0;
        let next = asked.answered(users[asked.user_ref as int], answers[n]);
        let exchange = (last.stage->Ask_1, answers[n]);
        assert(exchanges_of(earlier, earlier_answers).push(exchange) == exchanges);
        let more = lemma_proceed(
            users,
            event,
            cache,
            turns,
            exchanges,
            next,
            last.cache,
            stops.last(),
            answer,
        );
        assert forall|k: int|
            0 <= k < stops.len() && (#[trigger] stops[k]).stage is Ask implies is_asked_by(
            users,
            event,
            cache,
            more,
            stops[k],
        ) by {
            if k <= n {
                assert(earlier[k] == stops[k]);
                lemma_still_asked(users, event, cache, turns, more, stops[k]);
            }
        }
        assert forall|k: int, l: int|
            0 <= k < l < stops.len() && (#[trigger] stops[l]).stage is Ask implies (
        #[trigger] stops[k]).stage->Ask_0.done < stops[l].stage->Ask_0.done by {
            assert(earlier[k] == stops[k]);
            if l <= n {
                assert(earlier[l] == stops[l]);
            } else if k < n {
                assert(earlier[n] == stops[n]);
            }
        }
        more
    }
}

/// Whatever can come of an event as a whole comes of it in a dialog with the same questions and
/// answers.
pub proof fn law_a_dialog_can_tell_it(
    users: Seq<UserView>,
    cache: Option<CacheView>,
    event: EventView,
    exchanges: Seq<Exchange>,
    told: Notice,
    cache_after: Option<CacheView>,
)
    requires
        users.len() <= usize::MAX,
        can_tell(users, cache, event, exchanges, told, cache_after),
    ensures
        exists|stops: Seq<Stop>, answers: Seq<Seq<char>>|
            {
                &&& #[trigger] is_dialog(users, event, cache, stops, answers)
                &&& exchanges_of(stops, answers) == exchanges
                &&& stops.last() == (Stop { stage: StageView::Told(told), cache: cache_after })
            },
{
    let end = Stop { stage: StageView::Told(told), cache: cache_after };
    match recipient(users, event) {
        None => {
            let answers = Seq::<Seq<char>>::empty();
            assert(is_dialog(users, event, cache, seq![end], answers));
            assert(exchanges_of(seq![end], answers) == exchanges);
        },
        Some(pos) => {
            let turns = lemma_turns(users, cache, event, exchanges, told, cache_after);
            lemma_recipient_is_owner(users, event);
            let approvals = event.approvals->0;
            assert(approvals.take(approvals.len() as int) == approvals);
            assert(turns.take(approvals.len() as int) == turns);
            let (stops, answers) = lemma_dialog_from(
                users,
                pos as usize,
                event,
                turns,
                cache,
                0,
            );
            assert(came_to(users, pos as usize, event, turns, cache, 0) == fresh(
                pos as usize,
                event,
            ));
            assert(is_dialog(users, event, cache, stops, answers));
            assert(Seq::<Exchange>::empty() + exchanges_of(stops, answers) == exchanges_of(
                stops,
                answers,
            ));
        },
    }
}

/// The progress after the first `n` approvals of `event` were handled.
spec fn progress_at(
    users: Seq<UserView>,
    user_ref: usize,
    event: EventView,
    turns: Seq<Turn>,
    cache: Option<CacheView>,
    n: int,
) -> Progress {
    handled(
        users[user_ref as int],
        user_ref,
        event,
        event.approvals->0.take(n),
        turns.take(n),
        cache,
    )
}

/// Where the handling of `event` is after the first `n` approvals.
spec fn came_to(
    users: Seq<UserView>,
    user_ref: usize,
    event: EventView,
    turns: Seq<Turn>,
    cache: Option<CacheView>,
    n: int,
) -> PendingView {
    PendingView {
        user_ref: user_ref,
        event: event,
        done: n as nat,
        messages: progress_at(users, user_ref, event, turns, cache, n).messages,
    }
}

/// The dialog about the approvals from `n` on.
proof fn lemma_dialog_from(
    users: Seq<UserView>,
    user_ref: usize,
    event: EventView,
    turns: Seq<Turn>,
    cache: Option<CacheView>,
    n: int,
) -> (r: (Seq<Stop>, Seq<Seq<char>>))
    requires
        0 <= n <= event.approvals->0.len(),
        can_unfold(
            users[user_ref as int],
            user_ref,
            event,
            event.approvals->0,
            turns,
            cache,
        ),
    ensures
        ({
            let (stops, answers) = r;
            let len = event.approvals->0.len() as int;
            let before = progress_at(users, user_ref, event, turns, cache, n);
            let after = progress_at(users, user_ref, event, turns, cache, len);
            let pending = came_to(users, user_ref, event, turns, cache, n);
            let told = notice(users[user_ref as int], after.messages);
            &&& goes_on(users, stops, answers)
            &&& can_proceed(users, pending, before.cache, stops[0].stage, stops[0].cache)
            &&& stops.last() == (Stop { stage: StageView::Told(told), cache: after.cache })
            &&& after.exchanges == before.exchanges + exchanges_of(stops, answers)
        }),
    decreases event.approvals->0.len() - n,
{
    let user = users[user_ref as int];
    let approvals = event.approvals->0;
    let len = approvals.len() as int;
    let before = progress_at(users, user_ref, event, turns, cache, n);
    let after = progress_at(users, user_ref, event, turns, cache, len);
    let pending = came_to(users, user_ref, event, turns, cache, n);
    let told = notice(user, after.messages);
    if n == len {
        let end = Stop { stage: StageView::Told(told), cache: after.cache };
        let answers = Seq::<Seq<char>>::empty();
        assert(before.exchanges + exchanges_of(seq![end], answers) == after.exchanges);
        (seq![end], answers)
    } else {
        let approval = approvals[n];
        let turn = turns[n];
        let line = line_of(user_ref, event, approval);
        lemma_unfolds_at(user, user_ref, event, approvals, turns, cache, n);
        let next = progress_at(users, user_ref, event, turns, cache, n + 1);
        assert(next == step(user, user_ref, event, approval, turn, before)) by {
            assert(approvals.take(n + 1).drop_last() == approvals.take(n));
            assert(turns.take(n + 1).drop_last() == turns.take(n));
        }
        let (stops, answers) = lemma_dialog_from(users, user_ref, event, turns, cache, n + 1);
        if is_asked(user_ref, event, approval, before.cache, turn) {
            let question = question_about(event, approval);
            let stop = Stop { stage: StageView::Ask(pending, question), cache: next.cache };
            let all_stops = seq![stop] + stops;
            let all_answers = seq![turn.answer] + answers;
            assert(can_note(before.cache, line, turn));
            assert(pending.answered(user, turn.answer) == came_to(
                users,
                user_ref,
                event,
                turns,
                cache,
                n + 1,
            ));
            assert forall|i: int| 0 <= i < all_answers.len() implies #[trigger] leads_on(
                users,
                all_stops,
                all_answers,
                i,
            ) by {
                if i > 0 {
                    assert(leads_on(users, stops, answers, i - 1));
                }
            }
            assert(all_stops.last() == stops.last());
            assert(exchanges_of(all_stops, all_answers) == seq![(question, turn.answer)]
                + exchanges_of(stops, answers)) by {
                assert forall|i: int| 0 <= i < all_answers.len() implies exchanges_of(
                    all_stops,
                    all_answers,
                )[i] == (seq![(question, turn.answer)] + exchanges_of(stops, answers))[i] by {
                    if i > 0 {
                        assert(all_stops[i] == stops[i - 1]);
                        assert(all_answers[i] == answers[i - 1]);
                    }
                }
            }
            assert(after.exchanges == before.exchanges + exchanges_of(all_stops, all_answers));
            (all_stops, all_answers)
        } else {
            assert(pending.passed() == came_to(users, user_ref, event, turns, cache, n + 1));
            if is_news(approval) {
                assert(can_note(before.cache, line, turn));
            }
            (stops, answers)
        }
    }
}

/// Each turn can happen when it comes.
pub(crate) proof fn lemma_unfolds_at(
    user: UserView,
    user_ref: usize,
    event: EventView,
    approvals: Seq<ApprovalView>,
    turns: Seq<Turn>,
    cache: Option<CacheView>,
    n: int,
)
    requires
        can_unfold(user, user_ref, event, approvals, turns, cache),
        0 <= n < approvals.len(),
    ensures
        turns.len() == approvals.len(),
        can_unfold(user, user_ref, event, approvals.take(n), turns.take(n), cache),
        can_happen(
            user_ref,
            event,
            approvals[n],
            turns[n],
            handled(user, user_ref, event, approvals.take(n), turns.take(n), cache),
        ),
    decreases approvals.len(),
{
    let rest = approvals.drop_last();
    if n < rest.len() {
        lemma_unfolds_at(user, user_ref, event, rest, turns.drop_last(), cache, n);
        assert(rest.take(n) == approvals.take(n));
        assert(turns.drop_last().take(n) == turns.take(n));
    } else {
        assert(approvals.take(n) == rest);
        assert(turns.take(n) == turns.drop_last());
    }
}

/// Where the controller stops: the state of the bot, and what came of the action.
pub struct Halt {
    pub bot: BotView,
    pub outcome: OutcomeView,
}

/// Whether the controller can get from the halt `i` to the next one with the answer that the
/// script gives there.
pub open spec fn resumes(halts: Seq<Halt>, answers: Seq<Seq<char>>, i: int) -> bool {
    halts[i].outcome is Ask && can_resume(
        halts[i].outcome->Ask_0,
        answers[i],
        halts[i].bot,
        halts[i + 1].bot,
        halts[i + 1].outcome,
    )
}

/// Whether the controller, asked to handle `event`, can make `halts` when the script answers
/// `answers`, one after each halt but the last.
pub open spec fn is_run(
    event: Event,
    before: BotView,
    halts: Seq<Halt>,
    answers: Seq<Seq<char>>,
) -> bool {
    &&& halts.len() == answers.len() + 1
    &&& can_update(Action::UpdateApprovals(event), before, halts[0].bot, halts[0].outcome)
    &&& forall|i: int| 0 <= i < answers.len() ==> #[trigger] resumes(halts, answers, i)
}

/// What the script was asked at each halt, and answered.
pub open spec fn run_exchanges(halts: Seq<Halt>, answers: Seq<Seq<char>>) -> Seq<Exchange> {
    Seq::new(answers.len(), |i: int| (halts[i].outcome->Ask_1, answers[i]))
}

/// Whether the controller's `halts` are the stops of a dialog: the caches are the same, the script
/// is asked the same, and what comes of the event is the outcome of the last stop.
pub open spec fn halts_at(halts: Seq<Halt>, stops: Seq<Stop>) -> bool {
    stops.len() == halts.len() && forall|i: int|
        0 <= i < halts.len() ==> (#[trigger] stops[i]).cache == halts[i].bot.cache && outcome_of(
            stops[i].stage,
        ) == halts[i].outcome
}

/// The controller handles an event in a dialog, and leaves the users as they are.
pub proof fn law_a_run_is_a_dialog(
    event: Event,
    before: BotView,
    halts: Seq<Halt>,
    answers: Seq<Seq<char>>,
)
    requires
        is_run(event, before, halts, answers),
    ensures
        forall|i: int| 0 <= i < halts.len() ==> (#[trigger] halts[i]).bot.users == before.users,
        exists|stops: Seq<Stop>| #[trigger]
            is_dialog(before.users, event@, before.cache, stops, answers) && halts_at(halts, stops),
{
    let users = before.users;
    assert forall|i: int| 0 <= i < halts.len() implies (#[trigger] halts[i]).bot.users
        == before.users by {
        lemma_run_keeps_users(event, before, halts, answers, i);
    }
    let stops = Seq::new(
        halts.len(),
        |i: int|
            Stop {
                stage: stage_at(event, before, halts, answers, i),
                cache: halts[i].bot.cache,
            },
    );
    assert(halts[0].bot.users == users);
    assert(can_begin(users, event@, before.cache, stops[0].stage, stops[0].cache));
    assert forall|i: int| 0 <= i < halts.len() implies (#[trigger] stops[i]).cache
        == halts[i].bot.cache && outcome_of(stops[i].stage) == halts[i].outcome by {
        assert(i > 0 ==> resumes(halts, answers, i - 1));
    }
    assert forall|i: int| 0 <= i < answers.len() implies #[trigger] leads_on(
        users,
        stops,
        answers,
        i,
    ) by {
        assert(resumes(halts, answers, i));
        assert(outcome_of(stops[i].stage) == halts[i].outcome);
        assert(halts[i].bot.users == users);
    }
    assert(is_dialog(users, event@, before.cache, stops, answers));
}

/// The stage to which the handling of the event got at the halt `i`.
spec fn stage_at(
    event: Event,
    before: BotView,
    halts: Seq<Halt>,
    answers: Seq<Seq<char>>,
    i: int,
) -> StageView {
    if i == 0 {
        choose|stage: StageView| #[trigger]
            can_begin(before.users, event@, before.cache, stage, halts[0].bot.cache)
                && halts[0].outcome == outcome_of(stage)
    } else {
        choose|stage: StageView| #[trigger]
            can_go_on(
                halts[i - 1].bot.users,
                halts[i - 1].outcome->Ask_0,
                answers[i - 1],
                halts[i - 1].bot.cache,
                stage,
                halts[i].bot.cache,
            ) && halts[i].outcome == outcome_of(stage)
    }
}

/// The controller answers an event with the task to tell what can come of the event, and leaves
/// the users as they are.
pub proof fn law_a_run_tells(
    event: Event,
    before: BotView,
    halts: Seq<Halt>,
    answers: Seq<Seq<char>>,
)
    requires
        before.users.len() <= usize::MAX,
        is_run(event, before, halts, answers),
        halts.last().outcome is Done,
    ensures
        halts.last().bot.users == before.users,
        exists|told: Notice| #[trigger]
            can_tell(
                before.users,
                before.cache,
                event@,
                run_exchanges(halts, answers),
                told,
                halts.last().bot.cache,
            ) && halts.last().outcome == OutcomeView::Done(notice_task(told)),
{
    law_a_run_is_a_dialog(event, before, halts, answers);
    let stops = choose|stops: Seq<Stop>| #[trigger]
        is_dialog(before.users, event@, before.cache, stops, answers) && halts_at(halts, stops);
    assert(stops[stops.len() - 1] == stops.last());
    assert(halts[halts.len() - 1] == halts.last());
    assert forall|i: int| 0 <= i < answers.len() implies exchanges_of(stops, answers)[i]
        == #[trigger] run_exchanges(halts, answers)[i] by {
        assert(resumes(halts, answers, i));
        assert(outcome_of(stops[i].stage) == halts[i].outcome);
    }
    assert(exchanges_of(stops, answers) == run_exchanges(halts, answers));
    law_a_dialog_tells(before.users, event@, before.cache, stops, answers);
}

proof fn lemma_run_keeps_users(
    event: Event,
    before: BotView,
    halts: Seq<Halt>,
    answers: Seq<Seq<char>>,
    i: int,
)
    requires
        is_run(event, before, halts, answers),
        0 <= i < halts.len(),
    ensures
        halts[i].bot.users == before.users,
    decreases i,
{
    if i > 0 {
        lemma_run_keeps_users(event, before, halts, answers, i - 1);
        assert(resumes(halts, answers, i - 1));
    }
}

/// The task that comes of an event is a reply to the owner of the change.
pub proof fn law_a_notice_is_a_reply_to_the_owner(
    event: Event,
    before: BotView,
    halts: Seq<Halt>,
    answers: Seq<Seq<char>>,
    task: TaskView,
)
    requires
        before.users.len() <= usize::MAX,
        is_run(event, before, halts, answers),
        halts.last().outcome == OutcomeView::Done(Some(task)),
    ensures
        task is Reply,
        exists|user: UserView| #[trigger]
            is_owner(before.users, event@, user) && user.person_id == task->Reply_0.person_id,
{
    law_a_run_tells(event, before, halts, answers);
    let exchanges = run_exchanges(halts, answers);
    let cache_after = halts.last().bot.cache;
    let told = choose|told: Notice| #[trigger]
        can_tell(before.users, before.cache, event@, exchanges, told, cache_after)
            && OutcomeView::Done(Some(task)) == OutcomeView::Done(notice_task(told));
    let (user, text) = told->0;
    law_the_owner_is_told(
        before.users,
        before.cache,
        event@,
        exchanges,
        user,
        text,
        cache_after,
    );
}

/// The cache of a bot keeps its limits, stays within its capacity and holds no line twice,
/// whatever the bot is asked for.
pub proof fn law_bot_stays_well_formed(
    action: Action,
    before: BotView,
    after: BotView,
    outcome: OutcomeView,
)
    requires
        can_update(action, before, after, outcome),
        before.cache matches Some(cache) ==> cache.wf() && cache.capacity > 0,
    ensures
        same_limits(before.cache, after.cache),
        after.cache matches Some(cache) ==> cache.wf(),
{
    if let Action::UpdateApprovals(event) = action {
        let stage = choose|stage: StageView| #[trigger]
            can_begin(before.users, event@, before.cache, stage, after.cache) && outcome
                == outcome_of(stage);
        if let Some(pos) = recipient(before.users, event@) {
            let start = fresh(pos as usize, event@);
            lemma_proceed_wf(before.users, start, before.cache, stage, after.cache);
        }
    }
}

/// The cache of a bot keeps its limits, stays within its capacity and holds no line twice,
/// whatever the script answers.
pub proof fn law_bot_stays_well_formed_on_answers(
    pending: PendingView,
    answer: Seq<char>,
    before: BotView,
    after: BotView,
    outcome: OutcomeView,
)
    requires
        can_resume(pending, answer, before, after, outcome),
        before.cache matches Some(cache) ==> cache.wf() && cache.capacity > 0,
    ensures
        same_limits(before.cache, after.cache),
        after.cache matches Some(cache) ==> cache.wf(),
{
    let stage = choose|stage: StageView| #[trigger]
        can_go_on(before.users, pending, answer, before.cache, stage, after.cache) && outcome
            == outcome_of(stage);
    let next = pending.answered(before.users[pending.user_ref as int], answer);
    lemma_proceed_wf(before.users, next, before.cache, stage, after.cache);
}

proof fn lemma_proceed_wf(
    users: Seq<UserView>,
    pending: PendingView,
    cache: Option<CacheView>,
    stage: StageView,
    cache_after: Option<CacheView>,
)
    requires
        can_proceed(users, pending, cache, stage, cache_after),
        cache matches Some(cache) ==> cache.wf() && cache.capacity > 0,
    ensures
        same_limits(cache, cache_after),
        cache_after matches Some(cache) ==> cache.wf(),
    decreases pending.approvals().len() - pending.done,
{
    if pending.done < pending.approvals().len() {
        let approval = pending.approvals()[pending.done as int];
        let line = line_of(pending.user_ref, pending.event, approval);
        if !is_news(approval) {
            lemma_proceed_wf(users, pending.passed(), cache, stage, cache_after);
        } else {
            let turn = choose|turn: Turn| #[trigger]
                can_note(cache, line, turn) && if is_repeated(cache, line, turn) {
                    can_proceed(
                        users,
                        pending.passed(),
                        noted(cache, line, turn),
                        stage,
                        cache_after,
                    )
                } else {
                    &&& stage == StageView::Ask(pending, question_about(pending.event, approval))
                    &&& cache_after == noted(cache, line, turn)
                };
            if let Some(cache) = cache {
                lemma_noted_wf(cache, line, turn);
            }
            if is_repeated(cache, line, turn) {
                let later = noted(cache, line, turn);
                lemma_proceed_wf(users, pending.passed(), later, stage, cache_after);
            }
        }
    }
}

} // verus!
