//! Laws on the events that are handled one after the other, in dialogs with the script.
use vstd::prelude::*;
use crate::cache::{CacheView, LineView};
use crate::gerrit::EventView;
use crate::laws::dialog::{
    comes_to, exchanges_of, is_asked_by, is_dialog, leads_on, lemma_dialog, lemma_unfolds_at,
    telling_by, Stop,
};
use crate::laws::memory::{
    asks_in, calm, law_a_line_is_told_once, lemma_never_is_calm, news_lines, series_cache,
    series_lines, Telling,
};
use crate::laws::notices::lemma_recipient_is_owner;
use crate::notify::{can_unfold, lemma_limits_kept, line_of, notice, recipient};
use crate::pending::{PendingView, StageView};
use crate::users::UserView;

verus! {

/// The users, an event, and the stops and answers of the dialog in which it is handled.
pub struct Dialog {
    pub users: Seq<UserView>,
    pub event: EventView,
    pub stops: Seq<Stop>,
    pub answers: Seq<Seq<char>>,
}

impl Dialog {
    /// The dialog can begin with `cache`, and has ended.
    pub open spec fn is_ended(self, cache: Option<CacheView>) -> bool {
        &&& self.users.len() <= usize::MAX
        &&& is_dialog(self.users, self.event, cache, self.stops, self.answers)
        &&& self.stops.last().stage is Told
    }

    /// The cache after the dialog.
    pub open spec fn cache_after(self) -> Option<CacheView> {
        self.stops.last().cache
    }

    /// The approval that the script is asked about at the stop `k`.
    pub open spec fn asked(self, k: int) -> int {
        self.stops[k].stage->Ask_0.done as int
    }

    /// The line of this approval.
    pub open spec fn line(self, k: int) -> LineView {
        let pending = self.stops[k].stage->Ask_0;
        line_of(pending.user_ref, pending.event, pending.approvals()[pending.done as int])
    }

    /// The lines of the news of the event, if there is somebody to tell.
    pub open spec fn lines(self) -> Set<LineView> {
        match recipient(self.users, self.event) {
            Some(pos) => news_lines(pos as usize, self.event, self.event.approvals->0),
            None => Set::empty(),
        }
    }

    /// Whether `telling` is how the event was handled in the dialog: the turns can happen, and
    /// give the same exchanges, notice and cache; each stop asks about an approval that is asked
    /// about by the turns, and they follow each other. If there is nobody to tell, no approval is
    /// handled.
    pub open spec fn is_by(self, cache: Option<CacheView>, telling: Telling) -> bool {
        match recipient(self.users, self.event) {
            Some(pos) => {
                let after = telling.progress(telling.approvals().len() as int, cache);
                let told = notice(telling.user, after.messages);
                &&& telling.user == self.users[pos]
                &&& telling.user_ref == pos
                &&& telling.event == self.event
                &&& can_unfold(
                    telling.user,
                    telling.user_ref,
                    telling.event,
                    telling.approvals(),
                    telling.turns,
                    cache,
                )
                &&& exchanges_of(self.stops, self.answers) == after.exchanges
                &&& self.stops.last() == (Stop { stage: StageView::Told(told), cache: after.cache })
                &&& forall|k: int|
                    0 <= k < self.answers.len() ==> telling.asks(#[trigger] self.asked(k), cache)
                        && telling.line(self.asked(k)) == self.line(k)
                &&& forall|k: int, l: int|
                    0 <= k < l < self.answers.len() ==> #[trigger] self.asked(k)
                        < #[trigger] self.asked(l)
            },
            None => {
                &&& telling.approvals().len() == 0
                &&& telling.turns.len() == 0
                &&& self.answers.len() == 0
                &&& self.cache_after() == cache
            },
        }
    }
}

/// For each dialog that has ended there are turns by which its event was handled.
pub proof fn law_a_dialog_is_by_turns(dialog: Dialog, cache: Option<CacheView>)
    requires
        dialog.is_ended(cache),
    ensures
        exists|telling: Telling| #[trigger] dialog.is_by(cache, telling),
{
    let (users, event, stops, answers) = (
        dialog.users,
        dialog.event,
        dialog.stops,
        dialog.answers,
    );
    match recipient(users, event) {
        None => {
            assert(answers.len() > 0 ==> leads_on(users, stops, answers, 0));
            let telling = Telling {
                user: arbitrary(),
                user_ref: 0,
                event: EventView { approvals: Some(Seq::empty()), ..event },
                turns: Seq::empty(),
            };
            assert(dialog.is_by(cache, telling));
        },
        Some(pos) => {
            lemma_recipient_is_owner(users, event);
            let turns = lemma_dialog(users, event, cache, stops, answers, Seq::empty());
            let telling = telling_by(users, pos as usize, event, turns);
            let n = telling.approvals().len() as int;
            let end = choose|end: PendingView|
                {
                    &&& #[trigger] comes_to(
                        users,
                        event,
                        cache,
                        turns,
                        exchanges_of(stops, answers),
                        end,
                        stops.last().cache,
                    )
                    &&& end.done == event.approvals->0.len()
                    &&& stops.last().stage->Told_0 == notice(
                        users[end.user_ref as int],
                        end.messages,
                    )
                };
            assert(telling.approvals().take(n) == telling.approvals());
            assert(turns.take(n) == turns);
            assert forall|k: int| 0 <= k < answers.len() implies telling.asks(
                #[trigger] dialog.asked(k),
                cache,
            ) && telling.line(dialog.asked(k)) == dialog.line(k) by {
                assert(leads_on(users, stops, answers, k));
                assert(is_asked_by(users, event, cache, turns, stops[k]));
            }
            assert forall|k: int, l: int| 0 <= k < l < answers.len() implies #[trigger]
                dialog.asked(k) < #[trigger] dialog.asked(l) by {
                assert(leads_on(users, stops, answers, l));
                assert(stops[k].stage->Ask_0.done < stops[l].stage->Ask_0.done);
            }
            assert(dialog.is_by(cache, telling));
        },
    }
}

/// The cache with which the dialog `i` begins: each begins with what the one before it left.
pub open spec fn cache_before(
    dialogs: Seq<Dialog>,
    cache: Option<CacheView>,
    i: int,
) -> Option<CacheView> {
    if i == 0 {
        cache
    } else {
        dialogs[i - 1].cache_after()
    }
}

/// Whether `dialogs` are held one after the other, and all of them have ended.
pub open spec fn are_ended(dialogs: Seq<Dialog>, cache: Option<CacheView>) -> bool {
    forall|i: int|
        0 <= i < dialogs.len() ==> dialogs[i].is_ended(#[trigger] cache_before(dialogs, cache, i))
}

/// Whether `series` is how the events of `dialogs` were handled.
pub open spec fn are_by(
    dialogs: Seq<Dialog>,
    cache: Option<CacheView>,
    series: Seq<Telling>,
) -> bool {
    series.len() == dialogs.len() && forall|i: int|
        0 <= i < dialogs.len() ==> dialogs[i].is_by(
            #[trigger] cache_before(dialogs, cache, i),
            series[i],
        )
}

/// For any dialogs that were held one after the other there are turns by which their events were
/// handled.
pub proof fn law_dialogs_are_by_turns(dialogs: Seq<Dialog>, cache: Option<CacheView>)
    requires
        are_ended(dialogs, cache),
    ensures
        exists|series: Seq<Telling>| #[trigger] are_by(dialogs, cache, series),
{
    let series = Seq::new(
        dialogs.len(),
        |i: int|
            choose|telling: Telling| #[trigger]
                dialogs[i].is_by(cache_before(dialogs, cache, i), telling),
    );
    assert forall|i: int| 0 <= i < dialogs.len() implies dialogs[i].is_by(
        #[trigger] cache_before(dialogs, cache, i),
        series[i],
    ) by {
        law_a_dialog_is_by_turns(dialogs[i], cache_before(dialogs, cache, i));
    }
    assert(are_by(dialogs, cache, series));
}

/// In dialogs that are held one after the other the script is asked at most once about each line,
/// provided that no line expires in the turns by which they were held and the cache has room for
/// all lines.
pub proof fn law_dialogs_ask_once(
    dialogs: Seq<Dialog>,
    cache: CacheView,
    series: Seq<Telling>,
    i: int,
    k: int,
    j: int,
    l: int,
)
    requires
        cache.wf(),
        are_by(dialogs, Some(cache), series),
        forall|n: int| 0 <= n < series.len() ==> (#[trigger] series[n]).is_calm(),
        series_lines(series).len() <= cache.capacity,
        0 <= i < dialogs.len() && 0 <= k < dialogs[i].answers.len(),
        0 <= j < dialogs.len() && 0 <= l < dialogs[j].answers.len(),
        dialogs[i].line(k) == dialogs[j].line(l),
    ensures
        i == j && k == l,
{
    let a = dialogs[i].asked(k);
    let b = dialogs[j].asked(l);
    lemma_series_cache(dialogs, Some(cache), series, i);
    lemma_series_cache(dialogs, Some(cache), series, j);
    assert(dialogs[i].is_by(cache_before(dialogs, Some(cache), i), series[i]));
    assert(dialogs[j].is_by(cache_before(dialogs, Some(cache), j), series[j]));
    assert(series[i].asks(a, cache_before(dialogs, Some(cache), i)));
    assert(series[j].asks(b, cache_before(dialogs, Some(cache), j)));
    assert(asks_in(series, Some(cache), i, a));
    assert(asks_in(series, Some(cache), j, b));
    law_a_line_is_told_once(series, cache, i, a, j, b);
    if k < l {
        assert(dialogs[i].asked(k) < dialogs[i].asked(l));
    } else if l < k {
        assert(dialogs[i].asked(l) < dialogs[i].asked(k));
    }
}

/// The cache of a series of events is that of the dialogs in which they were handled.
proof fn lemma_series_cache(
    dialogs: Seq<Dialog>,
    cache: Option<CacheView>,
    series: Seq<Telling>,
    i: int,
)
    requires
        are_by(dialogs, cache, series),
        0 <= i < dialogs.len(),
    ensures
        series_cache(series.take(i), cache) == cache_before(dialogs, cache, i),
    decreases i,
{
    if i > 0 {
        lemma_series_cache(dialogs, cache, series, i - 1);
        assert(series.take(i).drop_last() == series.take(i - 1));
        let before = cache_before(dialogs, cache, i - 1);
        assert(dialogs[i - 1].is_by(before, series[i - 1]));
        assert(series[i - 1].cache_after(before) == dialogs[i - 1].cache_after());
    }
}

/// The lines of all news of `dialogs`.
pub open spec fn dialog_lines(dialogs: Seq<Dialog>) -> Set<LineView>
    decreases dialogs.len(),
{
    if dialogs.len() == 0 {
        Set::empty()
    } else {
        dialog_lines(dialogs.drop_last()).union(dialogs.last().lines())
    }
}

/// Where lines do not expire, the script is asked at most once about each line in all dialogs that
/// are held one after the other, provided that the cache has room for all lines.
pub proof fn law_dialogs_ask_once_for_good(
    dialogs: Seq<Dialog>,
    cache: CacheView,
    i: int,
    k: int,
    j: int,
    l: int,
)
    requires
        cache.wf(),
        cache.expiration.is_never(),
        are_ended(dialogs, Some(cache)),
        dialog_lines(dialogs).len() <= cache.capacity,
        0 <= i < dialogs.len() && 0 <= k < dialogs[i].answers.len(),
        0 <= j < dialogs.len() && 0 <= l < dialogs[j].answers.len(),
        dialogs[i].line(k) == dialogs[j].line(l),
    ensures
        i == j && k == l,
{
    let start = Some(cache);
    law_dialogs_are_by_turns(dialogs, start);
    let series = choose|series: Seq<Telling>| #[trigger] are_by(dialogs, start, series);
    let calmed = Seq::new(series.len(), |n: int| calmed_telling(series[n]));
    assert forall|n: int| 0 <= n < dialogs.len() implies dialogs[n].is_by(
        #[trigger] cache_before(dialogs, start, n),
        calmed[n],
    ) && calmed[n].is_calm() by {
        lemma_never_everywhere(dialogs, cache, series, n);
        let before = cache_before(dialogs, start, n);
        assert(dialogs[n].is_by(before, series[n]));
        lemma_calmed(dialogs[n], before->0, series[n]);
    }
    assert forall|n: int| 0 <= n < calmed.len() implies (#[trigger] calmed[n]).is_calm() by {
        assert(dialogs[n].is_by(cache_before(dialogs, start, n), calmed[n]));
    }
    assert(are_by(dialogs, start, calmed));
    lemma_same_lines(dialogs, start, calmed, dialogs.len() as int);
    assert(dialogs.take(dialogs.len() as int) == dialogs);
    assert(calmed.take(dialogs.len() as int) == calmed);
    law_dialogs_ask_once(dialogs, cache, calmed, i, k, j, l);
}

/// The same telling, during which no line expires.
spec fn calmed_telling(telling: Telling) -> Telling {
    Telling { turns: calm(telling.turns), ..telling }
}

/// A cache whose lines do not expire stays one.
proof fn lemma_never_everywhere(
    dialogs: Seq<Dialog>,
    cache: CacheView,
    series: Seq<Telling>,
    i: int,
)
    requires
        cache.expiration.is_never(),
        are_by(dialogs, Some(cache), series),
        0 <= i < dialogs.len(),
    ensures
        cache_before(dialogs, Some(cache), i) is Some,
        cache_before(dialogs, Some(cache), i)->0.expiration.is_never(),
    decreases i,
{
    if i > 0 {
        lemma_never_everywhere(dialogs, cache, series, i - 1);
        let before = cache_before(dialogs, Some(cache), i - 1);
        let telling = series[i - 1];
        let n = telling.approvals().len() as int;
        assert(dialogs[i - 1].is_by(before, telling));
        lemma_limits_kept(
            telling.user,
            telling.user_ref,
            telling.event,
            telling.approvals().take(n),
            telling.turns.take(n),
            before,
        );
    }
}

/// Where lines do not expire, an event is handled as if all turns were calm.
proof fn lemma_calmed(dialog: Dialog, cache: CacheView, telling: Telling)
    requires
        cache.expiration.is_never(),
        dialog.is_by(Some(cache), telling),
    ensures
        dialog.is_by(Some(cache), calmed_telling(telling)),
        calmed_telling(telling).is_calm(),
{
    let calmed = calmed_telling(telling);
    let turns = telling.turns;
    let approvals = telling.approvals();
    let n = approvals.len() as int;
    if recipient(dialog.users, dialog.event) is Some {
        assert(turns.len() == n);
        assert(approvals.take(n) == approvals);
        assert(turns.take(n) == turns);
        assert(calm(turns).take(n) == calm(turns));
        lemma_never_is_calm(
            telling.user,
            telling.user_ref,
            telling.event,
            approvals,
            cache,
            turns,
        );
        assert forall|k: int| 0 <= k < dialog.answers.len() implies calmed.asks(
            #[trigger] dialog.asked(k),
            Some(cache),
        ) && calmed.line(dialog.asked(k)) == dialog.line(k) by {
            let a = dialog.asked(k);
            assert(telling.asks(a, Some(cache)));
            lemma_unfolds_at(
                telling.user,
                telling.user_ref,
                telling.event,
                approvals,
                turns,
                Some(cache),
                a,
            );
            lemma_never_is_calm(
                telling.user,
                telling.user_ref,
                telling.event,
                approvals.take(a),
                cache,
                turns.take(a),
            );
            lemma_limits_kept(
                telling.user,
                telling.user_ref,
                telling.event,
                approvals.take(a),
                turns.take(a),
                Some(cache),
            );
            assert(calm(turns).take(a) == calm(turns.take(a)));
        }
    }
}

/// The lines of a series of events are those of the dialogs in which they were handled.
proof fn lemma_same_lines(
    dialogs: Seq<Dialog>,
    cache: Option<CacheView>,
    series: Seq<Telling>,
    n: int,
)
    requires
        are_by(dialogs, cache, series),
        0 <= n <= dialogs.len(),
    ensures
        series_lines(series.take(n)) == dialog_lines(dialogs.take(n)),
    decreases n,
{
    if n > 0 {
        lemma_same_lines(dialogs, cache, series, n - 1);
        assert(series.take(n).drop_last() == series.take(n - 1));
        assert(dialogs.take(n).drop_last() == dialogs.take(n - 1));
        assert(dialogs[n - 1].is_by(cache_before(dialogs, cache, n - 1), series[n - 1]));
        assert(series[n - 1].lines() == dialogs[n - 1].lines());
    }
}

} // verus!
