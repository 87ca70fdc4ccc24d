//! Laws on the memory of the messages that were sent.
use vstd::prelude::*;
use crate::cache::{same_limits, CacheView, LineView};
use crate::gerrit::{ApprovalView, EventView};
use crate::notify::{
    can_note, can_tell, can_unfold, handled, is_asked, is_news, lemma_limits_kept, line_of, noted,
    notice, recipient, Exchange, Notice, Progress, Turn,
};
use crate::users::UserView;

verus! {

/// The lines of the news among `approvals`.
pub open spec fn news_lines(
    user_ref: usize,
    event: EventView,
    approvals: Seq<ApprovalView>,
) -> Set<LineView>
    decreases approvals.len(),
{
    if approvals.len() == 0 {
        Set::empty()
    } else {
        let rest = news_lines(user_ref, event, approvals.drop_last());
        if is_news(approvals.last()) {
            rest.insert(line_of(user_ref, event, approvals.last()))
        } else {
            rest
        }
    }
}

/// No line expires during `turns`.
pub open spec fn nothing_expires(turns: Seq<Turn>) -> bool {
    forall|i: int|
        0 <= i < turns.len() ==> (#[trigger] turns[i]).expired_at_lookup == 0
            && turns[i].expired_at_insert == 0
}

/// An event that is repeated before a line expires is not told again, provided that the cache has
/// room for all lines of the event: the script is not even asked.
pub proof fn law_a_repeated_event_is_silent(
    user: UserView,
    user_ref: usize,
    event: EventView,
    approvals: Seq<ApprovalView>,
    cache: CacheView,
    first: Seq<Turn>,
    second: Seq<Turn>,
)
    requires
        cache.wf(),
        news_lines(user_ref, event, approvals).len() <= cache.capacity,
        first.len() == approvals.len(),
        nothing_expires(first),
        second.len() == approvals.len(),
        nothing_expires(second),
    ensures
        ({
            let between = handled(user, user_ref, event, approvals, first, Some(cache)).cache;
            let after = handled(user, user_ref, event, approvals, second, between);
            after.exchanges.len() == 0 && after.messages.len() == 0
        }),
{
    let lines = news_lines(user_ref, event, approvals);
    lemma_nothing_is_latest(cache);
    assert(Set::<LineView>::empty().union(lines) =~= lines);
    lemma_lines_are_latest(user, user_ref, event, approvals, cache, first, Set::empty());
    let between = handled(user, user_ref, event, approvals, first, Some(cache)).cache->0;
    lemma_latest_are_held(between, lines);
    lemma_remembered_news_is_silent(user, user_ref, event, approvals, between, second);
}

/// The same turns, during which no line expires.
pub(crate) open spec fn calm(turns: Seq<Turn>) -> Seq<Turn> {
    turns.map_values(
        |turn: Turn| Turn { expired_at_lookup: 0, expired_at_insert: 0, answer: turn.answer },
    )
}

/// In a cache whose lines do not expire, all turns are calm.
pub(crate) proof fn lemma_never_is_calm(
    user: UserView,
    user_ref: usize,
    event: EventView,
    approvals: Seq<ApprovalView>,
    cache: CacheView,
    turns: Seq<Turn>,
)
    requires
        cache.expiration.is_never(),
        can_unfold(user, user_ref, event, approvals, turns, Some(cache)),
    ensures
        can_unfold(user, user_ref, event, approvals, calm(turns), Some(cache)),
        handled(user, user_ref, event, approvals, calm(turns), Some(cache)) == handled(
            user,
            user_ref,
            event,
            approvals,
            turns,
            Some(cache),
        ),
    decreases approvals.len(),
{
    if approvals.len() > 0 {
        lemma_never_is_calm(
            user,
            user_ref,
            event,
            approvals.drop_last(),
            cache,
            turns.drop_last(),
        );
        lemma_limits_kept(
            user,
            user_ref,
            event,
            approvals.drop_last(),
            turns.drop_last(),
            Some(cache),
        );
        assert(calm(turns).drop_last() == calm(turns.drop_last()));
    }
}

/// An event that the bot handled is not told again where lines do not expire, provided that the
/// cache has room for all lines of the event: the script is not even asked.
pub proof fn law_an_event_is_told_once(
    users: Seq<UserView>,
    event: EventView,
    cache: CacheView,
    exchanges: Seq<Exchange>,
    told: Notice,
    between: Option<CacheView>,
    exchanges_again: Seq<Exchange>,
    told_again: Notice,
    after: Option<CacheView>,
)
    requires
        cache.wf(),
        cache.expiration.is_never(),
        recipient(users, event) matches Some(pos) ==> news_lines(
            pos as usize,
            event,
            event.approvals->0,
        ).len() <= cache.capacity,
        can_tell(users, Some(cache), event, exchanges, told, between),
        can_tell(users, between, event, exchanges_again, told_again, after),
    ensures
        exchanges_again.len() == 0,
        told_again is None,
{
    if let Some(pos) = recipient(users, event) {
        let user = users[pos];
        let user_ref = pos as usize;
        let approvals = event.approvals->0;
        let first = choose|turns: Seq<Turn>| #[trigger]
            can_unfold(users[pos], pos as usize, event, event.approvals->0, turns, Some(cache))
                && between == handled(user, user_ref, event, approvals, turns, Some(cache)).cache;
        lemma_never_is_calm(user, user_ref, event, approvals, cache, first);
        lemma_limits_kept(user, user_ref, event, approvals, first, Some(cache));
        let second = choose|turns: Seq<Turn>|
            {
                let progress = handled(user, user_ref, event, approvals, turns, between);
                &&& #[trigger] can_unfold(
                    users[pos],
                    pos as usize,
                    event,
                    event.approvals->0,
                    turns,
                    between,
                )
                &&& exchanges_again == progress.exchanges
                &&& told_again == notice(users[pos], progress.messages)
            };
        lemma_never_is_calm(user, user_ref, event, approvals, between->0, second);
        law_a_repeated_event_is_silent(
            user,
            user_ref,
            event,
            approvals,
            cache,
            calm(first),
            calm(second),
        );
    }
}

/// An event, the user who is told about it, and what happens outside of the bot meanwhile.
pub struct Telling {
    pub user: UserView,
    pub user_ref: usize,
    pub event: EventView,
    pub turns: Seq<Turn>,
}

impl Telling {
    /// The approvals of the event.
    pub open spec fn approvals(self) -> Seq<ApprovalView> {
        self.event.approvals->0
    }

    /// Each approval has its turn, and no line expires.
    pub open spec fn is_calm(self) -> bool {
        self.turns.len() == self.approvals().len() && nothing_expires(self.turns)
    }

    /// The progress after the first `n` approvals were handled.
    pub open spec fn progress(self, n: int, cache: Option<CacheView>) -> Progress {
        handled(
            self.user,
            self.user_ref,
            self.event,
            self.approvals().take(n),
            self.turns.take(n),
            cache,
        )
    }

    /// The cache after the event was handled.
    pub open spec fn cache_after(self, cache: Option<CacheView>) -> Option<CacheView> {
        self.progress(self.approvals().len() as int, cache).cache
    }

    /// The lines of the news of the event.
    pub open spec fn lines(self) -> Set<LineView> {
        news_lines(self.user_ref, self.event, self.approvals())
    }

    /// The line of the approval `a`.
    pub open spec fn line(self, a: int) -> LineView {
        line_of(self.user_ref, self.event, self.approvals()[a])
    }

    /// Whether the script is asked about the approval `a`. There is no message about it if not.
    pub open spec fn asks(self, a: int, cache: Option<CacheView>) -> bool {
        0 <= a < self.approvals().len() && is_asked(
            self.user_ref,
            self.event,
            self.approvals()[a],
            self.progress(a, cache).cache,
            self.turns[a],
        )
    }
}

/// The cache after the events of `series` were handled in order.
pub open spec fn series_cache(series: Seq<Telling>, cache: Option<CacheView>) -> Option<CacheView>
    decreases series.len(),
{
    if series.len() == 0 {
        cache
    } else {
        series.last().cache_after(series_cache(series.drop_last(), cache))
    }
}

/// The lines of all news of `series`.
pub open spec fn series_lines(series: Seq<Telling>) -> Set<LineView>
    decreases series.len(),
{
    if series.len() == 0 {
        Set::empty()
    } else {
        series_lines(series.drop_last()).union(series.last().lines())
    }
}

/// Whether the script is asked about the approval `a` of the event `i` of `series`.
pub open spec fn asks_in(
    series: Seq<Telling>,
    cache: Option<CacheView>,
    i: int,
    a: int,
) -> bool {
    0 <= i < series.len() && series[i].asks(a, series_cache(series.take(i), cache))
}

/// Over any series of events in which no line expires, and for all lines of which the cache has
/// room, the script is asked at most once about each line, so that at most one approval per line
/// contributes a message. This holds of different events, and within one event.
pub proof fn law_a_line_is_told_once(
    series: Seq<Telling>,
    cache: CacheView,
    i: int,
    a: int,
    j: int,
    b: int,
)
    requires
        cache.wf(),
        forall|k: int| 0 <= k < series.len() ==> (#[trigger] series[k]).is_calm(),
        series_lines(series).len() <= cache.capacity,
        asks_in(series, Some(cache), i, a),
        asks_in(series, Some(cache), j, b),
        series[i].line(a) == series[j].line(b),
    ensures
        i == j && a == b,
{
    if i < j || (i == j && a < b) {
        lemma_told_before(series, cache, i, a, j, b);
    } else if j < i || b < a {
        lemma_told_before(series, cache, j, b, i, a);
    }
}

/// A line that was told is not told later.
proof fn lemma_told_before(
    series: Seq<Telling>,
    cache: CacheView,
    i: int,
    a: int,
    j: int,
    b: int,
)
    requires
        cache.wf(),
        forall|k: int| 0 <= k < series.len() ==> (#[trigger] series[k]).is_calm(),
        series_lines(series).len() <= cache.capacity,
        asks_in(series, Some(cache), i, a),
        asks_in(series, Some(cache), j, b),
        i < j || (i == j && a < b),
    ensures
        series[i].line(a) != series[j].line(b),
{
    let first = series[i];
    let second = series[j];
    let line = first.line(a);
    let earlier = series_lines(series.take(j));
    let so_far = news_lines(second.user_ref, second.event, second.approvals().take(b));
    lemma_series_lines_subset(series, j);
    lemma_news_lines_subset(second.user_ref, second.event, second.approvals(), b);
    lemma_series_lines_finite(series);
    assert(earlier.union(so_far).subset_of(series_lines(series)));
    vstd::set_lib::lemma_len_subset(earlier, series_lines(series));
    vstd::set_lib::lemma_len_subset(earlier.union(so_far), series_lines(series));
    assert forall|k: int| 0 <= k < series.take(j).len() implies (
    #[trigger] series.take(j)[k]).is_calm() by {
        assert(series.take(j)[k] == series[k]);
    }
    lemma_series_is_latest(series.take(j), cache);
    let start = series_cache(series.take(j), Some(cache))->0;
    lemma_calm_prefix(second.turns, b);
    lemma_lines_are_latest(
        second.user,
        second.user_ref,
        second.event,
        second.approvals().take(b),
        start,
        second.turns.take(b),
        earlier,
    );
    let here = second.progress(b, Some(start)).cache->0;
    lemma_latest_are_held(here, earlier.union(so_far));
    if line == second.line(b) {
        if i < j {
            lemma_news_line_is_in(first.user_ref, first.event, first.approvals(), a);
            lemma_lines_of_one(series, i, j);
            assert(earlier.contains(line));
        } else {
            assert(second.approvals().take(b)[a] == second.approvals()[a]);
            lemma_news_line_is_in(
                second.user_ref,
                second.event,
                second.approvals().take(b),
                a,
            );
            assert(so_far.contains(line));
        }
        assert(earlier.union(so_far).contains(line));
        assert(here.lines.contains(line));
        assert(second.turns[b].expired_at_lookup == 0);
        assert(here.lines.skip(0) == here.lines);
        assert(false);
    }
}

/// The `n` most recently used lines are those of `lines`.
spec fn latest_are(all: Seq<LineView>, n: int, lines: Set<LineView>) -> bool {
    0 <= n <= all.len() && all.skip(all.len() - n).to_set() =~= lines
}

/// Using a line keeps the lines, and leaves it at the end.
proof fn lemma_used(cache: CacheView, line: LineView)
    requires
        cache.lines.contains(line),
    ensures
        cache.used(line).lines.len() == cache.lines.len(),
        cache.used(line).lines.last() == line,
        forall|l: LineView| cache.used(line).lines.contains(l) <==> cache.lines.contains(l),
        cache.lines.no_duplicates() ==> cache.used(line).lines.no_duplicates(),
{
    cache.lines.index_of_first_ensures(line);
    let i = cache.lines.index_of_first(line)->0;
    let after = cache.used(line).lines;
    cache.lines.remove_ensures(i);
    assert(after == cache.lines.remove(i).push(line));
    assert forall|l: LineView| after.contains(l) <==> cache.lines.contains(l) by {
        if after.contains(l) {
            let j = choose|j: int| 0 <= j < after.len() && after[j] == l;
            if j == after.len() - 1 {
                assert(cache.lines[i] == l);
            } else if j < i {
                assert(cache.lines[j] == l);
            } else {
                assert(cache.lines[j + 1] == l);
            }
        }
        if cache.lines.contains(l) {
            let j = choose|j: int| 0 <= j < cache.lines.len() && cache.lines[j] == l;
            if j == i {
                assert(after[after.len() - 1] == l);
            } else if j < i {
                assert(after[j] == l);
            } else {
                assert(after[j - 1] == l);
            }
        }
    }
}

/// The most recently used lines of `cache` are those of `lines`.
spec fn holds_latest(cache: CacheView, lines: Set<LineView>) -> bool {
    &&& cache.wf()
    &&& lines.finite()
    &&& exists|n: int| #[trigger] latest_are(cache.lines, n, lines)
}

proof fn lemma_nothing_is_latest(cache: CacheView)
    requires
        cache.wf(),
    ensures
        holds_latest(cache, Set::empty()),
{
    assert(cache.lines.skip(cache.lines.len() as int) == Seq::<LineView>::empty());
    assert(latest_are(cache.lines, 0, Set::empty()));
}

proof fn lemma_latest_are_held(cache: CacheView, lines: Set<LineView>)
    requires
        holds_latest(cache, lines),
    ensures
        forall|line: LineView| lines.contains(line) ==> cache.lines.contains(line),
{
    let n = choose|n: int| #[trigger] latest_are(cache.lines, n, lines);
    assert forall|line: LineView| lines.contains(line) implies cache.lines.contains(line) by {
        let tail = cache.lines.skip(cache.lines.len() - n);
        assert(tail.to_set().contains(line));
        let k = choose|k: int| 0 <= k < tail.len() && tail[k] == line;
        assert(cache.lines[cache.lines.len() - n + k] == line);
    }
}

/// After a series of events during which no line expired, its lines are the most recently used
/// ones.
proof fn lemma_series_is_latest(series: Seq<Telling>, cache: CacheView)
    requires
        cache.wf(),
        forall|k: int| 0 <= k < series.len() ==> (#[trigger] series[k]).is_calm(),
        series_lines(series).len() <= cache.capacity,
    ensures
        series_cache(series, Some(cache)) is Some,
        series_cache(series, Some(cache))->0.capacity == cache.capacity,
        holds_latest(series_cache(series, Some(cache))->0, series_lines(series)),
    decreases series.len(),
{
    lemma_nothing_is_latest(cache);
    if series.len() > 0 {
        let rest = series.drop_last();
        let last = series.last();
        lemma_series_lines_finite(series);
        vstd::set_lib::lemma_len_subset(series_lines(rest), series_lines(series));
        assert forall|k: int| 0 <= k < rest.len() implies (#[trigger] rest[k]).is_calm() by {
            assert(rest[k] == series[k]);
        }
        lemma_series_is_latest(rest, cache);
        assert(last == series[series.len() - 1]);
        assert(last.approvals().take(last.approvals().len() as int) == last.approvals());
        assert(last.turns.take(last.approvals().len() as int) == last.turns);
        lemma_lines_are_latest(
            last.user,
            last.user_ref,
            last.event,
            last.approvals(),
            series_cache(rest, Some(cache))->0,
            last.turns,
            series_lines(rest),
        );
    }
}

proof fn lemma_series_lines_finite(series: Seq<Telling>)
    ensures
        series_lines(series).finite(),
    decreases series.len(),
{
    if series.len() > 0 {
        let last = series.last();
        lemma_series_lines_finite(series.drop_last());
        lemma_news_lines_finite(last.user_ref, last.event, last.approvals());
    }
}

/// The lines of the first events of a series, and of the next one, are lines of the series.
proof fn lemma_series_lines_subset(series: Seq<Telling>, n: int)
    requires
        0 <= n < series.len(),
    ensures
        series_lines(series.take(n)).subset_of(series_lines(series)),
        series[n].lines().subset_of(series_lines(series)),
    decreases series.len(),
{
    let rest = series.drop_last();
    if n < rest.len() {
        assert(rest.take(n) == series.take(n));
        lemma_series_lines_subset(rest, n);
    } else {
        assert(series.take(n) == rest);
    }
}

/// The lines of the event `i` are among those of the first `n` events.
proof fn lemma_lines_of_one(series: Seq<Telling>, i: int, n: int)
    requires
        0 <= i < n <= series.len(),
    ensures
        series[i].lines().subset_of(series_lines(series.take(n))),
{
    lemma_series_lines_subset(series.take(n), i);
}

proof fn lemma_news_lines_subset(
    user_ref: usize,
    event: EventView,
    approvals: Seq<ApprovalView>,
    n: int,
)
    requires
        0 <= n <= approvals.len(),
    ensures
        news_lines(user_ref, event, approvals.take(n)).subset_of(
            news_lines(user_ref, event, approvals),
        ),
    decreases approvals.len(),
{
    if n == approvals.len() {
        assert(approvals.take(n) == approvals);
    } else {
        assert(approvals.drop_last().take(n) == approvals.take(n));
        lemma_news_lines_subset(user_ref, event, approvals.drop_last(), n);
    }
}

proof fn lemma_news_line_is_in(
    user_ref: usize,
    event: EventView,
    approvals: Seq<ApprovalView>,
    a: int,
)
    requires
        0 <= a < approvals.len(),
        is_news(approvals[a]),
    ensures
        news_lines(user_ref, event, approvals).contains(line_of(user_ref, event, approvals[a])),
    decreases approvals.len(),
{
    if a < approvals.len() - 1 {
        lemma_news_line_is_in(user_ref, event, approvals.drop_last(), a);
    }
}

proof fn lemma_calm_prefix(turns: Seq<Turn>, n: int)
    requires
        nothing_expires(turns),
        0 <= n <= turns.len(),
    ensures
        nothing_expires(turns.take(n)),
{
    assert forall|i: int| 0 <= i < n implies (#[trigger] turns.take(n)[i]).expired_at_lookup == 0
        && turns.take(n)[i].expired_at_insert == 0 by {
        assert(turns.take(n)[i] == turns[i]);
    }
}

/// A cache keeps its capacity, and holds no line twice, whatever is looked up and remembered.
pub proof fn law_cache_stays_well_formed(
    user: UserView,
    user_ref: usize,
    event: EventView,
    approvals: Seq<ApprovalView>,
    turns: Seq<Turn>,
    cache: CacheView,
)
    requires
        cache.wf(),
        cache.capacity > 0,
        can_unfold(user, user_ref, event, approvals, turns, Some(cache)),
    ensures
        handled(user, user_ref, event, approvals, turns, Some(cache)).cache is Some,
        handled(user, user_ref, event, approvals, turns, Some(cache)).cache->0.wf(),
        same_limits(
            Some(cache),
            handled(user, user_ref, event, approvals, turns, Some(cache)).cache,
        ),
    decreases approvals.len(),
{
    lemma_limits_kept(user, user_ref, event, approvals, turns, Some(cache));
    if approvals.len() > 0 {
        law_cache_stays_well_formed(
            user,
            user_ref,
            event,
            approvals.drop_last(),
            turns.drop_last(),
            cache,
        );
        let before = handled(
            user,
            user_ref,
            event,
            approvals.drop_last(),
            turns.drop_last(),
            Some(cache),
        );
        if is_news(approvals.last()) {
            lemma_noted_wf(
                before.cache->0,
                line_of(user_ref, event, approvals.last()),
                turns.last(),
            );
        }
    }
}

pub(crate) proof fn lemma_noted_wf(cache: CacheView, line: LineView, turn: Turn)
    requires
        cache.wf(),
        cache.capacity > 0,
        can_note(Some(cache), line, turn),
    ensures
        noted(Some(cache), line, turn)->0.wf(),
{
    let rest = cache.without_oldest(turn.expired_at_lookup);
    assert(rest.wf());
    if rest.lines.contains(line) {
        lemma_used(rest, line);
    } else {
        let after = rest.remembered(line, turn.expired_at_insert);
        assert forall|i: int, j: int|
            0 <= i < after.lines.len() && 0 <= j < after.lines.len() && i
                != j implies after.lines[i] != after.lines[j] by {
            let k = if i < j { i } else { j };
            let l = if i < j { j } else { i };
            if l == after.lines.len() - 1 {
                let d = rest.lines.len() - (after.lines.len() - 1);
                assert(after.lines[k] == rest.lines[k + d]);
                assert(rest.lines.contains(rest.lines[k + d]));
            }
        }
    }
}

/// After an event during which no line expired, its lines are the most recently used ones,
/// together with those that were before.
proof fn lemma_lines_are_latest(
    user: UserView,
    user_ref: usize,
    event: EventView,
    approvals: Seq<ApprovalView>,
    cache: CacheView,
    turns: Seq<Turn>,
    earlier: Set<LineView>,
)
    requires
        holds_latest(cache, earlier),
        turns.len() == approvals.len(),
        nothing_expires(turns),
        earlier.union(news_lines(user_ref, event, approvals)).len() <= cache.capacity,
    ensures
        ({
            let after = handled(user, user_ref, event, approvals, turns, Some(cache)).cache;
            let lines = earlier.union(news_lines(user_ref, event, approvals));
            &&& after is Some
            &&& after->0.capacity == cache.capacity
            &&& holds_latest(after->0, lines)
        }),
    decreases approvals.len(),
{
    let lines = earlier.union(news_lines(user_ref, event, approvals));
    if approvals.len() == 0 {
        assert(lines =~= earlier);
    } else {
        let rest = approvals.drop_last();
        let before_lines = earlier.union(news_lines(user_ref, event, rest));
        lemma_news_lines_finite(user_ref, event, approvals);
        lemma_news_lines_finite(user_ref, event, rest);
        vstd::set_lib::lemma_len_subset(before_lines, lines);
        assert(turns.drop_last() == turns.take(turns.len() - 1));
        lemma_calm_prefix(turns, turns.len() - 1);
        lemma_lines_are_latest(user, user_ref, event, rest, cache, turns.drop_last(), earlier);
        let before = handled(user, user_ref, event, rest, turns.drop_last(), Some(cache)).cache->0;
        let turn = turns.last();
        assert(turn == turns[turns.len() - 1]);
        if is_news(approvals.last()) {
            let line = line_of(user_ref, event, approvals.last());
            let n = choose|n: int| #[trigger] latest_are(before.lines, n, before_lines);
            assert(before_lines.insert(line) =~= lines);
            lemma_noted_latest(before, line, turn, before_lines, n);
        } else {
            assert(before_lines =~= lines);
        }
    }
}

proof fn lemma_news_lines_finite(user_ref: usize, event: EventView, approvals: Seq<ApprovalView>)
    ensures
        news_lines(user_ref, event, approvals).finite(),
    decreases approvals.len(),
{
    if approvals.len() > 0 {
        lemma_news_lines_finite(user_ref, event, approvals.drop_last());
    }
}

/// A line that is noted joins the most recently used ones.
proof fn lemma_noted_latest(
    before: CacheView,
    line: LineView,
    turn: Turn,
    earlier: Set<LineView>,
    n: int,
)
    requires
        before.wf(),
        turn.expired_at_lookup == 0,
        turn.expired_at_insert == 0,
        latest_are(before.lines, n, earlier),
        earlier.finite(),
        earlier.insert(line).len() <= before.capacity,
    ensures
        ({
            let after = noted(Some(before), line, turn)->0;
            &&& after.wf()
            &&& after.capacity == before.capacity
            &&& exists|m: int| #[trigger] latest_are(after.lines, m, earlier.insert(line))
        }),
{
    let after = noted(Some(before), line, turn)->0;
    let old_tail = before.lines.skip(before.lines.len() - n);
    old_tail.unique_seq_to_set();
    assert(old_tail.to_set() == earlier);
    assert(before.lines.skip(0) == before.lines);
    assert(before.without_oldest(0) == before);
    if before.lines.contains(line) {
        before.lines.index_of_first_ensures(line);
        let i = before.lines.index_of_first(line)->0;
        before.lines.remove_ensures(i);
        lemma_used(before, line);
        let m = if earlier.contains(line) { n } else { n + 1 };
        if earlier.contains(line) {
            let k = choose|k: int| 0 <= k < n && old_tail[k] == line;
            assert(before.lines[before.lines.len() - n + k] == line);
            assert(i == before.lines.len() - n + k);
        } else if i >= before.lines.len() - n {
            assert(old_tail[i - (before.lines.len() - n)] == line);
            assert(old_tail.contains(line));
            assert(false);
        }
        let tail = after.lines.skip(after.lines.len() - m);
        assert(after.lines == before.lines.remove(i).push(line));
        assert forall|l: LineView| tail.to_set().contains(l) <==> earlier.insert(line).contains(
            l,
        ) by {
            if tail.contains(l) {
                let j = choose|j: int| 0 <= j < tail.len() && tail[j] == l;
                let p = after.lines.len() - m + j;
                assert(after.lines[p] == l);
                if p < after.lines.len() - 1 {
                    let q = if p < i { p } else { p + 1 };
                    assert(before.lines[q] == l);
                    assert(q >= before.lines.len() - n);
                    assert(old_tail[q - (before.lines.len() - n)] == l);
                    assert(old_tail.contains(l));
                }
            }
            if l == line {
                assert(tail[tail.len() - 1] == line);
            } else if earlier.contains(l) {
                assert(old_tail.contains(l));
                let j = choose|j: int| 0 <= j < old_tail.len() && old_tail[j] == l;
                let q = before.lines.len() - n + j;
                assert(before.lines[q] == l);
                let p = if q < i { q } else { q - 1 };
                assert(after.lines[p] == l);
                assert(p >= after.lines.len() - m);
                assert(tail[p - (after.lines.len() - m)] == l);
            }
        }
        assert(latest_are(after.lines, m, earlier.insert(line)));
    } else {
        assert(!earlier.contains(line)) by {
            if earlier.contains(line) {
                assert(old_tail.contains(line));
                let k = choose|k: int| 0 <= k < n && old_tail[k] == line;
                assert(before.lines[before.lines.len() - n + k] == line);
            }
        }
        assert(n + 1 <= before.capacity);
        assert(before.capacity > 0);
        lemma_noted_wf(before, line, turn);
        let d: int = if before.lines.len() == before.capacity { 1 } else { 0 };
        assert(after.lines == before.lines.skip(d).push(line));
        let tail = after.lines.skip(after.lines.len() - (n + 1));
        assert(tail == old_tail.push(line));
        assert forall|l: LineView| tail.to_set().contains(l) <==> earlier.insert(line).contains(
            l,
        ) by {
            if tail.contains(l) {
                let j = choose|j: int| 0 <= j < tail.len() && tail[j] == l;
                if j < n {
                    assert(old_tail[j] == l);
                    assert(old_tail.contains(l));
                }
            }
            if l == line {
                assert(tail[n] == line);
            } else if earlier.contains(l) {
                assert(old_tail.contains(l));
                let j = choose|j: int| 0 <= j < old_tail.len() && old_tail[j] == l;
                assert(tail[j] == l);
            }
        }
        assert(latest_are(after.lines, n + 1, earlier.insert(line)));
    }
}

/// If all news are remembered, and nothing expires, nothing is told.
proof fn lemma_remembered_news_is_silent(
    user: UserView,
    user_ref: usize,
    event: EventView,
    approvals: Seq<ApprovalView>,
    cache: CacheView,
    turns: Seq<Turn>,
)
    requires
        turns.len() == approvals.len(),
        nothing_expires(turns),
        forall|line: LineView|
            news_lines(user_ref, event, approvals).contains(line) ==> cache.lines.contains(line),
    ensures
        ({
            let after = handled(user, user_ref, event, approvals, turns, Some(cache));
            &&& after.exchanges.len() == 0
            &&& after.messages.len() == 0
            &&& after.cache is Some
            &&& forall|line: LineView|
                after.cache->0.lines.contains(line) <==> cache.lines.contains(line)
        }),
    decreases approvals.len(),
{
    if approvals.len() > 0 {
        let rest = approvals.drop_last();
        assert forall|line: LineView|
            news_lines(user_ref, event, rest).contains(line) implies cache.lines.contains(line) by {
            assert(news_lines(user_ref, event, approvals).contains(line));
        }
        assert(turns.drop_last() == turns.take(turns.len() - 1));
        lemma_calm_prefix(turns, turns.len() - 1);
        lemma_remembered_news_is_silent(user, user_ref, event, rest, cache, turns.drop_last());
        let before = handled(user, user_ref, event, rest, turns.drop_last(), Some(cache)).cache->0;
        assert(turns.last() == turns[turns.len() - 1]);
        if is_news(approvals.last()) {
            let line = line_of(user_ref, event, approvals.last());
            assert(news_lines(user_ref, event, approvals).contains(line));
            assert(cache.lines.contains(line));
            assert(before.lines.contains(line));
            assert(before.lines.skip(0) == before.lines);
            assert(before.without_oldest(0) == before);
            lemma_used(before, line);
        }
    }
}

/// The cache after `lines` were remembered one after the other.
pub open spec fn remembered_all(
    cache: CacheView,
    lines: Seq<LineView>,
    expired: Seq<nat>,
) -> CacheView
    decreases lines.len(),
{
    if lines.len() == 0 {
        cache
    } else {
        remembered_all(cache, lines.drop_last(), expired.drop_last()).remembered(
            lines.last(),
            expired.last(),
        )
    }
}

/// Whether the clock can make `expired` lines expire while `lines` are remembered.
pub open spec fn can_expire_all(cache: CacheView, lines: Seq<LineView>, expired: Seq<nat>) -> bool
    decreases lines.len(),
{
    expired.len() == lines.len() && (lines.len() > 0 ==> {
        &&& can_expire_all(cache, lines.drop_last(), expired.drop_last())
        &&& remembered_all(cache, lines.drop_last(), expired.drop_last()).can_expire(expired.last())
    })
}

/// A line is forgotten once as many new lines were remembered as the cache has room for.
pub proof fn law_a_full_round_forgets(
    cache: CacheView,
    line: LineView,
    lines: Seq<LineView>,
    expired: Seq<nat>,
)
    requires
        cache.wf(),
        cache.capacity > 0,
        cache.lines.contains(line),
        lines.len() >= cache.capacity,
        lines.no_duplicates(),
        forall|i: int| 0 <= i < lines.len() ==> !cache.lines.contains(#[trigger] lines[i]),
        can_expire_all(cache, lines, expired),
    ensures
        !remembered_all(cache, lines, expired).lines.contains(line),
{
    lemma_remembered_all(cache, lines, expired);
    let after = remembered_all(cache, lines, expired);
    let d = choose|d: int|
        0 <= d <= (cache.lines + lines).len() && after.lines == #[trigger] (cache.lines
            + lines).skip(d);
    if after.lines.contains(line) {
        let j = choose|j: int| 0 <= j < after.lines.len() && after.lines[j] == line;
        assert((cache.lines + lines)[d + j] == line);
        assert(d + j >= cache.lines.len());
        assert(lines[d + j - cache.lines.len()] == line);
    }
}

proof fn lemma_remembered_all(cache: CacheView, lines: Seq<LineView>, expired: Seq<nat>)
    requires
        cache.wf(),
        cache.capacity > 0,
        lines.no_duplicates(),
        forall|i: int| 0 <= i < lines.len() ==> !cache.lines.contains(#[trigger] lines[i]),
        can_expire_all(cache, lines, expired),
    ensures
        ({
            let after = remembered_all(cache, lines, expired);
            &&& after.capacity == cache.capacity
            &&& after.lines.len() <= cache.capacity
            &&& exists|d: int|
                0 <= d <= (cache.lines + lines).len() && after.lines == #[trigger] (cache.lines
                    + lines).skip(d)
        }),
    decreases lines.len(),
{
    if lines.len() == 0 {
        assert((cache.lines + lines).skip(0) == cache.lines);
    } else {
        let rest = lines.drop_last();
        let n = rest.len() as int;
        lemma_remembered_all(cache, rest, expired.drop_last());
        let before = remembered_all(cache, rest, expired.drop_last());
        let d = choose|d: int|
            0 <= d <= (cache.lines + rest).len() && before.lines == #[trigger] (cache.lines
                + rest).skip(d);
        let line = lines.last();
        assert(line == lines[n]);
        if before.lines.contains(line) {
            let j = choose|j: int| 0 <= j < before.lines.len() && before.lines[j] == line;
            assert((cache.lines + rest)[d + j] == line);
            if d + j < cache.lines.len() {
                assert(cache.lines[d + j] == line);
                assert(cache.lines.contains(lines[n]));
            } else {
                assert(lines[d + j - cache.lines.len()] == line);
            }
            assert(false);
        }
        let dropped: int = if expired.last() == 0 && before.lines.len() == before.capacity {
            1
        } else {
            expired.last() as int
        };
        let after = remembered_all(cache, lines, expired);
        assert(after.lines == before.lines.skip(dropped).push(line));
        assert(after.lines == (cache.lines + lines).skip(d + dropped));
    }
}

} // verus!
