//! The handling of an event, which pauses where the formatting script is asked.
//!
//! [`Stage`] is how far it got without the script: to a question, or to the end. What is left to
//! do after a question is kept in a [`Pending`], with which the handling goes on once the script
//! has answered.
use vstd::prelude::*;
use crate::cache::CacheView;
use crate::gerrit::{ApprovalView, Event, EventView};
use crate::notify::{
    can_note, extended, is_news, is_repeated, line_of, noted, notice, question_about, recipient,
    Notice, Question, QuestionView, Turn,
};
use crate::text::texts;
use crate::users::{User, UserView};

verus! {

/// An event that waits for the answer about one of its approvals.
#[derive(Debug)]
pub struct Pending {
    /// position of the user who is told
    pub user_ref: usize,
    pub event: Event,
    /// how many approvals were handled; the next one was asked about
    pub done: usize,
    /// the messages about them
    pub messages: Vec<String>,
}

/// What a [`Pending`] holds.
#[verifier::ext_equal]
pub struct PendingView {
    pub user_ref: usize,
    pub event: EventView,
    pub done: nat,
    pub messages: Seq<Seq<char>>,
}

impl View for Pending {
    type V = PendingView;

    open spec fn view(&self) -> PendingView {
        PendingView {
            user_ref: self.user_ref,
            event: self.event@,
            done: self.done as nat,
            messages: texts(self.messages@),
        }
    }
}

impl PendingView {
    /// The approvals of the event.
    pub open spec fn approvals(self) -> Seq<ApprovalView> {
        self.event.approvals->0
    }

    /// There are a user to tell and approvals by somebody.
    pub open spec fn wf(self, users: Seq<UserView>) -> bool {
        &&& self.user_ref < users.len()
        &&& self.event.author is Some
        &&& self.event.approvals is Some
        &&& self.done <= self.approvals().len()
    }

    /// One of the approvals waits for an answer.
    pub open spec fn fits(self, users: Seq<UserView>) -> bool {
        self.wf(users) && self.done < self.approvals().len()
    }

    /// There is news among the approvals that were not handled yet.
    pub open spec fn has_news(self) -> bool {
        exists|i: int|
            self.done <= i < self.approvals().len() && is_news(#[trigger] self.approvals()[i])
    }

    /// The next approval was handled without a message.
    pub open spec fn passed(self) -> PendingView {
        PendingView { done: self.done + 1, ..self }
    }

    /// The script gave `answer` about the next approval.
    pub open spec fn answered(self, user: UserView, answer: Seq<char>) -> PendingView {
        PendingView { messages: extended(user, self.messages, answer), ..self.passed() }
    }
}

/// An event of which no approval was handled yet, and the user who is told about it.
pub open spec fn fresh(user_ref: usize, event: EventView) -> PendingView {
    PendingView { user_ref: user_ref, event: event, done: 0, messages: Seq::empty() }
}

/// How far the handling of an event got.
pub enum Stage<'a> {
    /// The script is asked, and the handling goes on with its answer.
    Ask(Pending, Question),
    /// The event was handled: the user who is told, and the text, if there is one.
    Told(Option<(&'a User, String)>),
}

/// What a [`Stage`] holds.
pub enum StageView {
    Ask(PendingView, QuestionView),
    Told(Notice),
}

impl<'a> View for Stage<'a> {
    type V = StageView;

    open spec fn view(&self) -> StageView {
        match self {
            Stage::Ask(pending, question) => StageView::Ask(pending@, question@),
            Stage::Told(Some((user, text))) => StageView::Told(Some((user@, text@))),
            Stage::Told(None) => StageView::Told(None),
        }
    }
}

/// Whether the handling of `pending` can get to `stage` without the script, and leave the cache
/// as `cache_after`: approvals that are no news, or were told already, are passed over, and the
/// first other one is asked about.
pub open spec fn can_proceed(
    users: Seq<UserView>,
    pending: PendingView,
    cache: Option<CacheView>,
    stage: StageView,
    cache_after: Option<CacheView>,
) -> bool
    decreases pending.approvals().len() - pending.done,
{
    if pending.done >= pending.approvals().len() {
        &&& stage == StageView::Told(notice(users[pending.user_ref as int], pending.messages))
        &&& cache_after == cache
    } else {
        let approval = pending.approvals()[pending.done as int];
        let line = line_of(pending.user_ref, pending.event, approval);
        if !is_news(approval) {
            can_proceed(users, pending.passed(), cache, stage, cache_after)
        } else {
            exists|turn: Turn| #[trigger]
                can_note(cache, line, turn) && if is_repeated(cache, line, turn) {
                    can_proceed(
                        users,
                        pending.passed(),
                        noted(cache, line, turn),
                        stage,
                        cache_after,
                    )
                } else {
                    &&& stage == StageView::Ask(pending, question_about(pending.event, approval))
                    &&& cache_after == noted(cache, line, turn)
                }
        }
    }
}

/// Whether the handling of `event` can first get to `stage`, and leave the cache as
/// `cache_after`.
pub open spec fn can_begin(
    users: Seq<UserView>,
    event: EventView,
    cache: Option<CacheView>,
    stage: StageView,
    cache_after: Option<CacheView>,
) -> bool {
    match recipient(users, event) {
        None => stage == StageView::Told(None) && cache_after == cache,
        Some(pos) => can_proceed(users, fresh(pos as usize, event), cache, stage, cache_after),
    }
}

/// Whether the handling of `pending` can get to `stage` once the script has answered, and leave
/// the cache as `cache_after`.
pub open spec fn can_go_on(
    users: Seq<UserView>,
    pending: PendingView,
    answer: Seq<char>,
    cache: Option<CacheView>,
    stage: StageView,
    cache_after: Option<CacheView>,
) -> bool {
    can_proceed(
        users,
        pending.answered(users[pending.user_ref as int], answer),
        cache,
        stage,
        cache_after,
    )
}

} // verus!
