//! The parts of a Gerrit event that decide who is told about it, and what.
use vstd::prelude::*;
use crate::text::opt_text;

verus! {

/// Somebody with a Gerrit account.
#[derive(Debug, Clone)]
pub struct Account {
    pub username: String,
    pub email: Option<String>,
}

/// One vote of a review, with the vote that it replaces, if there was one.
#[derive(Debug, Clone)]
pub struct Approval {
    pub approval_type: String,
    pub value: String,
    pub old_value: Option<String>,
}

/// The change under review.
#[derive(Debug, Clone)]
pub struct Change {
    pub subject: String,
    pub topic: Option<String>,
    pub url: String,
    pub owner: Account,
}

/// An event of the Gerrit stream.
#[derive(Debug, Clone)]
pub struct Event {
    pub author: Option<Account>,
    pub approvals: Option<Vec<Approval>>,
    pub comment: Option<String>,
    pub change: Change,
}

/// What an [`Account`] holds.
pub struct AccountView {
    pub username: Seq<char>,
    pub email: Option<Seq<char>>,
}

/// What an [`Approval`] holds.
pub struct ApprovalView {
    pub approval_type: Seq<char>,
    pub value: Seq<char>,
    pub old_value: Option<Seq<char>>,
}

/// What a [`Change`] holds.
pub struct ChangeView {
    pub subject: Seq<char>,
    pub topic: Option<Seq<char>>,
    pub url: Seq<char>,
    pub owner: AccountView,
}

/// What an [`Event`] holds.
pub struct EventView {
    pub author: Option<AccountView>,
    pub approvals: Option<Seq<ApprovalView>>,
    pub comment: Option<Seq<char>>,
    pub change: ChangeView,
}

impl View for Account {
    type V = AccountView;

    open spec fn view(&self) -> AccountView {
        AccountView { username: self.username@, email: opt_text(self.email) }
    }
}

impl View for Approval {
    type V = ApprovalView;

    open spec fn view(&self) -> ApprovalView {
        ApprovalView {
            approval_type: self.approval_type@,
            value: self.value@,
            old_value: opt_text(self.old_value),
        }
    }
}

impl View for Change {
    type V = ChangeView;

    open spec fn view(&self) -> ChangeView {
        ChangeView {
            subject: self.subject@,
            topic: opt_text(self.topic),
            url: self.url@,
            owner: self.owner@,
        }
    }
}

/// What the approvals of a list hold.
pub open spec fn approval_views(approvals: Seq<Approval>) -> Seq<ApprovalView> {
    approvals.map_values(|a: Approval| a@)
}

impl View for Event {
    type V = EventView;

    open spec fn view(&self) -> EventView {
        EventView {
            author: match self.author {
                Some(author) => Some(author@),
                None => None,
            },
            approvals: match self.approvals {
                Some(approvals) => Some(approval_views(approvals@)),
                None => None,
            },
            comment: opt_text(self.comment),
            change: self.change@,
        }
    }
}

} // verus!
