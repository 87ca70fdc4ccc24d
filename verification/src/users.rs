//! The users of the bot and their filters.
use vstd::prelude::*;
use crate::outside::{regex_is_valid, regex_matches};
use crate::spark::{Email, PersonId};

verus! {

/// A regular expression that keeps messages from a user.
#[derive(Debug, Clone, PartialEq)]
pub struct Filter {
    pub regex: String,
    pub enabled: bool,
}

/// What a [`Filter`] holds.
pub struct FilterView {
    pub regex: Seq<char>,
    pub enabled: bool,
}

impl View for Filter {
    type V = FilterView;

    open spec fn view(&self) -> FilterView {
        FilterView { regex: self.regex@, enabled: self.enabled }
    }
}

impl Default for Filter {
    fn default() -> (filter: Self)
        ensures
            filter@ == (FilterView { regex: Seq::<char>::empty(), enabled: false }),
    {
        Filter { regex: String::new(), enabled: false }
    }
}

impl Filter {
    /// An enabled filter.
    pub fn new<A: Into<String>>(regex: A) -> (filter: Self)
        ensures
            call_ensures(A::into, (regex,), filter.regex),
            filter.enabled,
    {
        Self { regex: regex.into(), enabled: true }
    }
}

/// Somebody who talks to the bot.
#[derive(Debug, Clone)]
pub struct User {
    pub spark_person_id: PersonId,
    /// email of the user; assumed to be the same in Spark and Gerrit
    pub email: Email,
    pub enabled: bool,
    pub filter: Option<Filter>,
}

/// What a [`User`] holds.
pub struct UserView {
    pub person_id: Seq<char>,
    pub email: Seq<char>,
    pub enabled: bool,
    pub filter: Option<FilterView>,
}

/// What an optional filter holds.
pub open spec fn opt_filter(filter: Option<Filter>) -> Option<FilterView> {
    match filter {
        Some(filter) => Some(filter@),
        None => None,
    }
}

impl View for User {
    type V = UserView;

    open spec fn view(&self) -> UserView {
        UserView {
            person_id: self.spark_person_id@,
            email: self.email@,
            enabled: self.enabled,
            filter: opt_filter(self.filter),
        }
    }
}

/// Why a filter could not be changed.
#[derive(Debug, PartialEq)]
pub enum AddFilterResult {
    UserNotFound,
    UserDisabled,
    InvalidFilter,
    FilterNotConfigured,
}

/// A user who was just added: enabled, and without a filter.
pub open spec fn new_user(person_id: Seq<char>, email: Seq<char>) -> UserView {
    UserView { person_id: person_id, email: email, enabled: true, filter: None }
}

/// A user to whom the filter `regex` is given, and the answer. Only an enabled user gets it, and
/// only if the expression is valid; it is then enabled.
pub open spec fn given_filter(user: UserView, regex: Seq<char>, valid: bool) -> (
    UserView,
    Result<(), AddFilterResult>,
) {
    if !user.enabled {
        (user, Err(AddFilterResult::UserDisabled))
    } else if !valid {
        (user, Err(AddFilterResult::InvalidFilter))
    } else {
        (
            UserView { filter: Some(FilterView { regex: regex, enabled: true }), ..user },
            Ok(()),
        )
    }
}

/// A user whose filter is switched on or off, and the answer: the expression of the filter. Only
/// the filter of an enabled user is switched, and only if its expression is valid.
pub open spec fn switched_filter(user: UserView, enabled: bool, valid: bool) -> (
    UserView,
    Result<Seq<char>, AddFilterResult>,
) {
    if !user.enabled {
        (user, Err(AddFilterResult::UserDisabled))
    } else {
        match user.filter {
            None => (user, Err(AddFilterResult::FilterNotConfigured)),
            Some(filter) => if !valid {
                (user, Err(AddFilterResult::InvalidFilter))
            } else {
                (
                    UserView { filter: Some(FilterView { enabled: enabled, ..filter }), ..user },
                    Ok(filter.regex),
                )
            },
        }
    }
}

/// What a result with a text holds.
pub open spec fn text_result(r: Result<String, AddFilterResult>) -> Result<
    Seq<char>,
    AddFilterResult,
> {
    match r {
        Ok(text) => Ok(text@),
        Err(e) => Err(e),
    }
}

/// Whether the filter of `user` keeps `message` back: it is enabled, valid, and matches.
pub open spec fn filtered(user: UserView, message: Seq<char>) -> bool {
    match user.filter {
        Some(filter) => filter.enabled && regex_is_valid(filter.regex) && regex_matches(
            filter.regex,
            message,
        ),
        None => false,
    }
}

impl User {
    pub fn new<A: Into<String>>(person_id: A, email: A) -> (user: Self)
        ensures
            call_ensures(A::into, (person_id,), user.spark_person_id),
            call_ensures(A::into, (email,), user.email),
            user.enabled,
            user.filter is None,
    {
        Self {
            spark_person_id: person_id.into(),
            email: email.into(),
            filter: None,
            enabled: true,
        }
    }

    /// Gives this user the filter `filter`, of which the caller knows whether it is valid.
    pub fn give_filter(&mut self, filter: String, valid: bool) -> (r: Result<(), AddFilterResult>)
        ensures
            (final(self)@, r) == given_filter(old(self)@, filter@, valid),
    {
        if !self.enabled {
            Err(AddFilterResult::UserDisabled)
        } else if !valid {
            Err(AddFilterResult::InvalidFilter)
        } else {
            self.filter = Some(Filter::new(filter));
            Ok(())
        }
    }

    /// Switches the filter of this user on or off; the caller knows whether it is valid.
    pub fn switch_filter(&mut self, enabled: bool, valid: bool) -> (r: Result<
        String,
        AddFilterResult,
    >)
        ensures
            (final(self)@, text_result(r)) == switched_filter(old(self)@, enabled, valid),
    {
        if !self.enabled {
            return Err(AddFilterResult::UserDisabled);
        }
        match self.filter.as_mut() {
            Some(filter) => {
                if !valid {
                    return Err(AddFilterResult::InvalidFilter);
                }
                filter.enabled = enabled;
                Ok(filter.regex.clone())
            },
            None => Err(AddFilterResult::FilterNotConfigured),
        }
    }

    /// Whether the filter of this user keeps a message back on which the search for its
    /// expression ended with `found`; `None` stands for an invalid expression.
    pub fn keeps_back(&self, found: Option<bool>) -> (r: bool)
        ensures
            r == (self@.filter is Some && self@.filter->0.enabled && found == Some(true)),
    {
        match &self.filter {
            Some(filter) => filter.enabled && match found {
                Some(found) => found,
                None => false,
            },
            None => false,
        }
    }
}

/// What the users of a list hold.
pub open spec fn user_views(users: Seq<User>) -> Seq<UserView> {
    users.map_values(|u: User| u@)
}

/// The position of the first user that `wanted` accepts.
pub open spec fn position(users: Seq<UserView>, wanted: spec_fn(UserView) -> bool) -> Option<int>
    decreases users.len(),
{
    if users.len() == 0 {
        None
    } else if wanted(users[0]) {
        Some(0)
    } else {
        match position(users.drop_first(), wanted) {
            Some(i) => Some(i + 1),
            None => None,
        }
    }
}

/// Accepts the users with the identifier `person_id`.
pub open spec fn has_id(person_id: Seq<char>) -> spec_fn(UserView) -> bool {
    |u: UserView| u.person_id == person_id
}

/// Accepts the users who are to be told about changes of the owner with the address `email`.
pub open spec fn listens_at(email: Seq<char>) -> spec_fn(UserView) -> bool {
    |u: UserView| u.enabled && u.email == email
}

/// The position of the user with the identifier `person_id`.
pub open spec fn find(users: Seq<UserView>, person_id: Seq<char>) -> Option<int> {
    position(users, has_id(person_id))
}

/// [`position`] is the position of an accepted user before whom no user is accepted; it is
/// `None` if no user is accepted at all.
pub proof fn lemma_position(users: Seq<UserView>, wanted: spec_fn(UserView) -> bool)
    ensures
        match position(users, wanted) {
            Some(i) => 0 <= i < users.len() && wanted(users[i]) && forall|j: int|
                0 <= j < i ==> !wanted(#[trigger] users[j]),
            None => forall|j: int| 0 <= j < users.len() ==> !wanted(#[trigger] users[j]),
        },
    decreases users.len(),
{
    if users.len() > 0 && !wanted(users[0]) {
        let rest = users.drop_first();
        lemma_position(rest, wanted);
        match position(rest, wanted) {
            Some(i) => {
                assert forall|j: int| 0 <= j < i + 1 implies !wanted(#[trigger] users[j]) by {
                    if j > 0 {
                        assert(users[j] == rest[j - 1]);
                    }
                }
            },
            None => {
                assert forall|j: int| 0 <= j < users.len() implies !wanted(#[trigger] users[j]) by {
                    if j > 0 {
                        assert(users[j] == rest[j - 1]);
                    }
                }
            },
        }
    }
}

/// The position of an accepted user before whom no user is accepted is [`position`].
pub proof fn lemma_position_at(users: Seq<UserView>, wanted: spec_fn(UserView) -> bool, i: int)
    requires
        0 <= i < users.len(),
        wanted(users[i]),
        forall|j: int| 0 <= j < i ==> !wanted(#[trigger] users[j]),
    ensures
        position(users, wanted) == Some(i),
{
    lemma_position(users, wanted);
}

} // verus!
