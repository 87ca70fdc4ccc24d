//! Laws on the commands of users and on their filters.
use vstd::prelude::*;
use crate::bot::{
    filter_of, is_enabled, with_enabled, with_filter, with_switched_filter, Bot, BotView,
};
use crate::outside::regex_is_valid;
use crate::update::{can_update, filter_status_text, Action, OutcomeView, ResponseView, TaskView};
use crate::users::{
    filtered, find, has_id, lemma_position, lemma_position_at, AddFilterResult, FilterView,
    User, UserView,
};

verus! {

/// No two users have the same identifier.
pub open spec fn distinct_ids(users: Seq<UserView>) -> bool {
    forall|i: int, j: int|
        0 <= i < j < users.len() ==> (#[trigger] users[i]).person_id != (
        #[trigger] users[j]).person_id
}

/// Users keep their positions, identifiers and addresses.
pub open spec fn keeps_users(before: Seq<UserView>, after: Seq<UserView>) -> bool {
    before.len() <= after.len() && forall|i: int|
        0 <= i < before.len() ==> (#[trigger] after[i]).person_id == before[i].person_id
            && after[i].email == before[i].email
}

/// The person who gave a command.
pub open spec fn sender(action: Action) -> Option<Seq<char>> {
    match action {
        Action::Enable(id, _) => Some(id@),
        Action::Disable(id, _) => Some(id@),
        Action::Help(id) => Some(id@),
        Action::Unknown(id) => Some(id@),
        Action::Status(id) => Some(id@),
        Action::FilterStatus(id) => Some(id@),
        Action::FilterAdd(id, _) => Some(id@),
        Action::FilterEnable(id) => Some(id@),
        Action::FilterDisable(id) => Some(id@),
        Action::UpdateApprovals(_) => None,
        Action::NoOp => None,
    }
}

/// The message of a task.
pub open spec fn response_of(task: TaskView) -> ResponseView {
    match task {
        TaskView::Reply(response) => response,
        TaskView::ReplyAndSave(response) => response,
    }
}

/// The address of a person.
pub open spec fn address_of(users: Seq<UserView>, person_id: Seq<char>) -> Option<Seq<char>> {
    match find(users, person_id) {
        Some(i) => Some(users[i].email),
        None => None,
    }
}

/// The bot never removes, moves, renames or readdresses a user, so that a position among the
/// users stays the position of the same user.
pub proof fn law_users_stay(
    action: Action,
    before: BotView,
    after: BotView,
    outcome: OutcomeView,
)
    requires
        can_update(action, before, after, outcome),
    ensures
        keeps_users(before.users, after.users),
        after.users.len() <= before.users.len() + 1,
{
    if let Some(id) = sender(action) {
        lemma_position(before.users, has_id(id));
    }
}

/// The identifiers of users stay distinct.
pub proof fn law_ids_stay_distinct(
    action: Action,
    before: BotView,
    after: BotView,
    outcome: OutcomeView,
)
    requires
        can_update(action, before, after, outcome),
        distinct_ids(before.users),
    ensures
        distinct_ids(after.users),
{
    law_users_stay(action, before, after, outcome);
    if let Some(id) = sender(action) {
        lemma_position(before.users, has_id(id));
        assert forall|i: int, j: int| 0 <= i < j < after.users.len() implies (
        #[trigger] after.users[i]).person_id != (#[trigger] after.users[j]).person_id by {
            assert(after.users[i].person_id == before.users[i].person_id);
            if j < before.users.len() {
                assert(after.users[j].person_id == before.users[j].person_id);
            } else {
                assert(!has_id(id)(before.users[i]));
            }
        }
    }
}

/// Whatever is worth saving is saved: if the task is not to save, the users are unchanged.
pub proof fn law_changes_are_saved(
    action: Action,
    before: BotView,
    after: BotView,
    outcome: OutcomeView,
)
    requires
        can_update(action, before, after, outcome),
        !(outcome matches OutcomeView::Done(Some(TaskView::ReplyAndSave(_)))),
    ensures
        after.users == before.users,
{
    if let Some(id) = sender(action) {
        lemma_position(before.users, has_id(id));
        assert(after.users =~= before.users);
    }
}

/// Every command is answered, to the person who gave it, and does not touch the cache.
pub proof fn law_commands_are_answered(
    action: Action,
    before: BotView,
    after: BotView,
    outcome: OutcomeView,
)
    requires
        can_update(action, before, after, outcome),
        sender(action) is Some,
    ensures
        outcome matches OutcomeView::Done(Some(task)) && response_of(task).person_id == sender(
            action,
        )->0,
        after.cache == before.cache,
{
    if action is FilterStatus {
        let r = filter_of(before.users, sender(action)->0);
        reveal_strlit("The following filter is configured for you: `");
        reveal_strlit("No filter is configured for you.");
        reveal_strlit(
            "Notification for you are disabled. Please enable notifications first, and then add a filter.",
        );
        assert(filter_status_text(r).len() > 0);
    }
}

/// Questions change nothing, and neither does doing nothing.
pub proof fn law_questions_change_nothing(
    action: Action,
    before: BotView,
    after: BotView,
    outcome: OutcomeView,
)
    requires
        can_update(action, before, after, outcome),
        action is Help || action is Unknown || action is Status || action is FilterStatus
            || action is NoOp,
    ensures
        after == before,
        action is NoOp ==> outcome == OutcomeView::Done(None),
{
}

/// A command concerns nobody but the person who gave it.
pub proof fn law_commands_concern_the_sender(
    action: Action,
    before: BotView,
    after: BotView,
    outcome: OutcomeView,
    i: int,
)
    requires
        can_update(action, before, after, outcome),
        0 <= i < before.users.len(),
        sender(action) != Some(before.users[i].person_id),
    ensures
        after.users[i] == before.users[i],
{
    if let Some(id) = sender(action) {
        lemma_position(before.users, has_id(id));
    }
}

/// Switching notifications on or off has effect at once, and the last switch counts. The address
/// that a person is first added with stays, whatever address comes with a later switch, and so
/// does the filter of a known user.
pub proof fn law_the_last_switch_counts(
    users: Seq<UserView>,
    person_id: Seq<char>,
    email: Seq<char>,
    enabled: bool,
    email_again: Seq<char>,
    again: bool,
)
    ensures
        is_enabled(with_enabled(users, person_id, email, enabled), person_id) == enabled,
        with_enabled(
            with_enabled(users, person_id, email, enabled),
            person_id,
            email_again,
            again,
        ) == with_enabled(users, person_id, email, again),
        address_of(with_enabled(users, person_id, email, enabled), person_id) == Some(
            match address_of(users, person_id) {
                Some(address) => address,
                None => email,
            },
        ),
        find(users, person_id) is Some ==> filter_of(
            with_enabled(users, person_id, email, enabled),
            person_id,
        ) == filter_of(users, person_id),
        find(users, person_id) is None ==> filter_of(
            with_enabled(users, person_id, email, enabled),
            person_id,
        ) == Ok::<Option<FilterView>, AddFilterResult>(None),
{
    let after = with_enabled(users, person_id, email, enabled);
    lemma_position(users, has_id(person_id));
    let i = match find(users, person_id) {
        Some(i) => i,
        None => users.len() as int,
    };
    lemma_found_at(after, users, person_id, i);
    assert(with_enabled(after, person_id, email_again, again) =~= with_enabled(
        users,
        person_id,
        email,
        again,
    ));
}

/// Users that agree with `before` up to position `i`, where `person_id` is first found.
proof fn lemma_found_at(
    after: Seq<UserView>,
    before: Seq<UserView>,
    person_id: Seq<char>,
    i: int,
)
    requires
        0 <= i < after.len(),
        i <= before.len(),
        after[i].person_id == person_id,
        forall|j: int| 0 <= j < i ==> #[trigger] after[j] == before[j],
        forall|j: int| 0 <= j < i ==> !has_id(person_id)(#[trigger] before[j]),
    ensures
        find(after, person_id) == Some(i),
{
    assert forall|j: int| 0 <= j < i implies !has_id(person_id)(#[trigger] after[j]) by {
        assert(after[j] == before[j]);
    }
    lemma_position_at(after, has_id(person_id), i);
}

/// A filter that was accepted is the filter of that person, and is enabled; one that was refused
/// changes nothing. It is accepted if and only if notifications are on for the person and the
/// expression is valid.
pub proof fn law_an_added_filter_is_read_back(
    users: Seq<UserView>,
    person_id: Seq<char>,
    regex: Seq<char>,
)
    ensures
        ({
            let (after, r) = with_filter(users, person_id, regex);
            &&& r is Ok <==> is_enabled(users, person_id) && regex_is_valid(regex)
            &&& r is Ok ==> filter_of(after, person_id) == Ok::<
                Option<FilterView>,
                AddFilterResult,
            >(Some(FilterView { regex: regex, enabled: true }))
            &&& r is Err ==> after == users
            &&& r != Err::<(), AddFilterResult>(AddFilterResult::FilterNotConfigured)
        }),
{
    let (after, r) = with_filter(users, person_id, regex);
    lemma_position(users, has_id(person_id));
    match find(users, person_id) {
        Some(i) => {
            lemma_found_at(after, users, person_id, i);
            if r is Err {
                assert(after =~= users);
            }
        },
        None => {},
    }
}

/// Giving or switching a filter changes nothing of anybody but the filter: identifiers, addresses
/// and the switches of notifications stay, and so do the filters of everybody else.
pub proof fn law_filters_change_nothing_else(
    users: Seq<UserView>,
    person_id: Seq<char>,
    regex: Seq<char>,
    enabled: bool,
    anybody: Seq<char>,
    i: int,
)
    requires
        0 <= i < users.len(),
    ensures
        ({
            let given = with_filter(users, person_id, regex).0;
            let switched = with_switched_filter(users, person_id, enabled).0;
            &&& given.len() == users.len()
            &&& given[i].person_id == users[i].person_id
            &&& given[i].email == users[i].email
            &&& given[i].enabled == users[i].enabled
            &&& users[i].person_id != person_id ==> given[i].filter == users[i].filter
            &&& is_enabled(given, anybody) == is_enabled(users, anybody)
            &&& switched.len() == users.len()
            &&& switched[i].person_id == users[i].person_id
            &&& switched[i].email == users[i].email
            &&& switched[i].enabled == users[i].enabled
            &&& users[i].person_id != person_id ==> switched[i].filter == users[i].filter
            &&& is_enabled(switched, anybody) == is_enabled(users, anybody)
        }),
{
    let given = with_filter(users, person_id, regex).0;
    let switched = with_switched_filter(users, person_id, enabled).0;
    lemma_position(users, has_id(person_id));
    lemma_same_switches(users, given, anybody);
    lemma_same_switches(users, switched, anybody);
}

/// Users with the same identifiers and switches are found, and told, alike.
proof fn lemma_same_switches(users: Seq<UserView>, after: Seq<UserView>, person_id: Seq<char>)
    requires
        after.len() == users.len(),
        forall|j: int|
            0 <= j < users.len() ==> (#[trigger] after[j]).person_id == users[j].person_id
                && after[j].enabled == users[j].enabled,
    ensures
        is_enabled(after, person_id) == is_enabled(users, person_id),
{
    lemma_position(users, has_id(person_id));
    lemma_position(after, has_id(person_id));
    match find(users, person_id) {
        Some(i) => {
            assert(after[i].person_id == users[i].person_id);
            assert forall|j: int| 0 <= j < i implies !has_id(person_id)(#[trigger] after[j]) by {
                assert(!has_id(person_id)(users[j]));
            }
            lemma_position_at(after, has_id(person_id), i);
        },
        None => {
            if let Some(j) = find(after, person_id) {
                assert(has_id(person_id)(after[j]));
                assert(!has_id(person_id)(users[j]));
            }
        },
    }
}

/// Switching a filter keeps its expression and returns it; switching it back restores it; a
/// switch that was refused changes nothing.
pub proof fn law_a_filter_is_switched_back(
    users: Seq<UserView>,
    person_id: Seq<char>,
    enabled: bool,
)
    ensures
        ({
            let (after, r) = with_switched_filter(users, person_id, enabled);
            &&& r is Err ==> after == users
            &&& r matches Ok(regex) ==> {
                &&& filter_of(users, person_id) matches Ok(Some(filter))
                &&& filter.regex == regex
                &&& filter_of(after, person_id) == Ok::<Option<FilterView>, AddFilterResult>(
                    Some(FilterView { regex: regex, enabled: enabled }),
                )
                &&& with_switched_filter(after, person_id, filter.enabled) == (
                    users,
                    Ok::<Seq<char>, AddFilterResult>(regex),
                )
            }
        }),
{
    let (after, r) = with_switched_filter(users, person_id, enabled);
    lemma_position(users, has_id(person_id));
    match find(users, person_id) {
        Some(i) => {
            lemma_found_at(after, users, person_id, i);
            if r is Err {
                assert(after =~= users);
            } else {
                let filter = users[i].filter->0;
                assert(with_switched_filter(after, person_id, filter.enabled).0 =~= users);
            }
        },
        None => {},
    }
}

/// A filter that is switched off, or whose expression is not valid, keeps no message back.
pub proof fn law_a_filter_can_be_idle(user: UserView, message: Seq<char>)
    requires
        user.filter matches Some(filter) ==> !filter.enabled || !regex_is_valid(filter.regex),
    ensures
        !filtered(user, message),
{
}

/// A bot that is made from the users of another one has the same users, and no cache.
pub proof fn law_saved_users_come_back(saved: Bot, users: Vec<User>, loaded: Bot)
    requires
        call_ensures(Bot::into_users, (saved,), users),
        call_ensures(Bot::from_users, (users,), loaded),
    ensures
        loaded@.users == saved@.users,
        loaded@.cache is None,
{
}

} // verus!
