//! Laws on the single operations of the bot: what each call takes, gives and changes.
use vstd::prelude::*;
use crate::bot::Bot;
use crate::cache::Expiration;
use crate::laws::replies::{
    all_stay, is_filter_switched, is_first, is_given, is_switched, is_unknown, lemma_all_stay,
    lemma_first, lemma_one_more, lemma_others_stay, lemma_switched, lemma_unknown,
    lemma_with_filter, lemma_with_switched_filter, same_filter, same_user,
};
use crate::outside::{regex_is_valid, regex_matches};
use crate::text::decimal;
use crate::update::{
    reply_to_filter_add, reply_to_filter_disable, reply_to_filter_enable, reply_to_filter_status,
    Response, Task,
};
use crate::users::{
    find, has_id, lemma_position, lemma_position_at, user_views, AddFilterResult, Filter, User,
};

verus! {

/// A new bot has no users and no cache.
pub proof fn law_a_new_bot_is_empty(bot: Bot)
    requires
        call_ensures(Bot::new, (), bot),
    ensures
        bot.users@.len() == 0,
        bot.msg_cache is None,
{
    assert(user_views(bot.users@).len() == bot.users@.len());
}

/// A bot that is made with a cache has no users, and an empty cache with the limits asked for.
pub proof fn law_a_cache_has_its_limits(capacity: usize, expiration: Expiration, bot: Bot)
    requires
        call_ensures(Bot::with_msg_cache, (capacity, expiration), bot),
    ensures
        bot.users@.len() == 0,
        bot@.cache matches Some(cache) && cache.lines.len() == 0 && cache.capacity == capacity
            && cache.expiration == expiration,
{
    assert(user_views(bot.users@).len() == bot.users@.len());
}

/// A cache that is given to a bot is empty and has the limits asked for, whatever was remembered
/// before. The users stay.
pub proof fn law_a_given_cache_has_its_limits(
    bot: &mut Bot,
    capacity: usize,
    expiration: Expiration,
)
    requires
        call_ensures(Bot::init_msg_cache, (bot, capacity, expiration), ()),
    ensures
        all_stay(old(bot).users@, final(bot).users@),
        final(bot)@.cache matches Some(cache) && cache.lines.len() == 0 && cache.capacity
            == capacity && cache.expiration == expiration,
{
    lemma_all_stay(old(bot).users@, final(bot).users@);
}

/// The users of a bot are handed out and taken over one by one, in order.
pub proof fn law_users_are_handed_over(bot: Bot, users: Vec<User>, made: Bot)
    requires
        call_ensures(Bot::into_users, (bot,), users),
        call_ensures(Bot::from_users, (users,), made),
    ensures
        all_stay(bot.users@, users@),
        all_stay(users@, made.users@),
        made.msg_cache is None,
{
    lemma_all_stay(bot.users@, users@);
    lemma_all_stay(users@, made.users@);
}

/// A user who is added comes last, with notifications on and without a filter. What the caller
/// makes of that user is what the bot keeps.
pub proof fn law_a_user_is_added(bot: &mut Bot, person_id: &str, email: &str, user: &mut User)
    requires
        call_ensures(Bot::add_user, (bot, person_id, email), user),
    ensures
        old(user).spark_person_id@ == person_id@,
        old(user).email@ == email@,
        old(user).enabled,
        old(user).filter is None,
        ({
            let n = old(bot).users@.len() as int;
            &&& final(bot).users@.len() == n + 1
            &&& forall|j: int|
                0 <= j < n ==> same_user(#[trigger] final(bot).users@[j], old(bot).users@[j])
            &&& same_user(final(bot).users@[n], *final(user))
        }),
        final(bot)@.cache == old(bot)@.cache,
{
    let before = old(bot).users@;
    let after = final(bot).users@;
    assert(user_views(after).len() == after.len());
    assert(user_views(after)[before.len() as int] == after[before.len() as int]@);
    lemma_one_more(before, after);
}

/// The first user with an identifier is found; somebody unknown is added.
pub proof fn law_a_user_is_found_or_added(
    bot: &mut Bot,
    person_id: &str,
    email: &str,
    user: &mut User,
)
    requires
        call_ensures(Bot::find_or_add_user, (bot, person_id, email), user),
    ensures
        final(bot)@.cache == old(bot)@.cache,
        forall|i: int| #[trigger]
            is_first(old(bot).users@, person_id@, i) ==> {
                &&& same_user(*old(user), old(bot).users@[i])
                &&& final(bot).users@.len() == old(bot).users@.len()
                &&& same_user(final(bot).users@[i], *final(user))
                &&& forall|j: int|
                    0 <= j < old(bot).users@.len() && j != i ==> same_user(
                        #[trigger] final(bot).users@[j],
                        old(bot).users@[j],
                    )
            },
        is_unknown(old(bot).users@, person_id@) ==> {
            let n = old(bot).users@.len() as int;
            &&& old(user).spark_person_id@ == person_id@
            &&& old(user).email@ == email@
            &&& old(user).enabled
            &&& old(user).filter is None
            &&& final(bot).users@.len() == n + 1
            &&& forall|j: int|
                0 <= j < n ==> same_user(#[trigger] final(bot).users@[j], old(bot).users@[j])
            &&& same_user(final(bot).users@[n], *final(user))
        },
{
    let before = old(bot).users@;
    let after = final(bot).users@;
    assert(user_views(after).len() == after.len());
    assert forall|i: int| #[trigger] is_first(before, person_id@, i) implies {
        &&& same_user(*old(user), before[i])
        &&& after.len() == before.len()
        &&& same_user(after[i], *final(user))
        &&& forall|j: int|
            0 <= j < before.len() && j != i ==> same_user(#[trigger] after[j], before[j])
    } by {
        lemma_first(before, person_id@, i);
        assert(user_views(before)[i] == before[i]@);
        assert(user_views(after)[i] == after[i]@);
        lemma_others_stay(before, after, i);
    }
    if is_unknown(before, person_id@) {
        lemma_unknown(before, person_id@);
        assert(user_views(after)[before.len() as int] == after[before.len() as int]@);
        lemma_one_more(before, after);
    }
}

/// A search finds the first user with an identifier, and nobody if there is none.
pub proof fn law_the_first_user_is_found(bot: &Bot, person_id: &str, found: Option<&User>)
    requires
        call_ensures(Bot::find_user, (bot, person_id), found),
    ensures
        is_unknown(bot.users@, person_id@) ==> found is None,
        forall|i: int| #[trigger]
            is_first(bot.users@, person_id@, i) ==> found is Some && same_user(
                *found->0,
                bot.users@[i],
            ),
{
    if is_unknown(bot.users@, person_id@) {
        lemma_unknown(bot.users@, person_id@);
    }
    assert forall|i: int| #[trigger] is_first(bot.users@, person_id@, i) implies found is Some
        && same_user(*found->0, bot.users@[i]) by {
        lemma_first(bot.users@, person_id@, i);
        assert(user_views(bot.users@)[i] == bot.users@[i]@);
    }
}

/// A search for a user to change finds the first one with an identifier. What the caller makes of
/// that user is what the bot keeps, and everybody else stays.
pub proof fn law_the_first_user_can_be_changed(
    bot: &mut Bot,
    person_id: &str,
    found: Option<&mut User>,
)
    requires
        call_ensures(Bot::find_user_mut, (bot, person_id), found),
    ensures
        is_unknown(old(bot).users@, person_id@) ==> found is None && all_stay(
            old(bot).users@,
            final(bot).users@,
        ),
        final(bot)@.cache == old(bot)@.cache,
        forall|i: int| #[trigger]
            is_first(old(bot).users@, person_id@, i) ==> {
                &&& found matches Some(user) && same_user(*user, old(bot).users@[i]) && same_user(
                    final(bot).users@[i],
                    *final(user),
                )
                &&& final(bot).users@.len() == old(bot).users@.len()
                &&& forall|j: int|
                    0 <= j < old(bot).users@.len() && j != i ==> same_user(
                        #[trigger] final(bot).users@[j],
                        old(bot).users@[j],
                    )
            },
{
    let before = old(bot).users@;
    let after = final(bot).users@;
    assert(user_views(after).len() == after.len());
    if is_unknown(before, person_id@) {
        lemma_unknown(before, person_id@);
        lemma_all_stay(before, after);
    }
    assert forall|i: int| #[trigger] is_first(before, person_id@, i) implies {
        &&& found matches Some(user) && same_user(*user, before[i]) && same_user(
            after[i],
            *final(user),
        )
        &&& after.len() == before.len()
        &&& forall|j: int|
            0 <= j < before.len() && j != i ==> same_user(#[trigger] after[j], before[j])
    } by {
        lemma_first(before, person_id@, i);
        assert(user_views(before)[i] == before[i]@);
        assert(user_views(after)[i] == after[i]@);
        lemma_others_stay(before, after, i);
    }
}

/// Switching notifications changes the switch of the first user with the identifier, or adds
/// somebody unknown, and gives that user back.
pub proof fn law_notifications_are_switched(
    bot: &mut Bot,
    person_id: &str,
    email: &str,
    enabled: bool,
    user: &User,
)
    requires
        call_ensures(Bot::enable, (bot, person_id, email, enabled), user),
    ensures
        is_switched(old(bot).users@, final(bot).users@, person_id@, email@, enabled),
        final(bot)@.cache == old(bot)@.cache,
        user.spark_person_id@ == person_id@,
        user.enabled == enabled,
        forall|i: int| #[trigger]
            is_first(final(bot).users@, person_id@, i) ==> same_user(*user, final(bot).users@[i]),
{
    let before = old(bot).users@;
    let after = final(bot).users@;
    lemma_switched(before, after, person_id@, email@, enabled);
    lemma_position(user_views(before), has_id(person_id@));
    lemma_position(user_views(after), has_id(person_id@));
    let views = user_views(before);
    let i = match find(views, person_id@) {
        Some(i) => i,
        None => views.len() as int,
    };
    let changed = user_views(after);
    assert forall|j: int| 0 <= j < i implies !has_id(person_id@)(
        #[trigger] changed[j],
    ) by {
        assert(changed[j] == views[j]);
    }
    lemma_position_at(changed, has_id(person_id@), i);
    assert forall|k: int| #[trigger] is_first(after, person_id@, k) implies same_user(
        *user,
        after[k],
    ) by {
        lemma_first(after, person_id@, k);
        assert(changed[k] == after[k]@);
    }
}

/// The number of users is that of the list.
pub proof fn law_users_are_counted(bot: &Bot, n: usize)
    requires
        call_ensures(Bot::num_users, (bot,), n),
    ensures
        n == bot.users@.len(),
{
    assert(user_views(bot.users@).len() == bot.users@.len());
}

/// A status says whether notifications are on, and counts the other users.
pub proof fn law_a_status_counts_the_others(bot: &Bot, person_id: &str, status: String)
    requires
        call_ensures(Bot::status_for, (bot, person_id), status),
    ensures
        is_unknown(bot.users@, person_id@) ==> status@ == "Notifications for you are **"@
            + "disabled"@ + "**. I am notifying another "@ + decimal(bot.users@.len())
            + " user(s)."@,
        forall|i: int| #[trigger]
            is_first(bot.users@, person_id@, i) ==> status@ == if bot.users@[i].enabled {
                "Notifications for you are **"@ + "enabled"@ + "**. I am notifying another "@
                    + decimal((bot.users@.len() - 1) as nat) + " user(s)."@
            } else {
                "Notifications for you are **"@ + "disabled"@ + "**. I am notifying another "@
                    + decimal(bot.users@.len()) + " user(s)."@
            },
{
    assert(user_views(bot.users@).len() == bot.users@.len());
    if is_unknown(bot.users@, person_id@) {
        lemma_unknown(bot.users@, person_id@);
    }
    assert forall|i: int| #[trigger] is_first(bot.users@, person_id@, i) implies find(
        user_views(bot.users@),
        person_id@,
    ) == Some(i) && user_views(bot.users@)[i] == bot.users@[i]@ by {
        lemma_first(bot.users@, person_id@, i);
    }
}

/// A filter is given to the first user with the identifier if notifications are on for that user
/// and the expression is valid. It leaves the switch of the notifications as it is. Otherwise the
/// result says why, and nothing changes.
pub proof fn law_a_filter_is_added(
    bot: &mut Bot,
    person_id: &str,
    regex: String,
    r: Result<(), AddFilterResult>,
)
    requires
        call_ensures(Bot::add_filter::<String>, (bot, person_id, regex), r),
    ensures
        final(bot)@.cache == old(bot)@.cache,
        is_unknown(old(bot).users@, person_id@) ==> {
            &&& all_stay(old(bot).users@, final(bot).users@)
            &&& r == Err::<(), AddFilterResult>(AddFilterResult::UserNotFound)
        },
        forall|i: int| #[trigger]
            is_first(old(bot).users@, person_id@, i) ==> if !old(bot).users@[i].enabled {
                &&& all_stay(old(bot).users@, final(bot).users@)
                &&& r == Err::<(), AddFilterResult>(AddFilterResult::UserDisabled)
            } else if !regex_is_valid(regex@) {
                &&& all_stay(old(bot).users@, final(bot).users@)
                &&& r == Err::<(), AddFilterResult>(AddFilterResult::InvalidFilter)
            } else {
                &&& is_given(old(bot).users@, final(bot).users@, i, regex@)
                &&& r is Ok
            },
{
    let before = old(bot).users@;
    let after = final(bot).users@;
    if is_unknown(before, person_id@) {
        lemma_unknown(before, person_id@);
        lemma_all_stay(before, after);
    }
    assert forall|i: int| #[trigger] is_first(before, person_id@, i) implies if !before[i].enabled {
        &&& all_stay(before, after)
        &&& r == Err::<(), AddFilterResult>(AddFilterResult::UserDisabled)
    } else if !regex_is_valid(regex@) {
        &&& all_stay(before, after)
        &&& r == Err::<(), AddFilterResult>(AddFilterResult::InvalidFilter)
    } else {
        &&& is_given(before, after, i, regex@)
        &&& r is Ok
    } by {
        lemma_first(before, person_id@, i);
        assert(user_views(before)[i] == before[i]@);
        if before[i].enabled {
            lemma_with_filter(before, after, person_id@, regex@);
        } else {
            lemma_all_stay(before, after);
        }
    }
}

/// The filter that is told is that of the first user with the identifier.
pub proof fn law_a_filter_is_read(
    bot: &Bot,
    person_id: &str,
    r: Result<Option<&Filter>, AddFilterResult>,
)
    requires
        call_ensures(Bot::get_filter, (bot, person_id), r),
    ensures
        is_unknown(bot.users@, person_id@) ==> r == Err::<Option<&Filter>, AddFilterResult>(
            AddFilterResult::UserNotFound,
        ),
        forall|i: int| #[trigger]
            is_first(bot.users@, person_id@, i) ==> match (r, bot.users@[i].filter) {
                (Ok(Some(told)), Some(filter)) => told.regex@ == filter.regex@ && told.enabled
                    == filter.enabled,
                (Ok(None), None) => true,
                _ => false,
            },
{
    if is_unknown(bot.users@, person_id@) {
        lemma_unknown(bot.users@, person_id@);
    }
    assert forall|i: int| #[trigger] is_first(bot.users@, person_id@, i) implies find(
        user_views(bot.users@),
        person_id@,
    ) == Some(i) && user_views(bot.users@)[i] == bot.users@[i]@ by {
        lemma_first(bot.users@, person_id@, i);
    }
}

/// The filter of the first user with the identifier is switched if notifications are on for that
/// user, there is a filter, and its expression is valid. Otherwise the result says why, and
/// nothing changes.
pub proof fn law_a_filter_is_switched(
    bot: &mut Bot,
    person_id: &str,
    enabled: bool,
    r: Result<String, AddFilterResult>,
)
    requires
        call_ensures(Bot::enable_filter, (bot, person_id, enabled), r),
    ensures
        final(bot)@.cache == old(bot)@.cache,
        is_unknown(old(bot).users@, person_id@) ==> {
            &&& all_stay(old(bot).users@, final(bot).users@)
            &&& r == Err::<String, AddFilterResult>(AddFilterResult::UserNotFound)
        },
        forall|i: int| #[trigger]
            is_first(old(bot).users@, person_id@, i) ==> if !old(bot).users@[i].enabled {
                &&& all_stay(old(bot).users@, final(bot).users@)
                &&& r == Err::<String, AddFilterResult>(AddFilterResult::UserDisabled)
            } else if old(bot).users@[i].filter is None {
                &&& all_stay(old(bot).users@, final(bot).users@)
                &&& r == Err::<String, AddFilterResult>(AddFilterResult::FilterNotConfigured)
            } else if !regex_is_valid(old(bot).users@[i].filter->0.regex@) {
                &&& all_stay(old(bot).users@, final(bot).users@)
                &&& r == Err::<String, AddFilterResult>(AddFilterResult::InvalidFilter)
            } else {
                &&& is_filter_switched(old(bot).users@, final(bot).users@, i, enabled)
                &&& r matches Ok(regex) && regex@ == old(bot).users@[i].filter->0.regex@
            },
{
    let before = old(bot).users@;
    let after = final(bot).users@;
    lemma_with_switched_filter(before, after, person_id@, enabled);
    if is_unknown(before, person_id@) {
        lemma_unknown(before, person_id@);
    }
    assert forall|i: int| #[trigger] is_first(before, person_id@, i) implies find(
        user_views(before),
        person_id@,
    ) == Some(i) && user_views(before)[i] == before[i]@ by {
        lemma_first(before, person_id@, i);
    }
}

/// A message is kept back exactly if the user has a filter, it is on, its expression is valid, and
/// the expression matches the message.
pub proof fn law_a_filter_keeps_back(bot: &Bot, user_ref: usize, msg: &str, r: bool)
    requires
        user_ref < bot.users@.len(),
        call_ensures(Bot::is_filtered, (bot, user_ref, msg), r),
    ensures
        r <==> {
            let filter = bot.users@[user_ref as int].filter;
            &&& filter is Some
            &&& filter->0.enabled
            &&& regex_is_valid(filter->0.regex@)
            &&& regex_matches(filter->0.regex@, msg@)
        },
{
    assert(user_views(bot.users@)[user_ref as int] == bot.users@[user_ref as int]@);
}

/// A message is left as it is, unless it is empty or kept back by the filter of the user.
pub proof fn law_a_message_is_kept(bot: &Bot, user_ref: usize, msg: String, r: Option<String>)
    requires
        user_ref < bot.users@.len(),
        call_ensures(Bot::keep_msg, (bot, user_ref, msg), r),
    ensures
        r is None <==> msg@.len() == 0 || {
            let filter = bot.users@[user_ref as int].filter;
            &&& filter is Some
            &&& filter->0.enabled
            &&& regex_is_valid(filter->0.regex@)
            &&& regex_matches(filter->0.regex@, msg@)
        },
        r is Some ==> r->0@ == msg@,
{
    assert(user_views(bot.users@)[user_ref as int] == bot.users@[user_ref as int]@);
}

/// A filter is given to an enabled user if it is valid, and then changes nothing else of the user.
pub proof fn law_a_user_gets_a_filter(
    user: &mut User,
    regex: String,
    valid: bool,
    r: Result<(), AddFilterResult>,
)
    requires
        call_ensures(User::give_filter, (user, regex, valid), r),
    ensures
        final(user).spark_person_id@ == old(user).spark_person_id@,
        final(user).email@ == old(user).email@,
        final(user).enabled == old(user).enabled,
        r is Ok <==> old(user).enabled && valid,
        r is Ok ==> {
            &&& final(user).filter is Some
            &&& final(user).filter->0.regex@ == regex@
            &&& final(user).filter->0.enabled
        },
        r is Err ==> same_filter(final(user).filter, old(user).filter),
        r matches Err(e) ==> e == if old(user).enabled {
            AddFilterResult::InvalidFilter
        } else {
            AddFilterResult::UserDisabled
        },
{
}

/// The filter of an enabled user is switched if there is one and it is valid, which changes
/// nothing else of the user and gives back the expression.
pub proof fn law_a_user_switches_a_filter(
    user: &mut User,
    enabled: bool,
    valid: bool,
    r: Result<String, AddFilterResult>,
)
    requires
        call_ensures(User::switch_filter, (user, enabled, valid), r),
    ensures
        final(user).spark_person_id@ == old(user).spark_person_id@,
        final(user).email@ == old(user).email@,
        final(user).enabled == old(user).enabled,
        r is Ok <==> old(user).enabled && old(user).filter is Some && valid,
        r matches Ok(regex) ==> {
            &&& final(user).filter is Some
            &&& regex@ == old(user).filter->0.regex@
            &&& final(user).filter->0.regex@ == old(user).filter->0.regex@
            &&& final(user).filter->0.enabled == enabled
        },
        r is Err ==> same_filter(final(user).filter, old(user).filter),
        r matches Err(e) ==> e == if !old(user).enabled {
            AddFilterResult::UserDisabled
        } else if old(user).filter is None {
            AddFilterResult::FilterNotConfigured
        } else {
            AddFilterResult::InvalidFilter
        },
{
}

/// A filter keeps a message back exactly if it is there, is on, and was found in the message.
pub proof fn law_a_found_filter_keeps_back(user: &User, found: Option<bool>, r: bool)
    requires
        call_ensures(User::keeps_back, (user, found), r),
    ensures
        r <==> user.filter is Some && user.filter->0.enabled && found is Some && found->0,
{
}

/// A new user has notifications on and no filter; a new filter is on.
pub proof fn law_what_is_new_is_on(
    person_id: String,
    email: String,
    user: User,
    regex: String,
    filter: Filter,
)
    requires
        call_ensures(User::new::<String>, (person_id, email), user),
        call_ensures(Filter::new::<String>, (regex,), filter),
    ensures
        user.spark_person_id@ == person_id@,
        user.email@ == email@,
        user.enabled,
        user.filter is None,
        filter.regex@ == regex@,
        filter.enabled,
{
}

/// The filter to start from is empty and off.
pub proof fn law_the_default_filter_is_off(filter: Filter)
    requires
        call_ensures(<Filter as Default>::default, (), filter),
    ensures
        filter.regex@.len() == 0,
        !filter.enabled,
{
}

/// A response holds its addressee and its text.
pub proof fn law_a_response_holds_its_parts(person_id: String, message: String, response: Response)
    requires
        call_ensures(Response::new::<String>, (person_id, message), response),
    ensures
        response.person_id@ == person_id@,
        response.message@ == message@,
{
}

/// A time in seconds or milliseconds is the same time as an expiration.
pub proof fn law_expirations_are_exact(secs: u64, a: Expiration, millis: u64, b: Expiration)
    requires
        call_ensures(Expiration::from_secs, (secs,), a),
        call_ensures(Expiration::from_millis, (millis,), b),
    ensures
        a.secs == secs && a.nanos == 0,
        b.secs * 1_000_000_000 + b.nanos == millis * 1_000_000,
        b.nanos < 1_000_000_000,
{
}

/// What was found for `filter` is told. Nothing is told of an error that cannot come of it.
pub proof fn law_a_found_filter_is_told(
    id: String,
    r: Result<Option<&Filter>, AddFilterResult>,
    task: Option<Task>,
)
    requires
        call_ensures(reply_to_filter_status, (id, r), task),
    ensures
        match r {
            Ok(Some(filter)) => is_reply(
                task,
                id@,
                "The following filter is configured for you: `"@ + filter.regex@ + "`. It is **"@
                    + (if filter.enabled {
                    "enabled"@
                } else {
                    "disabled"@
                }) + "**."@,
                false,
            ),
            Ok(None) => is_reply(task, id@, "No filter is configured for you."@, false),
            Err(AddFilterResult::UserNotFound) => is_reply(
                task,
                id@,
                "Notification for you are disabled. Please enable notifications first, and then add a filter."@,
                false,
            ),
            Err(_) => task is None,
        },
{
    reveal_strlit("The following filter is configured for you: `");
    reveal_strlit("No filter is configured for you.");
    reveal_strlit(
        "Notification for you are disabled. Please enable notifications first, and then add a filter.",
    );
}

/// What came of `filter <regex>` is told, and saved if it went well.
pub proof fn law_an_added_filter_is_told(id: String, r: Result<(), AddFilterResult>, task: Task)
    requires
        call_ensures(reply_to_filter_add, (id, r), task),
        r != Err::<(), AddFilterResult>(AddFilterResult::FilterNotConfigured),
    ensures
        is_reply(
            Some(task),
            id@,
            match r {
                Ok(_) => "Filter successfully added and enabled."@,
                Err(AddFilterResult::InvalidFilter) => "Your provided filter is invalid. Please double-check the regex you provided. Specifications of the regex are here: https://doc.rust-lang.org/regex/regex/index.html#syntax"@,
                Err(_) => "Notification for you are disabled. Please enable notifications first, and then add a filter."@,
            },
            r is Ok,
        ),
{
}

/// What came of `filter enable` is told, and saved if it went well.
pub proof fn law_an_enabled_filter_is_told(
    id: String,
    r: Result<String, AddFilterResult>,
    task: Task,
)
    requires
        call_ensures(reply_to_filter_enable, (id, r), task),
    ensures
        is_reply(
            Some(task),
            id@,
            match r {
                Ok(regex) => "Filter successfully enabled. The following filter is configured: "@
                    + regex@,
                Err(AddFilterResult::InvalidFilter) => "Your provided filter is invalid. Please double-check the regex you provided. Specifications of the regex are here: https://doc.rust-lang.org/regex/regex/index.html#syntax"@,
                Err(AddFilterResult::FilterNotConfigured) => "Cannot enable filter since there is none configured. User `filter <regex>` to add a new filter."@,
                Err(_) => "Notification for you are disabled. Please enable notifications first, and then add a filter."@,
            },
            r is Ok,
        ),
{
}

/// What came of `filter disable` is told, and saved if it went well.
pub proof fn law_a_disabled_filter_is_told(
    id: String,
    r: Result<String, AddFilterResult>,
    task: Task,
)
    requires
        call_ensures(reply_to_filter_disable, (id, r), task),
    ensures
        is_reply(
            Some(task),
            id@,
            match r {
                Ok(_) => "Filter successfully disabled."@,
                Err(AddFilterResult::InvalidFilter) => "Your provided filter is invalid. Please double-check the regex you provided. Specifications of the regex are here: https://doc.rust-lang.org/regex/regex/index.html#syntax"@,
                Err(AddFilterResult::FilterNotConfigured) => "No need to disable the filter since there is none configured."@,
                Err(_) => "Notification for you are disabled. No need to disable the filter."@,
            },
            r is Ok,
        ),
{
}

/// The task is to send `text` to `id`, and to save the users or not.
pub open spec fn is_reply(task: Option<Task>, id: Seq<char>, text: Seq<char>, save: bool) -> bool {
    match task {
        Some(Task::Reply(r)) => !save && r.person_id@ == id && r.message@ == text,
        Some(Task::ReplyAndSave(r)) => save && r.person_id@ == id && r.message@ == text,
        None => false,
    }
}

} // verus!
