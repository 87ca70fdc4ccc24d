//! Laws on what each command does to the users, and on the text of the answer.
use vstd::prelude::*;
use crate::bot::{with_enabled, with_filter, with_switched_filter, Bot};
use crate::outside::regex_is_valid;
use crate::text::decimal;
use crate::update::{update, Action, Outcome, Task};
use crate::users::{
    find, has_id, lemma_position, lemma_position_at, user_views, Filter, User,
};

verus! {

/// Two filters have the same expression and switch, or there is none in both places.
pub open spec fn same_filter(a: Option<Filter>, b: Option<Filter>) -> bool {
    match (a, b) {
        (Some(a), Some(b)) => a.regex@ == b.regex@ && a.enabled == b.enabled,
        (None, None) => true,
        _ => false,
    }
}

/// Two users have the same identifier, address, switch and filter.
pub open spec fn same_user(a: User, b: User) -> bool {
    &&& a.spark_person_id@ == b.spark_person_id@
    &&& a.email@ == b.email@
    &&& a.enabled == b.enabled
    &&& same_filter(a.filter, b.filter)
}

/// The user `i` is the first one with the identifier `id`.
pub open spec fn is_first(users: Seq<User>, id: Seq<char>, i: int) -> bool {
    &&& 0 <= i < users.len()
    &&& users[i].spark_person_id@ == id
    &&& forall|j: int| 0 <= j < i ==> (#[trigger] users[j]).spark_person_id@ != id
}

/// No user has the identifier `id`.
pub open spec fn is_unknown(users: Seq<User>, id: Seq<char>) -> bool {
    forall|j: int| 0 <= j < users.len() ==> (#[trigger] users[j]).spark_person_id@ != id
}

/// All users are as before.
pub open spec fn all_stay(before: Seq<User>, after: Seq<User>) -> bool {
    after.len() == before.len() && forall|j: int|
        0 <= j < before.len() ==> same_user(#[trigger] after[j], before[j])
}

/// All users but the user `i` are as before.
pub open spec fn others_stay(before: Seq<User>, after: Seq<User>, i: int) -> bool {
    after.len() == before.len() && forall|j: int|
        0 <= j < before.len() && j != i ==> same_user(#[trigger] after[j], before[j])
}

/// The outcome is the answer `text` to `id`, after which the users are saved or not.
pub open spec fn is_answer(outcome: Outcome, id: Seq<char>, text: Seq<char>, save: bool) -> bool {
    match outcome {
        Outcome::Done(Some(Task::Reply(r))) => !save && r.person_id@ == id && r.message@ == text,
        Outcome::Done(Some(Task::ReplyAndSave(r))) => save && r.person_id@ == id && r.message@
            == text,
        _ => false,
    }
}

pub(crate) proof fn lemma_first(users: Seq<User>, id: Seq<char>, i: int)
    requires
        is_first(users, id, i),
    ensures
        find(user_views(users), id) == Some(i),
{
    let views = user_views(users);
    assert forall|j: int| 0 <= j < i implies !has_id(id)(#[trigger] views[j]) by {
        assert(views[j] == users[j]@);
    }
    lemma_position_at(views, has_id(id), i);
}

pub(crate) proof fn lemma_unknown(users: Seq<User>, id: Seq<char>)
    requires
        is_unknown(users, id),
    ensures
        find(user_views(users), id) is None,
{
    let views = user_views(users);
    lemma_position(views, has_id(id));
    if let Some(i) = find(views, id) {
        assert(views[i] == users[i]@);
    }
}

pub(crate) proof fn lemma_all_stay(before: Seq<User>, after: Seq<User>)
    requires
        user_views(after) == user_views(before),
    ensures
        all_stay(before, after),
{
    assert(user_views(after).len() == after.len());
    assert(user_views(before).len() == before.len());
    assert forall|j: int| 0 <= j < before.len() implies same_user(
        #[trigger] after[j],
        before[j],
    ) by {
        assert(user_views(after)[j] == after[j]@);
        assert(user_views(before)[j] == before[j]@);
    }
}

pub(crate) proof fn lemma_others_stay(before: Seq<User>, after: Seq<User>, i: int)
    requires
        0 <= i < before.len(),
        user_views(after) == user_views(before).update(i, user_views(after)[i]),
    ensures
        others_stay(before, after, i),
{
    assert(user_views(after).len() == user_views(before).len());
    assert forall|j: int| 0 <= j < before.len() && j != i implies same_user(
        #[trigger] after[j],
        before[j],
    ) by {
        assert(user_views(after)[j] == user_views(before)[j]);
    }
}

pub(crate) proof fn lemma_one_more(before: Seq<User>, after: Seq<User>)
    requires
        after.len() == before.len() + 1,
        user_views(after) == user_views(before).push(user_views(after).last()),
    ensures
        forall|j: int| 0 <= j < before.len() ==> same_user(#[trigger] after[j], before[j]),
{
    assert forall|j: int| 0 <= j < before.len() implies same_user(
        #[trigger] after[j],
        before[j],
    ) by {
        assert(user_views(after)[j] == user_views(before)[j]);
    }
}

/// What it means that notifications were switched for `id`: the first user with the identifier has
/// the switch, and is otherwise as before, as is everybody else; somebody unknown is added at the
/// end, with the address `email`, the switch, and no filter.
pub open spec fn is_switched(
    before: Seq<User>,
    after: Seq<User>,
    id: Seq<char>,
    email: Seq<char>,
    enabled: bool,
) -> bool {
    &&& forall|i: int| #[trigger]
        is_first(before, id, i) ==> {
            &&& others_stay(before, after, i)
            &&& after[i].spark_person_id@ == id
            &&& after[i].email@ == before[i].email@
            &&& after[i].enabled == enabled
            &&& same_filter(after[i].filter, before[i].filter)
        }
    &&& is_unknown(before, id) ==> {
        let n = before.len() as int;
        &&& after.len() == n + 1
        &&& forall|j: int| 0 <= j < n ==> same_user(#[trigger] after[j], before[j])
        &&& after[n].spark_person_id@ == id
        &&& after[n].email@ == email
        &&& after[n].enabled == enabled
        &&& after[n].filter is None
    }
}

pub(crate) proof fn lemma_switched(
    before: Seq<User>,
    after: Seq<User>,
    id: Seq<char>,
    email: Seq<char>,
    enabled: bool,
)
    requires
        user_views(after) == with_enabled(user_views(before), id, email, enabled),
    ensures
        is_switched(before, after, id, email, enabled),
{
    assert(user_views(after).len() == after.len());
    assert forall|i: int| #[trigger] is_first(before, id, i) implies {
        &&& others_stay(before, after, i)
        &&& after[i].spark_person_id@ == id
        &&& after[i].email@ == before[i].email@
        &&& after[i].enabled == enabled
        &&& same_filter(after[i].filter, before[i].filter)
    } by {
        lemma_first(before, id, i);
        assert(user_views(after)[i] == after[i]@);
        assert(user_views(before)[i] == before[i]@);
        lemma_others_stay(before, after, i);
    }
    if is_unknown(before, id) {
        lemma_unknown(before, id);
        let n = before.len() as int;
        assert(user_views(after)[n] == after[n]@);
        lemma_one_more(before, after);
    }
}

/// `enable` switches notifications on.
pub proof fn law_enable_switches_on(id: String, email: String, bot: Bot, r: (Bot, Outcome))
    requires
        call_ensures(update, (Action::Enable(id, email), bot), r),
    ensures
        is_switched(bot.users@, r.0.users@, id@, email@, true),
        is_answer(r.1, id@, "Got it! Happy reviewing!"@, true),
        r.0@.cache == bot@.cache,
{
    lemma_switched(bot.users@, r.0.users@, id@, email@, true);
}

/// `disable` switches notifications off.
pub proof fn law_disable_switches_off(id: String, email: String, bot: Bot, r: (Bot, Outcome))
    requires
        call_ensures(update, (Action::Disable(id, email), bot), r),
    ensures
        is_switched(bot.users@, r.0.users@, id@, email@, false),
        is_answer(r.1, id@, "Got it! I will stay silent."@, true),
        r.0@.cache == bot@.cache,
{
    lemma_switched(bot.users@, r.0.users@, id@, email@, false);
}

/// What it means that a filter was given to the first user with an identifier: the filter is
/// enabled, and nothing else changes, of that user or of anybody else.
pub open spec fn is_given(before: Seq<User>, after: Seq<User>, i: int, regex: Seq<char>) -> bool {
    &&& others_stay(before, after, i)
    &&& after[i].spark_person_id@ == before[i].spark_person_id@
    &&& after[i].email@ == before[i].email@
    &&& after[i].enabled == before[i].enabled
    &&& after[i].filter is Some
    &&& after[i].filter->0.regex@ == regex
    &&& after[i].filter->0.enabled
}

/// What it means that the filter of the first user with an identifier was switched: its expression
/// stays, and nothing else changes, of that user or of anybody else.
pub open spec fn is_filter_switched(
    before: Seq<User>,
    after: Seq<User>,
    i: int,
    enabled: bool,
) -> bool {
    &&& others_stay(before, after, i)
    &&& after[i].spark_person_id@ == before[i].spark_person_id@
    &&& after[i].email@ == before[i].email@
    &&& after[i].enabled == before[i].enabled
    &&& after[i].filter is Some
    &&& after[i].filter->0.regex@ == before[i].filter->0.regex@
    &&& after[i].filter->0.enabled == enabled
}

pub(crate) proof fn lemma_with_filter(before: Seq<User>, after: Seq<User>, id: Seq<char>, regex: Seq<char>)
    requires
        user_views(after) == with_filter(user_views(before), id, regex).0,
    ensures
        is_unknown(before, id) ==> all_stay(before, after),
        forall|i: int| #[trigger]
            is_first(before, id, i) ==> if before[i].enabled && regex_is_valid(regex) {
                is_given(before, after, i, regex)
            } else {
                all_stay(before, after)
            },
{
    assert(user_views(after).len() == after.len());
    if is_unknown(before, id) {
        lemma_unknown(before, id);
        lemma_all_stay(before, after);
    }
    assert forall|i: int| #[trigger] is_first(before, id, i) implies if before[i].enabled
        && regex_is_valid(regex) {
        is_given(before, after, i, regex)
    } else {
        all_stay(before, after)
    } by {
        lemma_first(before, id, i);
        assert(user_views(before)[i] == before[i]@);
        if before[i].enabled && regex_is_valid(regex) {
            assert(user_views(after)[i] == after[i]@);
            lemma_others_stay(before, after, i);
        } else {
            assert(user_views(after) =~= user_views(before));
            lemma_all_stay(before, after);
        }
    }
}

pub(crate) proof fn lemma_with_switched_filter(
    before: Seq<User>,
    after: Seq<User>,
    id: Seq<char>,
    enabled: bool,
)
    requires
        user_views(after) == with_switched_filter(user_views(before), id, enabled).0,
    ensures
        is_unknown(before, id) ==> all_stay(before, after),
        forall|i: int| #[trigger]
            is_first(before, id, i) ==> if before[i].enabled && before[i].filter is Some
                && regex_is_valid(before[i].filter->0.regex@) {
                is_filter_switched(before, after, i, enabled)
            } else {
                all_stay(before, after)
            },
{
    assert(user_views(after).len() == after.len());
    if is_unknown(before, id) {
        lemma_unknown(before, id);
        lemma_all_stay(before, after);
    }
    assert forall|i: int| #[trigger] is_first(before, id, i) implies if before[i].enabled
        && before[i].filter is Some && regex_is_valid(before[i].filter->0.regex@) {
        is_filter_switched(before, after, i, enabled)
    } else {
        all_stay(before, after)
    } by {
        lemma_first(before, id, i);
        assert(user_views(before)[i] == before[i]@);
        if before[i].enabled && before[i].filter is Some && regex_is_valid(
            before[i].filter->0.regex@,
        ) {
            assert(user_views(after)[i] == after[i]@);
            lemma_others_stay(before, after, i);
        } else {
            assert(user_views(after) =~= user_views(before));
            lemma_all_stay(before, after);
        }
    }
}

/// `filter <regex>` gives a filter to somebody whose notifications are on, if the expression is
/// valid. It leaves the switch of the notifications as it is. Otherwise nothing changes, and the
/// answer says why.
pub proof fn law_filter_is_given(id: String, regex: String, bot: Bot, r: (Bot, Outcome))
    requires
        call_ensures(update, (Action::FilterAdd(id, regex), bot), r),
    ensures
        r.0@.cache == bot@.cache,
        is_unknown(bot.users@, id@) ==> {
            &&& all_stay(bot.users@, r.0.users@)
            &&& is_answer(
                r.1,
                id@,
                "Notification for you are disabled. Please enable notifications first, and then add a filter."@,
                false,
            )
        },
        forall|i: int| #[trigger]
            is_first(bot.users@, id@, i) ==> {
                let user = bot.users@[i];
                if !user.enabled {
                    &&& all_stay(bot.users@, r.0.users@)
                    &&& is_answer(
                        r.1,
                        id@,
                        "Notification for you are disabled. Please enable notifications first, and then add a filter."@,
                        false,
                    )
                } else if !regex_is_valid(regex@) {
                    &&& all_stay(bot.users@, r.0.users@)
                    &&& is_answer(
                        r.1,
                        id@,
                        "Your provided filter is invalid. Please double-check the regex you provided. Specifications of the regex are here: https://doc.rust-lang.org/regex/regex/index.html#syntax"@,
                        false,
                    )
                } else {
                    &&& is_given(bot.users@, r.0.users@, i, regex@)
                    &&& is_answer(r.1, id@, "Filter successfully added and enabled."@, true)
                }
            },
{
    lemma_with_filter(bot.users@, r.0.users@, id@, regex@);
    if is_unknown(bot.users@, id@) {
        lemma_unknown(bot.users@, id@);
    }
    assert forall|i: int| #[trigger] is_first(bot.users@, id@, i) implies find(
        user_views(bot.users@),
        id@,
    ) == Some(i) && user_views(bot.users@)[i] == bot.users@[i]@ by {
        lemma_first(bot.users@, id@, i);
    }
}

/// `filter enable` switches a valid filter on for somebody whose notifications are on, and tells
/// its expression. Otherwise nothing changes, and the answer says why.
pub proof fn law_filter_is_switched_on(id: String, bot: Bot, r: (Bot, Outcome))
    requires
        call_ensures(update, (Action::FilterEnable(id), bot), r),
    ensures
        r.0@.cache == bot@.cache,
        is_unknown(bot.users@, id@) ==> {
            &&& all_stay(bot.users@, r.0.users@)
            &&& is_answer(
                r.1,
                id@,
                "Notification for you are disabled. Please enable notifications first, and then add a filter."@,
                false,
            )
        },
        forall|i: int| #[trigger]
            is_first(bot.users@, id@, i) ==> {
                let user = bot.users@[i];
                if !user.enabled {
                    &&& all_stay(bot.users@, r.0.users@)
                    &&& is_answer(
                        r.1,
                        id@,
                        "Notification for you are disabled. Please enable notifications first, and then add a filter."@,
                        false,
                    )
                } else if user.filter is None {
                    &&& all_stay(bot.users@, r.0.users@)
                    &&& is_answer(
                        r.1,
                        id@,
                        "Cannot enable filter since there is none configured. User `filter <regex>` to add a new filter."@,
                        false,
                    )
                } else if !regex_is_valid(user.filter->0.regex@) {
                    &&& all_stay(bot.users@, r.0.users@)
                    &&& is_answer(
                        r.1,
                        id@,
                        "Your provided filter is invalid. Please double-check the regex you provided. Specifications of the regex are here: https://doc.rust-lang.org/regex/regex/index.html#syntax"@,
                        false,
                    )
                } else {
                    &&& is_filter_switched(bot.users@, r.0.users@, i, true)
                    &&& is_answer(
                        r.1,
                        id@,
                        "Filter successfully enabled. The following filter is configured: "@
                            + user.filter->0.regex@,
                        true,
                    )
                }
            },
{
    lemma_with_switched_filter(bot.users@, r.0.users@, id@, true);
    if is_unknown(bot.users@, id@) {
        lemma_unknown(bot.users@, id@);
    }
    assert forall|i: int| #[trigger] is_first(bot.users@, id@, i) implies find(
        user_views(bot.users@),
        id@,
    ) == Some(i) && user_views(bot.users@)[i] == bot.users@[i]@ by {
        lemma_first(bot.users@, id@, i);
    }
}

/// `filter disable` switches a valid filter off for somebody whose notifications are on. Otherwise
/// nothing changes, and the answer says why.
pub proof fn law_filter_is_switched_off(id: String, bot: Bot, r: (Bot, Outcome))
    requires
        call_ensures(update, (Action::FilterDisable(id), bot), r),
    ensures
        r.0@.cache == bot@.cache,
        is_unknown(bot.users@, id@) ==> {
            &&& all_stay(bot.users@, r.0.users@)
            &&& is_answer(
                r.1,
                id@,
                "Notification for you are disabled. No need to disable the filter."@,
                false,
            )
        },
        forall|i: int| #[trigger]
            is_first(bot.users@, id@, i) ==> {
                let user = bot.users@[i];
                if !user.enabled {
                    &&& all_stay(bot.users@, r.0.users@)
                    &&& is_answer(
                        r.1,
                        id@,
                        "Notification for you are disabled. No need to disable the filter."@,
                        false,
                    )
                } else if user.filter is None {
                    &&& all_stay(bot.users@, r.0.users@)
                    &&& is_answer(
                        r.1,
                        id@,
                        "No need to disable the filter since there is none configured."@,
                        false,
                    )
                } else if !regex_is_valid(user.filter->0.regex@) {
                    &&& all_stay(bot.users@, r.0.users@)
                    &&& is_answer(
                        r.1,
                        id@,
                        "Your provided filter is invalid. Please double-check the regex you provided. Specifications of the regex are here: https://doc.rust-lang.org/regex/regex/index.html#syntax"@,
                        false,
                    )
                } else {
                    &&& is_filter_switched(bot.users@, r.0.users@, i, false)
                    &&& is_answer(r.1, id@, "Filter successfully disabled."@, true)
                }
            },
{
    lemma_with_switched_filter(bot.users@, r.0.users@, id@, false);
    if is_unknown(bot.users@, id@) {
        lemma_unknown(bot.users@, id@);
    }
    assert forall|i: int| #[trigger] is_first(bot.users@, id@, i) implies find(
        user_views(bot.users@),
        id@,
    ) == Some(i) && user_views(bot.users@)[i] == bot.users@[i]@ by {
        lemma_first(bot.users@, id@, i);
    }
}

/// `status` tells whether notifications are on for the person, and how many other users there
/// are: all users, but for the person if notifications are on. Nothing changes.
pub proof fn law_status_is_told(id: String, bot: Bot, r: (Bot, Outcome))
    requires
        call_ensures(update, (Action::Status(id), bot), r),
    ensures
        all_stay(bot.users@, r.0.users@),
        r.0@.cache == bot@.cache,
        is_unknown(bot.users@, id@) ==> is_answer(
            r.1,
            id@,
            "Notifications for you are **"@ + "disabled"@ + "**. I am notifying another "@
                + decimal(bot.users@.len()) + " user(s)."@,
            false,
        ),
        forall|i: int| #[trigger]
            is_first(bot.users@, id@, i) ==> if bot.users@[i].enabled {
                is_answer(
                    r.1,
                    id@,
                    "Notifications for you are **"@ + "enabled"@ + "**. I am notifying another "@
                        + decimal((bot.users@.len() - 1) as nat) + " user(s)."@,
                    false,
                )
            } else {
                is_answer(
                    r.1,
                    id@,
                    "Notifications for you are **"@ + "disabled"@ + "**. I am notifying another "@
                        + decimal(bot.users@.len()) + " user(s)."@,
                    false,
                )
            },
{
    lemma_all_stay(bot.users@, r.0.users@);
    assert(user_views(bot.users@).len() == bot.users@.len());
    if is_unknown(bot.users@, id@) {
        lemma_unknown(bot.users@, id@);
    }
    assert forall|i: int| #[trigger] is_first(bot.users@, id@, i) implies find(
        user_views(bot.users@),
        id@,
    ) == Some(i) && user_views(bot.users@)[i] == bot.users@[i]@ by {
        lemma_first(bot.users@, id@, i);
    }
}

/// `filter` tells the filter of the person and whether it is on. Nothing changes.
pub proof fn law_filter_is_told(id: String, bot: Bot, r: (Bot, Outcome))
    requires
        call_ensures(update, (Action::FilterStatus(id), bot), r),
    ensures
        all_stay(bot.users@, r.0.users@),
        r.0@.cache == bot@.cache,
        is_unknown(bot.users@, id@) ==> is_answer(
            r.1,
            id@,
            "Notification for you are disabled. Please enable notifications first, and then add a filter."@,
            false,
        ),
        forall|i: int| #[trigger]
            is_first(bot.users@, id@, i) ==> match bot.users@[i].filter {
                None => is_answer(r.1, id@, "No filter is configured for you."@, false),
                Some(filter) => is_answer(
                    r.1,
                    id@,
                    "The following filter is configured for you: `"@ + filter.regex@
                        + "`. It is **"@ + (if filter.enabled {
                        "enabled"@
                    } else {
                        "disabled"@
                    }) + "**."@,
                    false,
                ),
            },
{
    reveal_strlit("The following filter is configured for you: `");
    reveal_strlit("No filter is configured for you.");
    reveal_strlit(
        "Notification for you are disabled. Please enable notifications first, and then add a filter.",
    );
    lemma_all_stay(bot.users@, r.0.users@);
    if is_unknown(bot.users@, id@) {
        lemma_unknown(bot.users@, id@);
    }
    assert forall|i: int| #[trigger] is_first(bot.users@, id@, i) implies find(
        user_views(bot.users@),
        id@,
    ) == Some(i) && user_views(bot.users@)[i] == bot.users@[i]@ by {
        lemma_first(bot.users@, id@, i);
    }
}

/// `help` is answered with the list of commands. Nothing changes.
pub proof fn law_help_is_given(id: String, bot: Bot, r: (Bot, Outcome))
    requires
        call_ensures(update, (Action::Help(id), bot), r),
    ensures
        all_stay(bot.users@, r.0.users@),
        r.0@.cache == bot@.cache,
        is_answer(
            r.1,
            id@,
            r#"Commands:

`enable` -- I will start notifying you.

`disable` -- I will stop notifying you.

`filter [<regex>|enable|disable]` -- Add a `regex` to filter messages by applying the regex to the message sent to Spark, that is, you can filter whatever you like in the response from me. `enable` and `disable` options enable resp. disable a configured filter. The `filter` command without options shows if a filter is configured, and if it is enabled. Note: When adding a filter regex, wrap the regex with ``, otherwise Spark will eat all special characters.

`status` -- Show if I am notifying you, and a little bit more information. 😉

`help` -- This message
"#@,
            false,
        ),
{
    lemma_all_stay(bot.users@, r.0.users@);
}

/// Anything else is answered with a greeting. Nothing changes.
pub proof fn law_strangers_are_greeted(id: String, bot: Bot, r: (Bot, Outcome))
    requires
        call_ensures(update, (Action::Unknown(id), bot), r),
    ensures
        all_stay(bot.users@, r.0.users@),
        r.0@.cache == bot@.cache,
        is_answer(
            r.1,
            id@,
            r#"Hi. I am GerritBot (**in a beta phase**). I can watch Gerrit reviews for you, and notify you about new +1/-1's.

To enable notifications, just type in **enable**. A small note: your email in Spark and in Gerrit has to be the same. Otherwise, I can't match your accounts.

For more information, type in **help**.

By the way, my icon is made by
[ Madebyoliver ](http://www.flaticon.com/authors/madebyoliver)
from
[ www.flaticon.com ](http://www.flaticon.com)
and is licensed by
[ CC 3.0 BY](http://creativecommons.org/licenses/by/3.0/).
"#@,
            false,
        ),
{
    lemma_all_stay(bot.users@, r.0.users@);
}

/// Where nothing is asked for, nothing is answered and nothing changes.
pub proof fn law_no_op_is_silent(bot: Bot, r: (Bot, Outcome))
    requires
        call_ensures(update, (Action::NoOp, bot), r),
    ensures
        all_stay(bot.users@, r.0.users@),
        r.0@.cache == bot@.cache,
        r.1 matches Outcome::Done(task) && task is None,
{
    lemma_all_stay(bot.users@, r.0.users@);
}

} // verus!
