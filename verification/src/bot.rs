//! The state of the bot and what it does with it.
use vstd::prelude::*;
use crate::cache::{key_line, same_limits, CacheView, Expiration, MsgCache, MsgCacheLine};
use crate::gerrit::{Approval, Event};
use crate::notify::{
    approval_is_news, cache_line, can_note, compose, consults_cache, is_news, is_repeated,
    is_usable, kept, line_of, noted, notice, question, question_about, recipient, Question, Turn,
};
use crate::outside::{cache_get, cache_insert, cache_view, new_cache};
use crate::outside::{regex_compiles, regex_is_valid, regex_search};
use crate::pending::{
    can_begin, can_go_on, can_proceed, fresh, Pending, PendingView, Stage, StageView,
};
use crate::text::{decimal, decimal_text, opt_text, texts};
use crate::users::{
    filtered, find, given_filter, has_id, lemma_position, lemma_position_at, listens_at, new_user,
    position, switched_filter, text_result, user_views, AddFilterResult, Filter,
    FilterView, User, UserView,
};

verus! {

/// Describes a state of the bot
#[derive(Clone)]
pub struct Bot {
    pub users: Vec<User>,
    /// The cache is optional, so that an empty bot can be created without initializing it.
    pub msg_cache: Option<MsgCache>,
}

/// What a [`Bot`] holds.
#[verifier::ext_equal]
pub struct BotView {
    pub users: Seq<UserView>,
    pub cache: Option<CacheView>,
}

impl View for Bot {
    type V = BotView;

    open spec fn view(&self) -> BotView {
        BotView {
            users: user_views(self.users@),
            cache: match self.msg_cache {
                Some(cache) => Some(cache_view(cache)),
                None => None,
            },
        }
    }
}

/// The cache of a bot for which `capacity` and `expiration` were chosen.
pub open spec fn empty_cache(capacity: usize, expiration: Expiration) -> CacheView {
    CacheView { lines: Seq::empty(), capacity: capacity, expiration: expiration }
}

/// The users after notifications were switched on or off for `person_id`. Somebody who is not
/// known yet is added with the address `email`.
pub open spec fn with_enabled(
    users: Seq<UserView>,
    person_id: Seq<char>,
    email: Seq<char>,
    enabled: bool,
) -> Seq<UserView> {
    match find(users, person_id) {
        Some(i) => users.update(i, UserView { enabled: enabled, ..users[i] }),
        None => users.push(UserView { enabled: enabled, ..new_user(person_id, email) }),
    }
}

/// The users after the filter `regex` was given to `person_id`, and the answer.
pub open spec fn with_filter(
    users: Seq<UserView>,
    person_id: Seq<char>,
    regex: Seq<char>,
) -> (Seq<UserView>, Result<(), AddFilterResult>) {
    match find(users, person_id) {
        Some(i) => {
            let (user, r) = given_filter(users[i], regex, regex_is_valid(regex));
            (users.update(i, user), r)
        },
        None => (users, Err(AddFilterResult::UserNotFound)),
    }
}

/// The users after the filter of `person_id` was switched on or off, and the answer.
pub open spec fn with_switched_filter(
    users: Seq<UserView>,
    person_id: Seq<char>,
    enabled: bool,
) -> (Seq<UserView>, Result<Seq<char>, AddFilterResult>) {
    match find(users, person_id) {
        Some(i) => {
            let valid = users[i].filter is Some && regex_is_valid(users[i].filter->0.regex);
            let (user, r) = switched_filter(users[i], enabled, valid);
            (users.update(i, user), r)
        },
        None => (users, Err(AddFilterResult::UserNotFound)),
    }
}

/// The filter of `person_id`.
pub open spec fn filter_of(users: Seq<UserView>, person_id: Seq<char>) -> Result<
    Option<FilterView>,
    AddFilterResult,
> {
    match find(users, person_id) {
        Some(i) => Ok(users[i].filter),
        None => Err(AddFilterResult::UserNotFound),
    }
}

/// What a result with a filter holds.
pub open spec fn filter_result(r: Result<Option<&Filter>, AddFilterResult>) -> Result<
    Option<FilterView>,
    AddFilterResult,
> {
    match r {
        Ok(Some(filter)) => Ok(Some(filter@)),
        Ok(None) => Ok(None),
        Err(e) => Err(e),
    }
}

/// Whether notifications are switched on for `person_id`.
pub open spec fn is_enabled(users: Seq<UserView>, person_id: Seq<char>) -> bool {
    match find(users, person_id) {
        Some(i) => users[i].enabled,
        None => false,
    }
}

/// The word for a switch.
pub open spec fn switch_word(enabled: bool) -> Seq<char> {
    if enabled {
        "enabled"@
    } else {
        "disabled"@
    }
}

/// The status report for `person_id`.
pub open spec fn status_text(users: Seq<UserView>, person_id: Seq<char>) -> Seq<char> {
    let enabled = is_enabled(users, person_id);
    let others = if enabled { (users.len() - 1) as nat } else { users.len() };
    "Notifications for you are **"@ + switch_word(enabled)
        + "**. I am notifying another "@ + decimal(others) + " user(s)."@
}

/// The word for a switch.
pub fn switch_text(enabled: bool) -> (word: &'static str)
    ensures
        word@ == switch_word(enabled),
{
    if enabled {
        "enabled"
    } else {
        "disabled"
    }
}

impl Bot {
    pub fn new() -> (bot: Bot)
        ensures
            bot@ == (BotView { users: Seq::<UserView>::empty(), cache: None }),
    {
        Bot { users: Vec::new(), msg_cache: None }
    }

    pub fn with_msg_cache(capacity: usize, expiration: Expiration) -> (bot: Bot)
        requires
            expiration.wf(),
        ensures
            bot@ == (BotView {
                users: Seq::<UserView>::empty(),
                cache: Some(empty_cache(capacity, expiration)),
            }),
    {
        Bot { users: Vec::new(), msg_cache: Some(new_cache(expiration, capacity)) }
    }

    pub fn init_msg_cache(&mut self, capacity: usize, expiration: Expiration)
        requires
            expiration.wf(),
        ensures
            final(self)@ == (BotView {
                cache: Some(empty_cache(capacity, expiration)),
                ..old(self)@
            }),
    {
        self.msg_cache = Some(new_cache(expiration, capacity));
    }

    /// A bot with the given users, without a cache.
    pub fn from_users(users: Vec<User>) -> (bot: Bot)
        ensures
            bot@ == (BotView { users: user_views(users@), cache: None }),
    {
        Bot { users: users, msg_cache: None }
    }

    /// The users of the bot, which are what it keeps when it is saved.
    pub fn into_users(self) -> (users: Vec<User>)
        ensures
            user_views(users@) == self@.users,
    {
        self.users
    }

    /// Adds a user, who is enabled and has no filter.
    pub fn add_user<'a>(&'a mut self, person_id: &str, email: &str) -> (user: &'a mut User)
        ensures
            user@ == new_user(person_id@, email@),
            final(self)@ == (BotView {
                users: old(self)@.users.push((*final(user))@),
                ..old(self)@
            }),
    {
        let n: usize = self.users.len();
        self.users.push(User::new(String::from(person_id), String::from(email)));
        &mut self.users[n]
    }

    /// The position of the user with the identifier `person_id`.
    fn position_of(&self, person_id: &str) -> (pos: Option<usize>)
        ensures
            match pos {
                Some(i) => i < self.users.len() && find(self@.users, person_id@) == Some(i as int),
                None => find(self@.users, person_id@) is None,
            },
    {
        let mut i: usize = 0;
        while i < self.users.len()
            invariant
                i <= self.users.len(),
                forall|j: int| 0 <= j < i ==> !has_id(person_id@)(#[trigger] self@.users[j]),
            decreases self.users.len() - i,
        {
            if *self.users[i].spark_person_id.as_str() == *person_id {
                proof {
                    lemma_position_at(self@.users, has_id(person_id@), i as int);
                }
                return Some(i);
            }
            i += 1;
        }
        proof {
            lemma_position(self@.users, has_id(person_id@));
        }
        None
    }

    /// The position of the first enabled user with the address `email`.
    fn listener_at(&self, email: &str) -> (pos: Option<usize>)
        ensures
            match pos {
                Some(i) => {
                    &&& i < self.users.len()
                    &&& position(self@.users, listens_at(email@)) == Some(i as int)
                },
                None => position(self@.users, listens_at(email@)) is None,
            },
    {
        let mut i: usize = 0;
        while i < self.users.len()
            invariant
                i <= self.users.len(),
                forall|j: int| 0 <= j < i ==> !listens_at(email@)(#[trigger] self@.users[j]),
            decreases self.users.len() - i,
        {
            if self.users[i].enabled && *self.users[i].email.as_str() == *email {
                proof {
                    lemma_position_at(self@.users, listens_at(email@), i as int);
                }
                return Some(i);
            }
            i += 1;
        }
        proof {
            lemma_position(self@.users, listens_at(email@));
        }
        None
    }

    /// The user with the identifier `person_id`, who is added if there is none.
    pub fn find_or_add_user<'a>(&'a mut self, person_id: &str, email: &str) -> (user: &'a mut User)
        ensures
            match find(old(self)@.users, person_id@) {
                Some(i) => user@ == old(self)@.users[i] && final(self)@ == (BotView {
                    users: old(self)@.users.update(i, (*final(user))@),
                    ..old(self)@
                }),
                None => user@ == new_user(person_id@, email@) && final(self)@ == (BotView {
                    users: old(self)@.users.push((*final(user))@),
                    ..old(self)@
                }),
            },
    {
        match self.position_of(person_id) {
            Some(pos) => &mut self.users[pos],
            None => self.add_user(person_id, email),
        }
    }

    /// Switches notifications for a person on or off, and adds the person if need be.
    pub fn enable<'a>(&'a mut self, person_id: &str, email: &str, enabled: bool) -> (user: &'a User)
        ensures
            final(self)@ == (BotView {
                users: with_enabled(old(self)@.users, person_id@, email@, enabled),
                ..old(self)@
            }),
            find(final(self)@.users, person_id@) is Some,
            user@ == final(self)@.users[find(final(self)@.users, person_id@)->0],
    {
        proof {
            lemma_with_enabled(self@.users, person_id@, email@, enabled);
            lemma_position(self@.users, has_id(person_id@));
        }
        let user = self.find_or_add_user(person_id, email);
        user.enabled = enabled;
        user
    }

    pub fn num_users(&self) -> (n: usize)
        ensures
            n == self@.users.len(),
    {
        self.users.len()
    }

    /// Reports whether a person is notified, and how many others there are.
    pub fn status_for(&self, person_id: &str) -> (status: String)
        ensures
            status@ == status_text(self@.users, person_id@),
    {
        let enabled = match self.find_user(person_id) {
            Some(user) => user.enabled,
            None => false,
        };
        proof {
            lemma_position(self@.users, has_id(person_id@));
        }
        let others: usize = if enabled { self.num_users() - 1 } else { self.num_users() };
        let mut status = String::from("Notifications for you are **");
        status.append(switch_text(enabled));
        status.append("**. I am notifying another ");
        status.append(decimal_text(others).as_str());
        status.append(" user(s).");
        status
    }

    pub fn find_user_mut<'a>(&'a mut self, person_id: &str) -> (user: Option<&'a mut User>)
        ensures
            match user {
                Some(user) => {
                    &&& find(old(self)@.users, person_id@) matches Some(i)
                    &&& user@ == old(self)@.users[i]
                    &&& final(self)@ == (BotView {
                        users: old(self)@.users.update(i, (*final(user))@),
                        ..old(self)@
                    })
                },
                None => find(old(self)@.users, person_id@) is None && *final(self) == *old(self),
            },
    {
        match self.position_of(person_id) {
            Some(pos) => Some(&mut self.users[pos]),
            None => None,
        }
    }

    pub fn find_user<'a>(&'a self, person_id: &str) -> (user: Option<&'a User>)
        ensures
            match user {
                Some(user) => find(self@.users, person_id@) matches Some(i) && user@
                    == self@.users[i],
                None => find(self@.users, person_id@) is None,
            },
    {
        match self.position_of(person_id) {
            Some(pos) => Some(&self.users[pos]),
            None => None,
        }
    }

    /// Gives a person a filter, which is then enabled.
    pub fn add_filter<A: Into<String>>(&mut self, person_id: &str, filter: A) -> (r: Result<
        (),
        AddFilterResult,
    >)
        ensures
            final(self)@.cache == old(self)@.cache,
            !is_enabled(old(self)@.users, person_id@) ==> {
                &&& final(self)@ == old(self)@
                &&& r == Err::<(), AddFilterResult>(
                    if find(old(self)@.users, person_id@) is None {
                        AddFilterResult::UserNotFound
                    } else {
                        AddFilterResult::UserDisabled
                    },
                )
            },
            is_enabled(old(self)@.users, person_id@) ==> exists|regex: String|
                {
                    &&& #[trigger] call_ensures(A::into, (filter,), regex)
                    &&& (final(self)@.users, r) == with_filter(
                        old(self)@.users,
                        person_id@,
                        regex@,
                    )
                },
    {
        proof {
            lemma_position(self@.users, has_id(person_id@));
        }
        let ghost users = self@.users;
        match self.find_user_mut(person_id) {
            Some(user) => {
                if !user.enabled {
                    assert(users.update(find(users, person_id@)->0, user@) == users);
                    Err(AddFilterResult::UserDisabled)
                } else {
                    let filter: String = filter.into();
                    let valid = regex_compiles(filter.as_str());
                    user.give_filter(filter, valid)
                }
            },
            None => Err(AddFilterResult::UserNotFound),
        }
    }

    pub fn get_filter<'a>(&'a self, person_id: &str) -> (r: Result<
        Option<&'a Filter>,
        AddFilterResult,
    >)
        ensures
            filter_result(r) == filter_of(self@.users, person_id@),
    {
        match self.find_user(person_id) {
            Some(user) => Ok(user.filter.as_ref()),
            None => Err(AddFilterResult::UserNotFound),
        }
    }

    /// Switches the filter of a person on or off, and returns its expression.
    pub fn enable_filter(&mut self, person_id: &str, enabled: bool) -> (r: Result<
        String,
        AddFilterResult,
    >)
        ensures
            final(self)@.cache == old(self)@.cache,
            (final(self)@.users, text_result(r)) == with_switched_filter(
                old(self)@.users,
                person_id@,
                enabled,
            ),
    {
        match self.find_user_mut(person_id) {
            Some(user) => {
                let valid = match &user.filter {
                    Some(filter) => user.enabled && regex_compiles(filter.regex.as_str()),
                    None => false,
                };
                user.switch_filter(enabled, valid)
            },
            None => Err(AddFilterResult::UserNotFound),
        }
    }

    /// Whether the filter of a user keeps a message back. A filter that is not valid keeps no
    /// message back.
    pub fn is_filtered(&self, user_ref: usize, msg: &str) -> (r: bool)
        requires
            user_ref < self.users.len(),
        ensures
            r == filtered(self@.users[user_ref as int], msg@),
    {
        let user = &self.users[user_ref];
        let found = match &user.filter {
            Some(filter) => {
                if filter.enabled && regex_compiles(filter.regex.as_str()) {
                    Some(regex_search(filter.regex.as_str(), msg))
                } else {
                    None
                }
            },
            None => None,
        };
        user.keeps_back(found)
    }

    /// Whether the message with the line `line` was sent already. It is remembered if not.
    fn note_line(&mut self, line: MsgCacheLine) -> (repeated: bool)
        requires
            is_usable(old(self)@.cache),
        ensures
            final(self).users == old(self).users,
            exists|turn: Turn|
                {
                    &&& #[trigger] can_note(old(self)@.cache, line@, turn)
                    &&& repeated == is_repeated(old(self)@.cache, line@, turn)
                    &&& final(self)@.cache == noted(old(self)@.cache, line@, turn)
                },
    {
        let ghost before = self@.cache;
        match self.msg_cache.as_mut() {
            Some(cache) => {
                let key = line.into_key();
                let ghost start = cache_view(*cache);
                let hit = cache_get(cache, &key);
                let ghost n = choose|n: nat|
                    {
                        &&& #[trigger] start.can_expire(n)
                        &&& hit == start.hits(key_line(key), n)
                        &&& cache_view(*cache) == start.looked_up(key_line(key), n)
                    };
                let ghost mut m: nat = 0;
                if !hit {
                    let ghost middle = cache_view(*cache);
                    cache_insert(cache, key);
                    proof {
                        m = choose|m: nat|
                            {
                                &&& #[trigger] middle.can_expire(m)
                                &&& cache_view(*cache) == middle.remembered(key_line(key), m)
                            };
                    }
                }
                let ghost turn = Turn {
                    expired_at_lookup: n,
                    expired_at_insert: m,
                    answer: Seq::empty(),
                };
                assert(can_note(before, line@, turn));
                hit
            },
            None => {
                let ghost turn = Turn {
                    expired_at_lookup: 0,
                    expired_at_insert: 0,
                    answer: Seq::empty(),
                };
                assert(can_note(before, line@, turn));
                false
            },
        }
    }

    /// What is left of a formatted message for a user: nothing if it is filtered or empty.
    pub fn keep_msg(&self, user_ref: usize, msg: String) -> (r: Option<String>)
        requires
            user_ref < self.users.len(),
        ensures
            opt_text(r) == kept(self@.users[user_ref as int], msg@),
    {
        if self.is_filtered(user_ref, msg.as_str()) {
            return None;
        }
        if !msg.as_str().is_empty() {
            Some(msg)
        } else {
            None
        }
    }

    /// The question about an approval, if it is worth a message: it is news that was not sent
    /// already.
    pub fn ask_about(&mut self, user_ref: usize, event: &Event, approval: &Approval) -> (asked:
        Option<Question>)
        requires
            event.author is Some,
            is_news(approval@) ==> is_usable(old(self)@.cache),
        ensures
            final(self).users == old(self).users,
            asked matches Some(question) ==> question@ == question_about(event@, approval@),
            !is_news(approval@) ==> asked is None && final(self)@.cache == old(self)@.cache,
            is_news(approval@) ==> exists|turn: Turn|
                {
                    &&& #[trigger] can_note(
                        old(self)@.cache,
                        line_of(user_ref, event@, approval@),
                        turn,
                    )
                    &&& asked is None == is_repeated(
                        old(self)@.cache,
                        line_of(user_ref, event@, approval@),
                        turn,
                    )
                    &&& final(self)@.cache == noted(
                        old(self)@.cache,
                        line_of(user_ref, event@, approval@),
                        turn,
                    )
                },
    {
        if !approval_is_news(approval) {
            return None;
        }
        if self.note_line(cache_line(user_ref, event, approval)) {
            None
        } else {
            Some(question(event, approval))
        }
    }

    /// The position of the user who is told about `event`.
    fn recipient_of(&self, event: &Event) -> (pos: Option<usize>)
        ensures
            match pos {
                Some(i) => i < self.users.len() && recipient(self@.users, event@) == Some(i as int),
                None => recipient(self@.users, event@) is None,
            },
    {
        if event.approvals.is_none() {
            return None;
        }
        match (&event.author, &event.change.owner.email) {
            (Some(author), Some(owner_email)) => {
                if *author.username.as_str() == *event.change.owner.username.as_str() {
                    // No need to notify about user's own approvals.
                    return None;
                }
                self.listener_at(owner_email.as_str())
            },
            _ => None,
        }
    }

    /// Whether the handling of `event` consults the cache: there is a recipient, and news.
    pub fn needs_cache(&self, event: &Event) -> (r: bool)
        ensures
            r == consults_cache(self@.users, event@),
    {
        if self.recipient_of(event).is_none() {
            return false;
        }
        let approvals = event.approvals.as_ref().unwrap();
        let mut i: usize = 0;
        while i < approvals.len()
            invariant
                i <= approvals.len(),
                event.approvals == Some(*approvals),
                recipient(self@.users, event@) is Some,
                forall|j: int| 0 <= j < i ==> !is_news(#[trigger] event@.approvals->0[j]),
            decreases approvals.len() - i,
        {
            assert(event@.approvals->0[i as int] == approvals@[i as int]@);
            if approval_is_news(&approvals[i]) {
                return true;
            }
            i += 1;
        }
        false
    }

    /// Handles the approvals of an event up to the next question for the script.
    fn proceed(&mut self, pending: Pending) -> (stage: Stage)
        requires
            pending@.wf(old(self)@.users),
            pending@.has_news() ==> is_usable(old(self)@.cache),
        ensures
            final(self).users == old(self).users,
            can_proceed(
                old(self)@.users,
                pending@,
                old(self)@.cache,
                stage@,
                final(self)@.cache,
            ),
            same_limits(old(self)@.cache, final(self)@.cache),
            stage matches Stage::Ask(p, _) ==> p@.fits(old(self)@.users)
                && is_usable(final(self)@.cache),
    {
        let ghost users = self@.users;
        let ghost start = pending@;
        let ghost cache = self@.cache;
        let mut rest = pending;
        while rest.done < rest.event.approvals.as_ref().unwrap().len()
            invariant
                users == old(self)@.users,
                start == pending@,
                cache == old(self)@.cache,
                self.users == old(self).users,
                start.wf(users),
                rest@.wf(users),
                start.done <= rest.done,
                rest@ == (PendingView { done: rest.done as nat, ..start }),
                same_limits(cache, self@.cache),
                start.has_news() ==> is_usable(cache),
                forall|stage: StageView, after: Option<CacheView>| #[trigger]
                    can_proceed(users, rest@, self@.cache, stage, after) ==> can_proceed(
                        users,
                        start,
                        cache,
                        stage,
                        after,
                    ),
            decreases rest@.approvals().len() - rest.done,
        {
            let ghost before = self@.cache;
            let ghost here = rest@;
            let approval = &rest.event.approvals.as_ref().unwrap()[rest.done];
            assert(approval@ == start.approvals()[rest.done as int]);
            let asked = self.ask_about(rest.user_ref, &rest.event, approval);
            let ghost line = line_of(here.user_ref, here.event, approval@);
            let ghost turn = choose|turn: Turn|
                {
                    &&& #[trigger] can_note(before, line, turn)
                    &&& asked is None == is_repeated(before, line, turn)
                    &&& self@.cache == noted(before, line, turn)
                };
            match asked {
                Some(question) => {
                    assert(can_proceed(
                        users,
                        here,
                        before,
                        StageView::Ask(here, question@),
                        self@.cache,
                    ));
                    return Stage::Ask(rest, question);
                },
                None => {
                    rest.done += 1;
                    assert(rest@ == here.passed());
                    assert forall|stage: StageView, after: Option<CacheView>| #[trigger]
                        can_proceed(users, rest@, self@.cache, stage, after) implies can_proceed(
                        users,
                        start,
                        cache,
                        stage,
                        after,
                    ) by {
                        assert(can_proceed(users, here, before, stage, after));
                    }
                },
            }
        }
        proof {
            let told = notice(users[rest.user_ref as int], rest@.messages);
            assert(can_proceed(users, rest@, self@.cache, StageView::Told(told), self@.cache));
        }
        match compose(&rest.messages) {
            Some(text) => Stage::Told(Some((&self.users[rest.user_ref], text))),
            None => Stage::Told(None),
        }
    }

    /// Handles the approvals of an event: the user who is told about it, and the text, or the
    /// first question for the script. The handling goes on with [`Bot::resume_approvals_msg`].
    pub fn get_approvals_msg(&mut self, event: Event) -> (stage: Stage)
        requires
            consults_cache(old(self)@.users, event@) ==> is_usable(old(self)@.cache),
        ensures
            final(self).users == old(self).users,
            can_begin(old(self)@.users, event@, old(self)@.cache, stage@, final(self)@.cache),
            same_limits(old(self)@.cache, final(self)@.cache),
            stage matches Stage::Ask(p, _) ==> p@.fits(old(self)@.users)
                && is_usable(final(self)@.cache),
    {
        let user_ref = match self.recipient_of(&event) {
            Some(user_ref) => user_ref,
            None => {
                return Stage::Told(None);
            },
        };
        let pending = Pending { user_ref: user_ref, event: event, done: 0, messages: Vec::new() };
        assert(pending@ == fresh(user_ref, event@));
        self.proceed(pending)
    }

    /// Goes on with the handling of an event after the script gave `answer`.
    pub fn resume_approvals_msg(&mut self, pending: Pending, answer: String) -> (stage: Stage)
        requires
            pending@.fits(old(self)@.users),
            is_usable(old(self)@.cache),
        ensures
            final(self).users == old(self).users,
            can_go_on(
                old(self)@.users,
                pending@,
                answer@,
                old(self)@.cache,
                stage@,
                final(self)@.cache,
            ),
            same_limits(old(self)@.cache, final(self)@.cache),
            stage matches Stage::Ask(p, _) ==> p@.fits(old(self)@.users)
                && is_usable(final(self)@.cache),
    {
        let ghost before = pending@;
        let mut pending = pending;
        match self.keep_msg(pending.user_ref, answer) {
            Some(msg) => {
                pending.messages.push(msg);
                assert(texts(pending.messages@) == before.messages.push(msg@));
            },
            None => {},
        }
        assert(pending.done < pending.event.approvals->0.len());
        pending.done += 1;
        assert(pending@ == before.answered(self@.users[pending.user_ref as int], answer@));
        self.proceed(pending)
    }
}

/// Notifications are on or off for a person after they were switched on or off.
proof fn lemma_with_enabled(
    users: Seq<UserView>,
    person_id: Seq<char>,
    email: Seq<char>,
    enabled: bool,
)
    ensures
        ({
            let after = with_enabled(users, person_id, email, enabled);
            let i = match find(users, person_id) {
                Some(i) => i,
                None => users.len() as int,
            };
            find(after, person_id) == Some(i) && 0 <= i < after.len()
        }),
{
    let after = with_enabled(users, person_id, email, enabled);
    lemma_position(users, has_id(person_id));
    match find(users, person_id) {
        Some(i) => {
            assert forall|j: int| 0 <= j < i implies !has_id(person_id)(#[trigger] after[j]) by {
                assert(after[j] == users[j]);
            }
            lemma_position_at(after, has_id(person_id), i);
        },
        None => {
            assert forall|j: int| 0 <= j < users.len() implies !has_id(person_id)(
                #[trigger] after[j],
            ) by {
                assert(after[j] == users[j]);
            }
            lemma_position_at(after, has_id(person_id), users.len() as int);
        },
    }
}

} // verus!
