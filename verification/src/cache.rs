//! The memory of the messages that were sent lately.
//!
//! A message is remembered by its *line*. The memory is an LRU cache: it holds at most a fixed
//! number of lines, ordered from the least to the most recently used one, and forgets a line
//! that has not been used for a fixed time.
use std::cmp::Ordering;
use vstd::prelude::*;
use lru_time_cache::LruCache;
use crate::outside::compare_texts;
use crate::text::text_order;

verus! {

/// How long a line is remembered after its last use.
#[derive(Debug, Clone, Copy)]
pub struct Expiration {
    pub secs: u64,
    pub nanos: u32,
}

/// The nanoseconds of a second.
pub const NANOS_PER_SEC: u32 = 1_000_000_000;

/// The longest expiration in seconds that the clock is asked to reach.
pub const LONGEST_SECS: u64 = 4_294_967_295;

impl Expiration {
    /// The fraction of a second is below one second.
    pub open spec fn wf(self) -> bool {
        self.nanos < NANOS_PER_SEC
    }

    /// The longest time that can be written, which stands for "does not expire".
    pub open spec fn is_never(self) -> bool {
        self.secs == u64::MAX && self.nanos == 999_999_999
    }

    /// The point in time at which a line expires exists: either lines do not expire, or the
    /// clock reaches that far.
    pub open spec fn is_reachable(self) -> bool {
        self.is_never() || self.secs <= LONGEST_SECS
    }

    /// An expiration of whole seconds.
    pub fn from_secs(secs: u64) -> (e: Expiration)
        ensures
            e.wf(),
            e == (Expiration { secs: secs, nanos: 0 }),
    {
        Expiration { secs: secs, nanos: 0 }
    }

    /// An expiration of whole milliseconds.
    pub fn from_millis(millis: u64) -> (e: Expiration)
        ensures
            e.wf(),
            e.secs == millis / 1000,
            e.nanos == (millis % 1000) * 1_000_000,
    {
        Expiration { secs: millis / 1000, nanos: (millis % 1000) as u32 * 1_000_000 }
    }
}

/// What identifies a message that was sent. Lines are ordered by their fields, from the first to
/// the last.
#[derive(Clone, Eq, Ord)]
pub struct MsgCacheLine {
    /// position of the user among the users of the bot
    pub user_ref: usize,
    pub subject: String,
    pub approver: String,
    pub approval_type: String,
    pub approval_value: String,
}

/// What a [`MsgCacheLine`] holds: the position of the user, the subject, the approver, the type
/// and the value of the approval.
pub type LineView = (usize, Seq<char>, Seq<char>, Seq<char>, Seq<char>);

/// The form in which a line is a key of the cache.
pub type CacheKey = (usize, String, String, String, String);

/// The cache of lines.
pub type MsgCache = LruCache<CacheKey, ()>;

/// The line that a key stands for.
pub open spec fn key_line(key: CacheKey) -> LineView {
    (key.0, key.1@, key.2@, key.3@, key.4@)
}

impl View for MsgCacheLine {
    type V = LineView;

    open spec fn view(&self) -> LineView {
        (self.user_ref, self.subject@, self.approver@, self.approval_type@, self.approval_value@)
    }
}

/// The order of two numbers.
pub open spec fn number_order(a: usize, b: usize) -> Ordering {
    if a < b {
        Ordering::Less
    } else if a == b {
        Ordering::Equal
    } else {
        Ordering::Greater
    }
}

/// The order by `first`, and by `second` where `first` makes no difference.
pub open spec fn refined(first: Ordering, second: Ordering) -> Ordering {
    if first == Ordering::Equal {
        second
    } else {
        first
    }
}

/// How two lines are ordered: the first part in which they differ decides.
pub open spec fn line_order(a: LineView, b: LineView) -> Ordering {
    refined(
        number_order(a.0, b.0),
        refined(
            text_order(a.1, b.1),
            refined(text_order(a.2, b.2), refined(text_order(a.3, b.3), text_order(a.4, b.4))),
        ),
    )
}

impl PartialEq for MsgCacheLine {
    fn eq(&self, other: &MsgCacheLine) -> (r: bool) {
        self.user_ref == other.user_ref && *self.subject.as_str() == *other.subject.as_str()
            && *self.approver.as_str() == *other.approver.as_str()
            && *self.approval_type.as_str() == *other.approval_type.as_str()
            && *self.approval_value.as_str() == *other.approval_value.as_str()
    }
}

impl vstd::std_specs::cmp::PartialEqSpecImpl for MsgCacheLine {
    open spec fn obeys_eq_spec() -> bool {
        true
    }

    open spec fn eq_spec(&self, other: &MsgCacheLine) -> bool {
        self@ == other@
    }
}

impl PartialOrd for MsgCacheLine {
    fn partial_cmp(&self, other: &MsgCacheLine) -> (r: Option<Ordering>) {
        if self.user_ref < other.user_ref {
            return Some(Ordering::Less);
        }
        if self.user_ref > other.user_ref {
            return Some(Ordering::Greater);
        }
        let by_subject = compare_texts(self.subject.as_str(), other.subject.as_str());
        let by_approver = compare_texts(self.approver.as_str(), other.approver.as_str());
        let by_type = compare_texts(self.approval_type.as_str(), other.approval_type.as_str());
        let by_value = compare_texts(self.approval_value.as_str(), other.approval_value.as_str());
        Some(match (by_subject, by_approver, by_type) {
            (Ordering::Equal, Ordering::Equal, Ordering::Equal) => by_value,
            (Ordering::Equal, Ordering::Equal, _) => by_type,
            (Ordering::Equal, _, _) => by_approver,
            _ => by_subject,
        })
    }
}

impl vstd::std_specs::cmp::PartialOrdSpecImpl for MsgCacheLine {
    open spec fn obeys_partial_cmp_spec() -> bool {
        true
    }

    open spec fn partial_cmp_spec(&self, other: &MsgCacheLine) -> Option<Ordering> {
        Some(line_order(self@, other@))
    }
}

impl MsgCacheLine {
    pub fn new(
        user_ref: usize,
        subject: String,
        approver: String,
        approval_type: String,
        approval_value: String,
    ) -> (line: MsgCacheLine)
        ensures
            line@ == (user_ref, subject@, approver@, approval_type@, approval_value@),
    {
        MsgCacheLine {
            user_ref: user_ref,
            subject: subject,
            approver: approver,
            approval_type: approval_type,
            approval_value: approval_value,
        }
    }

    /// The key of this line in the cache.
    pub fn into_key(self) -> (key: CacheKey)
        ensures
            key_line(key) == self@,
    {
        (self.user_ref, self.subject, self.approver, self.approval_type, self.approval_value)
    }
}

/// What a cache of lines holds, and its limits.
#[verifier::ext_equal]
pub struct CacheView {
    /// the lines, from the least to the most recently used one
    pub lines: Seq<LineView>,
    pub capacity: usize,
    pub expiration: Expiration,
}

impl CacheView {
    /// No line occurs twice, and there are no more of them than the capacity allows.
    pub open spec fn wf(self) -> bool {
        self.lines.no_duplicates() && self.lines.len() <= self.capacity
    }

    /// Lines can be looked up and remembered.
    pub open spec fn is_usable(self) -> bool {
        self.capacity > 0 && self.expiration.is_reachable()
    }

    /// Whether the clock can make `expired` lines expire before an operation on the cache.
    pub open spec fn can_expire(self, expired: nat) -> bool {
        expired <= self.lines.len() && (self.expiration.is_never() ==> expired == 0)
    }

    /// The cache without its `n` least recently used lines.
    pub open spec fn without_oldest(self, n: nat) -> CacheView {
        CacheView { lines: self.lines.skip(n as int), ..self }
    }

    /// The cache after `line` was used.
    pub open spec fn used(self, line: LineView) -> CacheView {
        CacheView { lines: self.lines.remove_value(line).push(line), ..self }
    }

    /// Whether a lookup finds `line` when `expired` lines expire before it.
    pub open spec fn hits(self, line: LineView, expired: nat) -> bool {
        self.without_oldest(expired).lines.contains(line)
    }

    /// The cache after a lookup of `line` before which `expired` lines expire: a line that is
    /// found counts as used.
    pub open spec fn looked_up(self, line: LineView, expired: nat) -> CacheView {
        let rest = self.without_oldest(expired);
        if rest.lines.contains(line) {
            rest.used(line)
        } else {
            rest
        }
    }

    /// The cache after `line` was remembered: a line that it holds counts as used, a new one
    /// takes the place of the `expired` lines that expire before, or of the least recently used
    /// one if none expires and the cache is full.
    pub open spec fn remembered(self, line: LineView, expired: nat) -> CacheView {
        if self.lines.contains(line) {
            self.used(line)
        } else {
            let dropped: nat = if expired == 0 && self.lines.len() == self.capacity {
                1
            } else {
                expired
            };
            let rest = self.without_oldest(dropped);
            CacheView { lines: rest.lines.push(line), ..rest }
        }
    }
}

/// Whether two optional caches have the same limits.
pub open spec fn same_limits(a: Option<CacheView>, b: Option<CacheView>) -> bool {
    match (a, b) {
        (Some(a), Some(b)) => a.capacity == b.capacity && a.expiration == b.expiration,
        (None, None) => true,
        _ => false,
    }
}

} // verus!
