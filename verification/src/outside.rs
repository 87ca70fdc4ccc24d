//! What the bot takes from outside: regular expressions, the LRU cache, and a few functions of
//! the standard library. The contracts of this module are trusted.
use std::cmp::Ordering;
use std::time::Duration;
use vstd::prelude::*;
use lru_time_cache::LruCache;
use regex::Regex;
use crate::cache::{CacheKey, CacheView, Expiration, LineView, MsgCache};
use crate::cache::key_line;
use crate::text::{spelled_i32, text_order};

verus! {

/// `String::from` copies the string slice.
pub assume_specification<'b>[ <String as From<&'b str>>::from ](s: &str) -> (r: String)
    ensures
        r@ == s@,
;

/// The conversion of a type into itself, `From<T> for T`, hands the value back.
pub assume_specification<T>[ <T as From<T>>::from ](t: T) -> (r: T)
    ensures
        r == t,
;

/// Two string slices are equal if they hold the same characters.
pub assume_specification[ <str as PartialEq>::eq ](a: &str, b: &str) -> (r: bool)
    ensures
        r == (a@ == b@),
;

/// `str::parse::<i32>` reads an optional sign and decimal digits, and fails on anything else and
/// on a number that the type cannot hold.
#[verifier::external_body]
pub(crate) fn parse_i32(s: &str) -> (value: Option<i32>)
    ensures
        value == spelled_i32(s@),
{
    s.parse::<i32>().ok()
}

/// `Ord::cmp` of string slices orders them by their characters, one after the other.
#[verifier::external_body]
pub(crate) fn compare_texts(a: &str, b: &str) -> (order: Ordering)
    ensures
        order == text_order(a@, b@),
{
    a.cmp(b)
}

/// Whether [`Regex::new`] accepts `pattern`. It refuses a pattern whose compiled form is too
/// large, and measures this form in bytes, so the name speaks of the platform that the library is
/// built for.
pub uninterp spec fn regex_is_valid(pattern: Seq<char>) -> bool;

/// Whether the regular expression `pattern` matches somewhere in `text`, as
/// [`Regex::is_match`] answers it.
pub uninterp spec fn regex_matches(pattern: Seq<char>, text: Seq<char>) -> bool;

/// Calls [`Regex::new`]: the answer is named by [`regex_is_valid`]. A pattern with a class that
/// matches no character, such as `\P{any}`, is refused like any other that is not valid.
#[verifier::external_body]
pub(crate) fn regex_compiles(pattern: &str) -> (valid: bool)
    ensures
        valid == regex_is_valid(pattern@),
{
    Regex::new(pattern).is_ok()
}

/// Calls [`Regex::is_match`] on a pattern that compiles: the answer is named by
/// [`regex_matches`].
#[verifier::external_body]
pub(crate) fn regex_search(pattern: &str, text: &str) -> (found: bool)
    requires
        regex_is_valid(pattern@),
    ensures
        found == regex_matches(pattern@, text@),
{
    Regex::new(pattern).unwrap().is_match(text)
}

/// The LRU cache of the crate `lru_time_cache`.
#[verifier::external_type_specification]
#[verifier::external_body]
#[verifier::reject_recursive_types(Key)]
#[verifier::reject_recursive_types(Value)]
pub struct ExLruCache<Key, Value>(LruCache<Key, Value>);

/// The lines that a cache holds, from the least to the most recently used one. Lines that have
/// expired are among them until an operation drops them.
pub uninterp spec fn cache_lines(
    cache: LruCache<(usize, String, String, String, String), ()>,
) -> Seq<(usize, Seq<char>, Seq<char>, Seq<char>, Seq<char>)>;

/// The number of lines that a cache was made for.
pub uninterp spec fn cache_capacity(
    cache: LruCache<(usize, String, String, String, String), ()>,
) -> usize;

/// The time that a cache was made to keep a line after its last use.
pub uninterp spec fn cache_expiration(
    cache: LruCache<(usize, String, String, String, String), ()>,
) -> Expiration;

/// What a cache holds, and its limits.
pub open spec fn cache_view(cache: MsgCache) -> CacheView {
    CacheView {
        lines: cache_lines(cache),
        capacity: cache_capacity(cache),
        expiration: cache_expiration(cache),
    }
}

/// [`LruCache::with_expiry_duration_and_capacity`] makes an empty cache with the given limits.
#[verifier::external_body]
pub(crate) fn new_cache(expiration: Expiration, capacity: usize) -> (cache: MsgCache)
    requires
        expiration.wf(),
    ensures
        cache_lines(cache) == Seq::<LineView>::empty(),
        cache_capacity(cache) == capacity,
        cache_expiration(cache) == expiration,
{
    let time_to_live = Duration::new(expiration.secs, expiration.nanos);
    LruCache::with_expiry_duration_and_capacity(time_to_live, capacity)
}

/// [`LruCache::get`] drops the expired lines at the old end of the cache, tells whether `key`
/// is among the rest, and if so makes it the most recently used one. How many lines have
/// expired is up to the clock; none does in a cache whose lines do not expire. The clock has to
/// reach the time at which a line expires.
#[verifier::external_body]
pub(crate) fn cache_get(cache: &mut MsgCache, key: &CacheKey) -> (hit: bool)
    requires
        cache_expiration(*old(cache)).is_reachable(),
    ensures
        exists|expired: nat|
            {
                &&& #[trigger] cache_view(*old(cache)).can_expire(expired)
                &&& hit == cache_view(*old(cache)).hits(key_line(*key), expired)
                &&& cache_view(*final(cache)) == cache_view(*old(cache)).looked_up(
                    key_line(*key),
                    expired,
                )
            },
{
    cache.get(key).is_some()
}

/// [`LruCache::insert`] makes `key` the most recently used line. For a new line it first drops
/// the expired lines at the old end, and the oldest line if the cache is full. How many lines
/// have expired is up to the clock; none does in a cache whose lines do not expire. The clock
/// has to reach the time at which a line expires, and the cache has to have room for a line.
#[verifier::external_body]
pub(crate) fn cache_insert(cache: &mut MsgCache, key: CacheKey)
    requires
        cache_view(*old(cache)).is_usable(),
    ensures
        exists|expired: nat|
            {
                &&& #[trigger] cache_view(*old(cache)).can_expire(expired)
                &&& cache_view(*final(cache)) == cache_view(*old(cache)).remembered(
                    key_line(key),
                    expired,
                )
            },
{
    let _ = cache.insert(key, ());
}

} // verus!
