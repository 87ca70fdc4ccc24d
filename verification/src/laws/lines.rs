//! Laws on the lines by which messages are remembered.
use std::cmp::Ordering;
use vstd::prelude::*;
use vstd::std_specs::cmp::{PartialEqSpec, PartialOrdSpec};
use crate::cache::{key_line, line_order, CacheKey, LineView, MsgCacheLine};
use crate::text::text_order;

verus! {

/// Whether the parts `a` of a line come before the parts `b`: the first part in which they differ
/// decides.
pub open spec fn comes_before(a: LineView, b: LineView) -> bool {
    ||| a.0 < b.0
    ||| a.0 == b.0 && text_order(a.1, b.1) == Ordering::Less
    ||| a.0 == b.0 && a.1 == b.1 && text_order(a.2, b.2) == Ordering::Less
    ||| a.0 == b.0 && a.1 == b.1 && a.2 == b.2 && text_order(a.3, b.3) == Ordering::Less
    ||| a.0 == b.0 && a.1 == b.1 && a.2 == b.2 && a.3 == b.3 && text_order(a.4, b.4)
        == Ordering::Less
}

/// Two lines are equal, and are the same key of the cache, exactly if the user, the subject, the
/// approver, the type and the value of the approval are equal, and one comes before the other
/// exactly if it does so by these parts.
pub proof fn law_a_line_is_its_parts(
    parts: (usize, String, String, String, String),
    line: MsgCacheLine,
    key: CacheKey,
    other_parts: (usize, String, String, String, String),
    other_line: MsgCacheLine,
    other_key: CacheKey,
)
    requires
        call_ensures(MsgCacheLine::new, parts, line),
        call_ensures(MsgCacheLine::into_key, (line,), key),
        call_ensures(MsgCacheLine::new, other_parts, other_line),
        call_ensures(MsgCacheLine::into_key, (other_line,), other_key),
    ensures
        line.eq_spec(&other_line) <==> {
            &&& parts.0 == other_parts.0
            &&& parts.1@ == other_parts.1@
            &&& parts.2@ == other_parts.2@
            &&& parts.3@ == other_parts.3@
            &&& parts.4@ == other_parts.4@
        },
        key_line(key) == key_line(other_key) <==> line.eq_spec(&other_line),
        line.partial_cmp_spec(&other_line) == Some(Ordering::Less) <==> comes_before(
            key_line(parts),
            key_line(other_parts),
        ),
        line.partial_cmp_spec(&other_line) == Some(Ordering::Equal) <==> line.eq_spec(&other_line),
{
    let a = key_line(parts);
    let b = key_line(other_parts);
    lemma_text_order(a.1, b.1);
    lemma_text_order(a.2, b.2);
    lemma_text_order(a.3, b.3);
    lemma_text_order(a.4, b.4);
}

/// The order of lines is total: of two lines that differ exactly one comes before the other, and
/// what comes before a line comes before all lines after it.
pub proof fn law_lines_are_ordered(a: LineView, b: LineView, c: LineView)
    ensures
        line_order(a, b) == Ordering::Equal <==> a == b,
        line_order(a, b) == Ordering::Less <==> line_order(b, a) == Ordering::Greater,
        line_order(a, b) == Ordering::Less && line_order(b, c) == Ordering::Less ==> line_order(
            a,
            c,
        ) == Ordering::Less,
{
    lemma_text_order(a.1, b.1);
    lemma_text_order(a.2, b.2);
    lemma_text_order(a.3, b.3);
    lemma_text_order(a.4, b.4);
    lemma_text_order(b.1, c.1);
    lemma_text_order(b.2, c.2);
    lemma_text_order(b.3, c.3);
    lemma_text_order(b.4, c.4);
    lemma_text_order_chains(a.1, b.1, c.1);
    lemma_text_order_chains(a.2, b.2, c.2);
    lemma_text_order_chains(a.3, b.3, c.3);
    lemma_text_order_chains(a.4, b.4, c.4);
}

proof fn lemma_text_order(a: Seq<char>, b: Seq<char>)
    ensures
        text_order(a, b) == Ordering::Equal <==> a == b,
        text_order(a, b) == Ordering::Less <==> text_order(b, a) == Ordering::Greater,
        text_order(a, b) == Ordering::Greater <==> text_order(b, a) == Ordering::Less,
    decreases a.len(),
{
    if a.len() > 0 && b.len() > 0 {
        lemma_text_order(a.skip(1), b.skip(1));
        if text_order(a, b) == Ordering::Equal {
            assert(a == seq![a[0]] + a.skip(1));
            assert(b == seq![b[0]] + b.skip(1));
        }
    } else if a.len() == 0 && b.len() == 0 {
        assert(a == b);
    }
}

proof fn lemma_text_order_chains(a: Seq<char>, b: Seq<char>, c: Seq<char>)
    ensures
        text_order(a, b) == Ordering::Less && text_order(b, c) == Ordering::Less ==> text_order(
            a,
            c,
        ) == Ordering::Less,
    decreases a.len(),
{
    if a.len() > 0 && b.len() > 0 && c.len() > 0 {
        lemma_text_order_chains(a.skip(1), b.skip(1), c.skip(1));
    }
}

} // verus!
