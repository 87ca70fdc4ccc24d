//! Laws on how numbers are written and read, and on how texts are joined.
use vstd::prelude::*;
use crate::text::{
    all_digits, decimal, decimal_text, digits_value, is_digit, join_texts, joined, spelled_i32,
    texts,
};

verus! {

/// A numeral is made of decimal digits alone, has no leading zero unless it is zero, and the value
/// of its digits is the number. A number that fits is read back from it.
pub proof fn law_a_numeral_is_read_back(n: usize, text: String)
    requires
        call_ensures(decimal_text, (n,), text),
    ensures
        text@.len() > 0,
        forall|i: int| 0 <= i < text@.len() ==> '0' <= #[trigger] text@[i] && text@[i] <= '9',
        text@[0] == '0' ==> n == 0 && text@.len() == 1,
        digits_value(text@) == n,
        n <= i32::MAX ==> spelled_i32(text@) == Some(n as i32),
{
    lemma_decimal(n as nat);
    assert forall|i: int| 0 <= i < text@.len() implies '0' <= #[trigger] text@[i] && text@[i]
        <= '9' by {
        assert(is_digit(text@[i]));
    }
}

proof fn lemma_decimal(n: nat)
    ensures
        decimal(n).len() > 0,
        all_digits(decimal(n)),
        decimal(n)[0] == '0' ==> n == 0 && decimal(n).len() == 1,
        digits_value(decimal(n)) == n,
        n <= i32::MAX ==> spelled_i32(decimal(n)) == Some(n as i32),
        n <= i32::MAX ==> spelled_i32(seq!['+'] + decimal(n)) == Some(n as i32),
        n <= -i32::MIN ==> spelled_i32(seq!['-'] + decimal(n)) == Some((-n) as i32),
    decreases n,
{
    if n < 10 {
        assert(decimal(n).drop_last() == Seq::<char>::empty());
        assert(digits_value(Seq::<char>::empty()) == 0);
    } else {
        lemma_decimal(n / 10);
        assert(decimal(n).drop_last() == decimal(n / 10));
        assert(decimal(n)[0] == decimal(n / 10)[0]);
    }
    assert((seq!['+'] + decimal(n)).skip(1) == decimal(n));
    assert((seq!['-'] + decimal(n)).skip(1) == decimal(n));
}

/// The value of digits grows tenfold with each further one, and is zero where there is none.
pub proof fn law_digits_count_tenfold(digits: Seq<char>, c: char)
    ensures
        digits_value(Seq::empty()) == 0,
        digits_value(digits.push(c)) == 10 * digits_value(digits) + (c as int - '0' as int),
{
    assert(digits.push(c).drop_last() == digits);
}

/// Every number that fits is spelled by its numeral, with a minus sign if it is negative, and with
/// or without a plus sign if it is not.
pub proof fn law_signed_numerals_are_read(n: i32)
    ensures
        n >= 0 ==> spelled_i32(decimal(n as nat)) == Some(n),
        n >= 0 ==> spelled_i32(seq!['+'] + decimal(n as nat)) == Some(n),
        n <= 0 ==> spelled_i32(seq!['-'] + decimal((-n) as nat)) == Some(n),
{
    if n >= 0 {
        lemma_decimal(n as nat);
    }
    if n <= 0 {
        lemma_decimal((-n) as nat);
    }
}

/// A text that holds anything but digits behind an optional sign, or no digit at all, spells no
/// number.
pub proof fn law_other_texts_spell_nothing(text: Seq<char>)
    requires
        ({
            let from: int = if text.len() > 0 && (text[0] == '+' || text[0] == '-') {
                1
            } else {
                0
            };
            text.len() <= from || exists|i: int|
                from <= i < text.len() && !('0' <= #[trigger] text[i] && text[i] <= '9')
        }),
    ensures
        spelled_i32(text) is None,
{
    let signed = text.len() > 0 && (text[0] == '+' || text[0] == '-');
    let digits = if signed {
        text.skip(1)
    } else {
        text
    };
    let from: int = if signed {
        1
    } else {
        0
    };
    if text.len() > from {
        let i = choose|i: int|
            from <= i < text.len() && !('0' <= #[trigger] text[i] && text[i] <= '9');
        assert(digits[i - from] == text[i]);
        assert(!is_digit(digits[i - from]));
    }
}

/// No text joined is empty, one text is itself, and each further one comes at the end, behind the
/// separator.
pub proof fn law_texts_are_joined(
    parts: &Vec<String>,
    more: &Vec<String>,
    separator: &str,
    text: String,
    more_text: String,
)
    requires
        call_ensures(join_texts, (parts, separator), text),
        call_ensures(join_texts, (more, separator), more_text),
        more@.len() == parts@.len() + 1,
        forall|i: int| 0 <= i < parts@.len() ==> (#[trigger] more@[i])@ == parts@[i]@,
    ensures
        parts@.len() == 0 ==> text@.len() == 0,
        parts@.len() == 1 ==> text@ == parts@[0]@,
        more_text@ == if parts@.len() == 0 {
            more@.last()@
        } else {
            text@ + separator@ + more@.last()@
        },
{
    assert(texts(more@).drop_last() =~= texts(parts@)) by {
        assert forall|i: int| 0 <= i < parts@.len() implies texts(more@).drop_last()[i]
            == texts(parts@)[i] by {
            assert(more@[i]@ == parts@[i]@);
        }
    }
    law_joined_grows_at_the_end(texts(parts@), more@.last()@, separator@);
    assert(texts(more@) =~= texts(parts@).push(more@.last()@));
    if parts@.len() == 1 {
        assert(texts(parts@) =~= Seq::<Seq<char>>::empty().push(parts@[0]@));
        law_joined_grows_at_the_end(Seq::empty(), parts@[0]@, separator@);
    }
}

/// What is joined grows at the end: nothing joined is empty, and one more part comes behind the
/// separator, or alone if it is the first.
pub proof fn law_joined_grows_at_the_end(
    parts: Seq<Seq<char>>,
    part: Seq<char>,
    separator: Seq<char>,
)
    ensures
        joined(Seq::empty(), separator).len() == 0,
        joined(parts.push(part), separator) == if parts.len() == 0 {
            part
        } else {
            joined(parts, separator) + separator + part
        },
{
    assert(parts.push(part).drop_last() == parts);
}

} // verus!
