//! Comparing text, splitting it, and reading decimal numbers.

use vstd::prelude::*;
use vstd::std_specs::iter::IteratorSpec;
use vstd::string::{StrSliceExecFns, StringExecFns};

verus! {

/// `str`'s `==`: two string slices are equal exactly when they hold the same
/// characters in the same order.
pub assume_specification[ <str as PartialEq>::eq ](a: &str, b: &str) -> (r: bool)
    ensures
        r == (a@ == b@),
;

/// Tells whether two string slices hold the same characters.
pub fn same(a: &str, b: &str) -> (r: bool)
    ensures
        r == (a@ == b@),
{
    *a == *b
}

/// The ASCII code of the digit `0`.
const ZERO: u8 = 48;

/// The ASCII code of the digit `9`.
const NINE: u8 = 57;

/// The ASCII code of the plus sign.
const PLUS: u8 = 43;

/// The ASCII code of the minus sign.
const MINUS: u8 = 45;

/// The value of a decimal digit, if `c` is one.
pub open spec fn digit_value(c: char) -> Option<int> {
    if '0' <= c <= '9' {
        Some(c as int - '0' as int)
    } else {
        None
    }
}

/// The number that a run of decimal digits writes, most significant digit
/// first; `None` if a character is no digit. The empty run writes zero.
pub open spec fn digits_value(digits: Seq<char>) -> Option<int>
    decreases digits.len(),
{
    if digits.len() == 0 {
        Some(0)
    } else {
        match (digits_value(digits.drop_last()), digit_value(digits.last())) {
            (Some(high), Some(low)) => Some(10 * high + low),
            _ => None,
        }
    }
}

/// The signed 64-bit number that `text` writes in decimal: an optional `+`
/// or `-`, then one or more digits and nothing else. `None` for every other
/// text, and for a number that does not fit.
pub open spec fn decimal_i64(text: Seq<char>) -> Option<i64> {
    if text.len() == 0 {
        None
    } else {
        let negative = text[0] == '-';
        let digits = if text[0] == '-' || text[0] == '+' {
            text.skip(1)
        } else {
            text
        };
        match digits_value(digits) {
            Some(value) if digits.len() > 0 => {
                let number = if negative {
                    -value
                } else {
                    value
                };
                if i64::MIN <= number <= i64::MAX {
                    Some(number as i64)
                } else {
                    None
                }
            },
            _ => None,
        }
    }
}

/// A run of digits has a value exactly when each of its characters is a
/// digit, and the value is never negative.
pub proof fn lemma_digits_value(digits: Seq<char>)
    ensures
        digits_value(digits) is Some <==> forall|i: int|
            0 <= i < digits.len() ==> digit_value(#[trigger] digits[i]) is Some,
        digits_value(digits) matches Some(value) ==> value >= 0,
    decreases digits.len(),
{
    if digits.len() > 0 {
        let front = digits.drop_last();
        lemma_digits_value(front);
        assert(forall|i: int| 0 <= i < front.len() ==> front[i] == digits[i]);
        if digits_value(digits) is Some {
            assert forall|i: int| 0 <= i < digits.len() implies digit_value(
                #[trigger] digits[i],
            ) is Some by {
                if i < front.len() {
                    assert(front[i] == digits[i]);
                }
            }
        }
    }
}

/// A longer run of digits writes a number at least as large as any of its
/// prefixes.
pub proof fn lemma_digits_value_grows(digits: Seq<char>, n: int)
    requires
        0 <= n <= digits.len(),
        digits_value(digits) is Some,
    ensures
        digits_value(digits.take(n)) matches Some(part) && part <= digits_value(digits).unwrap(),
    decreases digits.len(),
{
    lemma_digits_value(digits);
    if n == digits.len() {
        assert(digits.take(n) == digits);
    } else {
        let front = digits.drop_last();
        lemma_digits_value(front);
        lemma_digits_value_grows(front, n);
        assert(front.take(n) == digits.take(n));
    }
}

/// Reads the digits of `text` from index `from` on, as far as their value,
/// taken with the sign, fits in an `i64`.
fn read_digits(text: &str, from: usize, negative: bool) -> (r: Option<i64>)
    requires
        text.is_ascii(),
        from <= text@.len(),
    ensures
        r == match digits_value(text@.skip(from as int)) {
            Some(value) => {
                let number = if negative {
                    -value
                } else {
                    value
                };
                if i64::MIN <= number <= i64::MAX {
                    Some(number as i64)
                } else {
                    None
                }
            },
            None => None,
        },
{
    let ghost digits = text@.skip(from as int);
    let len = text.as_bytes().len();
    proof {
        vstd::utf8::is_ascii_chars_encode_utf8(text@);
    }
    let mut number: i64 = 0;
    let mut i = from;
    while i < len
        invariant
            text.is_ascii(),
            len == text@.len(),
            from <= i <= len,
            digits == text@.skip(from as int),
            digits_value(digits.take(i - from)) matches Some(value) && number == (if negative {
                -value
            } else {
                value
            }),
        decreases len - i,
    {
        let byte = text.get_ascii(i);
        let ghost read = digits.take(i - from);
        let ghost next = digits.take(i - from + 1);
        proof {
            assert(next.drop_last() == read);
            assert(next.last() == text@[i as int]);
            lemma_digits_value(digits);
            lemma_digits_value(next);
        }
        if byte < ZERO || byte > NINE {
            proof {
                assert(digit_value(digits[i - from]) is None);
            }
            return None;
        }
        let low = (byte - ZERO) as i64;
        let shifted = if negative {
            match number.checked_mul(10) {
                Some(high) => high.checked_sub(low),
                None => None,
            }
        } else {
            match number.checked_mul(10) {
                Some(high) => high.checked_add(low),
                None => None,
            }
        };
        match shifted {
            Some(value) => {
                number = value;
            },
            None => {
                proof {
                    if digits_value(digits) is Some {
                        lemma_digits_value_grows(digits, i - from + 1);
                    }
                }
                return None;
            },
        }
        i += 1;
    }
    proof {
        assert(digits.take(i - from) == digits);
    }
    Some(number)
}

/// Reads a signed 64-bit number written in decimal.
pub fn parse_i64(text: &str) -> (r: Option<i64>)
    ensures
        r == decimal_i64(text@),
{
    if !text.is_ascii() {
        proof {
            let i = choose|i: int| 0 <= i < text@.len() && !('\0' <= #[trigger] text@[i] <= '\u{7f}');
            let digits = if text@[0] == '-' || text@[0] == '+' {
                text@.skip(1)
            } else {
                text@
            };
            lemma_digits_value(digits);
            if digits.len() < text@.len() {
                if i > 0 {
                    assert(digit_value(digits[i - 1]) is None);
                }
            } else {
                assert(digit_value(digits[i]) is None);
            }
        }
        return None;
    }
    let len = text.as_bytes().len();
    proof {
        vstd::utf8::is_ascii_chars_encode_utf8(text@);
    }
    if len == 0 {
        return None;
    }
    let first = text.get_ascii(0);
    if first == MINUS || first == PLUS {
        if len == 1 {
            assert(text@.skip(1).len() == 0);
            return None;
        }
        read_digits(text, 1, first == MINUS)
    } else {
        proof {
            assert(text@.skip(0) == text@);
        }
        read_digits(text, 0, false)
    }
}

/// The place of the first `mark` in `text`, or the length of `text` where it
/// holds none.
pub open spec fn first_index(text: Seq<char>, mark: char) -> int
    decreases text.len(),
{
    if text.len() == 0 || text[0] == mark {
        0
    } else {
        1 + first_index(text.skip(1), mark)
    }
}

/// The first place of a mark in a text is where no character before it is
/// the mark, and it holds the mark itself unless it is the end of the text.
pub proof fn lemma_first_index(text: Seq<char>, mark: char)
    ensures
        0 <= first_index(text, mark) <= text.len(),
        first_index(text, mark) < text.len() ==> text[first_index(text, mark)] == mark,
        forall|i: int| 0 <= i < first_index(text, mark) ==> text[i] != mark,
    decreases text.len(),
{
    if text.len() != 0 && text[0] != mark {
        let rest = text.skip(1);
        lemma_first_index(rest, mark);
        assert forall|i: int| 0 <= i < first_index(text, mark) implies text[i] != mark by {
            if i > 0 {
                assert(rest[i - 1] == text[i]);
            }
        }
    }
}

/// The place `at` is the first place of `mark` in `text` if no character
/// before it is the mark and it holds the mark itself or is the end of the
/// text.
pub proof fn lemma_first_index_is(text: Seq<char>, mark: char, at: int)
    requires
        0 <= at <= text.len(),
        at < text.len() ==> text[at] == mark,
        forall|i: int| 0 <= i < at ==> text[i] != mark,
    ensures
        first_index(text, mark) == at,
{
    lemma_first_index(text, mark);
    let found = first_index(text, mark);
    if found < at {
        assert(text[found] == mark);
    } else if found > at {
        assert(text[at] != mark);
    }
}

/// Returns the place of the first `mark` in `text`, counted in characters,
/// or the number of its characters where it holds none.
pub fn find(text: &str, mark: char) -> (r: usize)
    ensures
        r == first_index(text@, mark),
        r <= text@.len(),
{
    broadcast use vstd::string::group_string_axioms;

    let len = text.unicode_len();
    let mut at: usize = 0;
    for c in it: text.chars()
        invariant
            at == it.index(),
            it.seq() == text@,
            len == text@.len(),
            forall|i: int| 0 <= i < at ==> text@[i] != mark,
    {
        if c == mark {
            proof {
                lemma_first_index_is(text@, mark, at as int);
            }
            return at;
        }
        at += 1;
    }
    proof {
        lemma_first_index_is(text@, mark, at as int);
    }
    at
}

/// A line without the carriage return that it may end in.
pub open spec fn without_return(line: Seq<char>) -> Seq<char> {
    if line.len() > 0 && line.last() == '\r' {
        line.drop_last()
    } else {
        line
    }
}

/// The lines of a text. A line ends at a line feed, or at the end of the
/// text where characters follow the last line feed. Neither the line feed
/// nor a carriage return just before it belongs to the line. A carriage
/// return anywhere else is a character like any other.
pub open spec fn lines_of(text: Seq<char>) -> Seq<Seq<char>>
    decreases text.len(),
{
    let end = first_index(text, '\n');
    if text.len() == 0 {
        Seq::empty()
    } else if 0 <= end < text.len() {
        seq![without_return(text.take(end))] + lines_of(text.skip(end + 1))
    } else {
        seq![text]
    }
}

/// Splits a text into its lines.
pub fn split_lines(text: &str) -> (r: Vec<String>)
    ensures
        r.deep_view() == lines_of(text@),
{
    let len = text.unicode_len();
    let mut lines: Vec<String> = Vec::new();
    let mut start: usize = 0;
    assert(text@.skip(0) == text@);
    while start < len
        invariant
            len == text@.len(),
            start <= len,
            lines.deep_view() + lines_of(text@.skip(start as int)) == lines_of(text@),
        decreases len - start,
    {
        let rest = text.substring_char(start, len);
        let rest_len = len - start;
        let end = find(rest, '\n');
        let ghost before = lines.deep_view();
        assert(rest@ == text@.skip(start as int));
        if end < rest_len {
            let line = if end > 0 && rest.get_char(end - 1) == '\r' {
                rest.substring_char(0, end - 1)
            } else {
                rest.substring_char(0, end)
            };
            proof {
                assert(rest@.take(end as int) == rest@.subrange(0, end as int));
                assert(line@ == without_return(rest@.take(end as int)));
                assert(rest@.skip(end + 1) == text@.skip(start + end + 1));
            }
            lines.push(String::from_str(line));
            assert(lines.deep_view() == before + seq![line@]);
            start = start + end + 1;
        } else {
            proof {
                assert(text@.skip(len as int).len() == 0);
            }
            lines.push(String::from_str(rest));
            assert(lines.deep_view() == before + seq![rest@]);
            start = len;
        }
    }
    proof {
        assert(text@.skip(start as int).len() == 0);
    }
    lines
}

} // verus!
