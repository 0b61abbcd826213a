//! Character-level helpers shared by the record decoders: tab-separated
//! fields, literal prefixes and unsigned decimal numbers.

use vstd::prelude::*;

verus! {

/// The field separator of a record.
pub const TAB: char = '\t';

/// The pieces of `items` between its separators, read left to right: a
/// separator opens a new, empty piece and any other item extends the last
/// piece. So there is always one piece more than there are separators.
pub open spec fn split_on<T>(items: Seq<T>, separator: T) -> Seq<Seq<T>>
    decreases items.len(),
{
    if items.len() == 0 {
        seq![Seq::<T>::empty()]
    } else {
        let before = split_on(items.drop_last(), separator);
        if items.last() == separator {
            before.push(Seq::<T>::empty())
        } else {
            before.drop_last().push(before.last().push(items.last()))
        }
    }
}

/// The pieces put together again, with one separator between neighbours.
pub open spec fn joined<T>(parts: Seq<Seq<T>>, separator: T) -> Seq<T>
    decreases parts.len(),
{
    if parts.len() == 0 {
        Seq::<T>::empty()
    } else if parts.len() == 1 {
        parts[0]
    } else {
        joined(parts.drop_last(), separator).push(separator) + parts.last()
    }
}

/// Splitting undoes joining: there is at least one piece, no piece holds a
/// separator, and the pieces joined by separators are the items again.
pub proof fn lemma_split_on_joined<T>(items: Seq<T>, separator: T)
    ensures
        split_on(items, separator).len() >= 1,
        joined(split_on(items, separator), separator) == items,
        forall|i: int, j: int|
            0 <= i < split_on(items, separator).len() && 0 <= j < split_on(items, separator)[i].len()
                ==> #[trigger] split_on(items, separator)[i][j] != separator,
    decreases items.len(),
{
    let parts = split_on(items, separator);
    if items.len() == 0 {
        assert(joined(parts, separator) =~= items);
    } else {
        let before = split_on(items.drop_last(), separator);
        lemma_split_on_joined(items.drop_last(), separator);
        if items.last() == separator {
            assert(parts.drop_last() =~= before);
            assert(joined(parts, separator) =~= items.drop_last().push(separator));
            assert(items.drop_last().push(separator) =~= items);
        } else {
            let grown = before.last().push(items.last());
            if before.len() == 1 {
                assert(joined(parts, separator) == grown);
                assert(grown =~= items);
            } else {
                assert(parts.drop_last() =~= before.drop_last());
                let front = joined(before.drop_last(), separator).push(separator);
                assert(front + grown =~= (front + before.last()).push(items.last()));
                assert(items.drop_last().push(items.last()) =~= items);
            }
        }
    }
}

/// The tab-separated fields of `line`. A line without a tab is one field; the
/// empty line is one empty field.
pub open spec fn fields(line: Seq<char>) -> Seq<Seq<char>> {
    split_on(line, TAB)
}

/// `text` begins with the characters of `prefix`.
pub open spec fn has_prefix(text: Seq<char>, prefix: Seq<char>) -> bool {
    prefix.len() <= text.len() && text.take(prefix.len() as int) == prefix
}

/// Collects the characters of `s` into a vector.
pub fn to_chars(s: &str) -> (out: Vec<char>)
    ensures
        out@ == s@,
{
    let mut out: Vec<char> = Vec::new();
    for c in it: s.chars()
        invariant
            out@ == it.seq().take(it.index()),
            it.seq() == s@,
    {
        out.push(c);
    }
    out
}

/// Finds where each field of `line` starts and ends.
///
/// Entry `i` of the result holds the half-open character range of field `i`.
pub fn split_fields(line: &[char]) -> (bounds: Vec<(usize, usize)>)
    ensures
        bounds@.len() == fields(line@).len(),
        bounds@.len() >= 1,
        forall|i: int|
            0 <= i < bounds@.len() ==> {
                &&& (#[trigger] bounds@[i]).0 <= bounds@[i].1 <= line@.len()
                &&& line@.subrange(bounds@[i].0 as int, bounds@[i].1 as int) == fields(line@)[i]
            },
{
    let mut bounds: Vec<(usize, usize)> = Vec::new();
    let mut start: usize = 0;
    let mut i: usize = 0;
    proof {
        assert(line@.take(0) =~= Seq::<char>::empty());
        assert(line@.subrange(0, 0) =~= Seq::<char>::empty());
    }
    while i < line.len()
        invariant
            start <= i <= line@.len(),
            bounds@.len() + 1 == fields(line@.take(i as int)).len(),
            line@.subrange(start as int, i as int) == fields(line@.take(i as int)).last(),
            forall|j: int|
                0 <= j < bounds@.len() ==> {
                    &&& (#[trigger] bounds@[j]).0 <= bounds@[j].1 <= line@.len()
                    &&& line@.subrange(bounds@[j].0 as int, bounds@[j].1 as int) == fields(
                        line@.take(i as int),
                    )[j]
                },
        decreases line@.len() - i,
    {
        let c = line[i];
        proof {
            assert(line@.take(i + 1).drop_last() =~= line@.take(i as int));
            assert(line@.take(i + 1).last() == c);
        }
        if c == TAB {
            bounds.push((start, i));
            start = i + 1;
            proof {
                assert(line@.subrange(start as int, i + 1) =~= Seq::<char>::empty());
            }
        } else {
            proof {
                assert(line@.subrange(start as int, i + 1) =~= line@.subrange(
                    start as int,
                    i as int,
                ).push(c));
            }
        }
        i = i + 1;
    }
    proof {
        assert(line@.take(i as int) =~= line@);
    }
    bounds.push((start, i));
    bounds
}

/// Tests whether `text` begins with `prefix`.
pub fn starts_with(text: &[char], prefix: &[char]) -> (yes: bool)
    ensures
        yes == has_prefix(text@, prefix@),
{
    if prefix.len() > text.len() {
        return false;
    }
    let mut i: usize = 0;
    while i < prefix.len()
        invariant
            i <= prefix@.len() <= text@.len(),
            text@.take(i as int) == prefix@.take(i as int),
        decreases prefix@.len() - i,
    {
        if text[i] != prefix[i] {
            proof {
                assert(text@.take(prefix@.len() as int)[i as int] != prefix@[i as int]);
            }
            return false;
        }
        proof {
            assert(text@.take(i + 1) =~= text@.take(i as int).push(text@[i as int]));
            assert(prefix@.take(i + 1) =~= prefix@.take(i as int).push(prefix@[i as int]));
        }
        i = i + 1;
    }
    proof {
        assert(prefix@.take(i as int) =~= prefix@);
    }
    true
}

/// Tests whether two character sequences are the same.
pub fn same_text(a: &[char], b: &[char]) -> (yes: bool)
    ensures
        yes == (a@ == b@),
{
    if a.len() != b.len() {
        return false;
    }
    let yes = starts_with(a, b);
    proof {
        assert(a@.take(b@.len() as int) =~= a@);
    }
    yes
}

/// `c` is one of the ten decimal digits.
pub open spec fn is_digit(c: char) -> bool {
    '0' <= c && c <= '9'
}

/// The number that a digit stands for.
pub open spec fn digit_value(c: char) -> nat {
    (c as u32 - '0' as u32) as nat
}

/// The number that a run of decimal digits stands for, most significant
/// digit first. The empty run stands for zero.
pub open spec fn digits_value(digits: Seq<char>) -> nat
    decreases digits.len(),
{
    if digits.len() == 0 {
        0
    } else {
        10 * digits_value(digits.drop_last()) + digit_value(digits.last())
    }
}

/// Every character of `text` is a decimal digit.
pub open spec fn all_digits(text: Seq<char>) -> bool {
    forall|i: int| 0 <= i < text.len() ==> is_digit(#[trigger] text[i])
}

/// What is left of `text` after one leading plus sign, if it has one.
pub open spec fn unsigned_digits(text: Seq<char>) -> Seq<char> {
    if text.len() > 0 && text[0] == '+' {
        text.skip(1)
    } else {
        text
    }
}

/// The 32-bit unsigned number written in `text`: an optional plus sign, then
/// one or more decimal digits whose value fits. Anything else is no number.
pub open spec fn parse_position(text: Seq<char>) -> Option<u32> {
    let digits = unsigned_digits(text);
    if digits.len() > 0 && all_digits(digits) && digits_value(digits) <= u32::MAX {
        Some(digits_value(digits) as u32)
    } else {
        None
    }
}

/// A longer run of digits never stands for a smaller number than its prefix.
pub proof fn lemma_digits_value_grows(digits: Seq<char>, n: int)
    requires
        0 <= n <= digits.len(),
    ensures
        digits_value(digits.take(n)) <= digits_value(digits),
    decreases digits.len(),
{
    if n == digits.len() {
        assert(digits.take(n) =~= digits);
    } else {
        lemma_digits_value_grows(digits.drop_last(), n);
        assert(digits.drop_last().take(n) =~= digits.take(n));
    }
}

/// Reads a 32-bit unsigned decimal number.
pub fn read_position(text: &[char]) -> (value: Option<u32>)
    ensures
        value == parse_position(text@),
{
    let n = text.len();
    let first: usize = if n > 0 && text[0] == '+' {
        1
    } else {
        0
    };
    let ghost digits = unsigned_digits(text@);
    proof {
        assert(digits =~= text@.skip(first as int));
    }
    if first == n {
        return None;
    }
    let mut acc: u64 = 0;
    let mut i: usize = first;
    proof {
        assert(digits.take(0) =~= Seq::<char>::empty());
    }
    while i < n
        invariant
            first <= i <= n,
            n == text@.len(),
            digits == unsigned_digits(text@),
            digits == text@.skip(first as int),
            all_digits(digits.take(i - first)),
            acc == digits_value(digits.take(i - first)),
            acc <= u32::MAX,
        decreases n - i,
    {
        let c = text[i];
        proof {
            assert(digits.take(i - first + 1).drop_last() =~= digits.take(i - first));
            assert(digits.take(i - first + 1).last() == c);
            assert(digits[i - first] == c);
        }
        if c < '0' || c > '9' {
            return None;
        }
        let d: u64 = (c as u32 - '0' as u32) as u64;
        acc = acc * 10 + d;
        if acc > 0xffff_ffff {
            proof {
                lemma_digits_value_grows(digits, i - first + 1);
            }
            return None;
        }
        proof {
            assert forall|k: int| 0 <= k < digits.take(i - first + 1).len() implies is_digit(
                #[trigger] digits.take(i - first + 1)[k],
            ) by {
                if k < i - first {
                    assert(digits.take(i - first)[k] == digits.take(i - first + 1)[k]);
                }
            }
        }
        i = i + 1;
    }
    proof {
        assert(digits.take(i - first) =~= digits);
    }
    Some(acc as u32)
}

} // verus!
