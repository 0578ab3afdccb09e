//! Small helpers for moving between `str`, `String` and indexable characters.

use vstd::prelude::*;
use vstd::string::StrSliceExecFns;
use vstd::string::StringExecFns;

verus! {

/// `String::push` appends exactly one character.
pub assume_specification[ String::push ](s: &mut String, ch: char)
    ensures
        final(s)@ == old(s)@.push(ch),
;

/// The characters of `s`, in order, so that they can be read by index.
pub(crate) fn to_chars(s: &str) -> (chars: Vec<char>)
    ensures
        chars@ == s@,
{
    let mut chars: Vec<char> = Vec::new();
    for c in it: s.chars()
        invariant
            it.seq() == s@,
            chars@ == it.seq().take(it.index() as int),
    {
        chars.push(c);
    }
    chars
}

/// The part of `s` that starts at character `from`.
pub(crate) fn skip_chars<'a>(s: &'a str, from: usize) -> (rest: &'a str)
    requires
        from <= s@.len(),
    ensures
        rest@ == s@.skip(from as int),
{
    let len = s.unicode_len();
    s.substring_char(from, len)
}

/// The first `count` characters of `s`.
pub(crate) fn take_chars<'a>(s: &'a str, count: usize) -> (head: &'a str)
    requires
        count <= s@.len(),
    ensures
        head@ == s@.take(count as int),
{
    s.substring_char(0, count)
}

/// The characters `from..to` of `chars` as an owned string.
pub(crate) fn string_of(chars: &Vec<char>, from: usize, to: usize) -> (s: String)
    requires
        from <= to <= chars.len(),
    ensures
        s@ == chars@.subrange(from as int, to as int),
{
    let mut s = String::new();
    let mut i: usize = from;
    while i < to
        invariant
            from <= i <= to <= chars.len(),
            s@ == chars@.subrange(from as int, i as int),
        decreases to - i,
    {
        s.push(chars[i]);
        i += 1;
    }
    s
}

/// The decimal digits of `value`, without leading zeros.
pub open spec fn decimal_digits(value: nat) -> Seq<char>
    decreases value,
{
    if value < 10 {
        seq![('0' as int + value) as char]
    } else {
        decimal_digits(value / 10).push(('0' as int + value % 10) as char)
    }
}

/// `value` as one writes it: a minus sign where it is negative, then its
/// digits.
pub open spec fn decimal_text(value: int) -> Seq<char> {
    if value < 0 {
        seq!['-'] + decimal_digits((-value) as nat)
    } else {
        decimal_digits(value as nat)
    }
}

/// The character of one decimal digit.
fn digit_char(digit: u64) -> (chr: char)
    requires
        digit < 10,
    ensures
        chr == ('0' as int + digit) as char,
{
    let code: u8 = 48 + digit as u8;
    code as char
}

/// Appends the decimal digits of `value` to `text`.
pub(crate) fn push_decimal_digits(text: &mut String, value: u64)
    ensures
        final(text)@ == old(text)@ + decimal_digits(value as nat),
    decreases value,
{
    if value >= 10 {
        push_decimal_digits(text, value / 10);
    }
    text.push(digit_char(value % 10));
    assert(final(text)@ =~= old(text)@ + decimal_digits(value as nat));
}

/// Appends `value`, written in decimal, to `text`.
pub(crate) fn push_decimal(text: &mut String, value: i64)
    ensures
        final(text)@ == old(text)@ + decimal_text(value as int),
{
    if value < 0 {
        text.push('-');
        let magnitude: u64 = if value == i64::MIN {
            9223372036854775808u64
        } else {
            (-value) as u64
        };
        push_decimal_digits(text, magnitude);
        assert(final(text)@ =~= old(text)@ + decimal_text(value as int));
    } else {
        push_decimal_digits(text, value as u64);
    }
}

/// The characters of each string of a list.
pub open spec fn strings_view(strings: Seq<String>) -> Seq<Seq<char>> {
    Seq::new(strings.len(), |i: int| strings[i]@)
}

/// `left` stands before `right`, or is equal to it, in the order of
/// `String`: the first character in which they differ decides, by its code
/// point, and a text stands before every longer text that starts with it.
pub open spec fn text_le(left: Seq<char>, right: Seq<char>) -> bool
    decreases left.len(),
{
    if left.len() == 0 {
        true
    } else if right.len() == 0 {
        false
    } else if left[0] != right[0] {
        (left[0] as int) < (right[0] as int)
    } else {
        text_le(left.skip(1), right.skip(1))
    }
}

/// Every text stands before the texts behind it, or is equal to them.
pub open spec fn is_sorted(texts: Seq<Seq<char>>) -> bool {
    forall|i: int, j: int| 0 <= i < j < texts.len() ==> text_le(texts[i], texts[j])
}

/// The texts of `texts`, each as often as it occurs there, in ascending
/// order.
pub open spec fn sorted(texts: Seq<Seq<char>>) -> Seq<Seq<char>> {
    choose|ordered: Seq<Seq<char>>|
        is_sorted(ordered) && ordered.to_multiset() == texts.to_multiset()
}

/// Two texts of which each stands before the other are one text.
pub proof fn lemma_text_le_antisymmetric(left: Seq<char>, right: Seq<char>)
    requires
        text_le(left, right),
        text_le(right, left),
    ensures
        left == right,
    decreases left.len(),
{
    if left.len() == 0 || right.len() == 0 {
        assert(left =~= right);
    } else {
        lemma_text_le_antisymmetric(left.skip(1), right.skip(1));
        assert(left =~= seq![left[0]] + left.skip(1));
        assert(right =~= seq![right[0]] + right.skip(1));
    }
}

/// There is one way only to put given texts in ascending order.
pub proof fn lemma_sorted_is_unique(first: Seq<Seq<char>>, second: Seq<Seq<char>>)
    requires
        is_sorted(first),
        is_sorted(second),
        first.to_multiset() == second.to_multiset(),
    ensures
        first == second,
    decreases first.len(),
{
    broadcast use vstd::multiset::group_multiset_axioms;

    vstd::seq_lib::to_multiset_len(first);
    vstd::seq_lib::to_multiset_len(second);
    assert(first.len() == second.len());
    if first.len() == 0 {
        assert(first =~= second);
    } else {
        let a = first.last();
        let b = second.last();
        assert(first.contains(a));
        assert(second.contains(b));
        vstd::seq_lib::to_multiset_contains(first, a);
        vstd::seq_lib::to_multiset_contains(second, a);
        vstd::seq_lib::to_multiset_contains(first, b);
        vstd::seq_lib::to_multiset_contains(second, b);
        vstd::seq_lib::to_multiset_build(first.drop_last(), a);
        vstd::seq_lib::to_multiset_build(second.drop_last(), b);
        let i = choose|i: int| 0 <= i < second.len() && second[i] == a;
        let j = choose|j: int| 0 <= j < first.len() && first[j] == b;
        assert(text_le(a, b)) by {
            if i < second.len() - 1 {
                assert(text_le(second[i], second[second.len() - 1]));
            } else {
                lemma_text_le_reflexive(a);
            }
        }
        assert(text_le(b, a)) by {
            if j < first.len() - 1 {
                assert(text_le(first[j], first[first.len() - 1]));
            } else {
                lemma_text_le_reflexive(b);
            }
        }
        lemma_text_le_antisymmetric(a, b);
        let shorter_first = first.drop_last();
        let shorter_second = second.drop_last();
        assert(first =~= shorter_first.push(a));
        assert(second =~= shorter_second.push(b));
        assert(shorter_first.to_multiset() =~= shorter_second.to_multiset()) by {
            assert(first.to_multiset() == shorter_first.to_multiset().insert(a));
            assert(second.to_multiset() == shorter_second.to_multiset().insert(a));
            assert forall|text: Seq<char>|
                shorter_first.to_multiset().count(text) == shorter_second.to_multiset().count(
                    text,
                ) by {
                assert(shorter_first.to_multiset().insert(a).count(text)
                    == shorter_second.to_multiset().insert(a).count(text));
            }
        }
        assert(is_sorted(shorter_first)) by {
            assert forall|i: int, j: int| 0 <= i < j < shorter_first.len() implies text_le(
                shorter_first[i],
                shorter_first[j],
            ) by {
                assert(text_le(first[i], first[j]));
            }
        }
        assert(is_sorted(shorter_second)) by {
            assert forall|i: int, j: int| 0 <= i < j < shorter_second.len() implies text_le(
                shorter_second[i],
                shorter_second[j],
            ) by {
                assert(text_le(second[i], second[j]));
            }
        }
        lemma_sorted_is_unique(shorter_first, shorter_second);
    }
}

/// Every text stands before itself.
pub proof fn lemma_text_le_reflexive(text: Seq<char>)
    ensures
        text_le(text, text),
    decreases text.len(),
{
    if text.len() > 0 {
        lemma_text_le_reflexive(text.skip(1));
    }
}

/// `<[String]>::sort_unstable`: puts the strings in ascending order. The
/// list holds the same strings as before, each as often as before, and
/// they stand in the order of `String`, which compares byte by byte and
/// thereby code point by code point.
#[verifier::external_body]
pub(crate) fn sort_strings(strings: &mut Vec<String>)
    ensures
        strings_view(final(strings)@).to_multiset() == strings_view(old(strings)@).to_multiset(),
        is_sorted(strings_view(final(strings)@)),
{
    strings.sort_unstable();
}

/// The texts one after the other, with `separator` between each two.
pub open spec fn joined(texts: Seq<Seq<char>>, separator: Seq<char>) -> Seq<char>
    decreases texts.len(),
{
    if texts.len() == 0 {
        Seq::empty()
    } else if texts.len() == 1 {
        texts[0]
    } else {
        joined(texts.drop_last(), separator) + separator + texts.last()
    }
}

/// The strings one after the other, with `separator` between each two.
pub(crate) fn join(strings: &Vec<String>, separator: &str) -> (text: String)
    ensures
        text@ == joined(strings_view(strings@), separator@),
{
    let ghost texts = strings_view(strings@);
    let mut text = String::new();
    let mut i: usize = 0;
    while i < strings.len()
        invariant
            i <= strings.len(),
            texts == strings_view(strings@),
            text@ == joined(texts.take(i as int), separator@),
        decreases strings.len() - i,
    {
        proof {
            let longer = texts.take(i + 1);
            assert(longer.drop_last() =~= texts.take(i as int));
            assert(longer.last() == strings@[i as int]@);
            if i == 0 {
                assert(text@ + strings@[0]@ =~= strings@[0]@);
            }
        }
        if i > 0 {
            text.append(separator);
        }
        text.append(strings[i].as_str());
        i += 1;
    }
    assert(texts.take(i as int) =~= texts);
    text
}

} // verus!
