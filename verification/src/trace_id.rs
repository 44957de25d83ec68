//! Trace ids as text: the form with a slash that Google Cloud uses, and the
//! form with hyphens of a UUID, each read into and written from a `u128`.

use crate::text::{
    all_digits, chars_of, digit_value, digits_value, fixed_numeral, lemma_fixed_numeral_value,
    lemma_numeral_value, numeral, parse_unsigned, push_fixed_numeral, push_numeral,
    unsigned_digits, unsigned_value,
};
use vstd::prelude::*;

verus! {

/// Two to the power 64: what one unit of the upper half of a `u128` is worth.
pub open spec fn upper_unit() -> nat {
    0x1_0000_0000_0000_0000
}

/// The pieces of `s` between the occurrences of `sep`: one piece more than
/// `sep` occurs, empty pieces included.
pub open spec fn split(s: Seq<char>, sep: char) -> Seq<Seq<char>>
    decreases s.len(),
{
    if s.len() == 0 {
        seq![Seq::empty()]
    } else {
        let before = split(s.drop_last(), sep);
        if s.last() == sep {
            before.push(Seq::empty())
        } else {
            before.drop_last().push(before.last().push(s.last()))
        }
    }
}

/// The pieces one after the other, without what stood between them.
pub open spec fn joined(pieces: Seq<Seq<char>>) -> Seq<char>
    decreases pieces.len(),
{
    if pieces.len() == 0 {
        Seq::empty()
    } else {
        joined(pieces.drop_last()) + pieces.last()
    }
}

/// The number that a trace id in the form of Google Cloud stands for: a
/// hexadecimal part, a slash and a decimal part. The upper 64 bits are those
/// of the hexadecimal part, whose lower 64 bits are dropped; the lower 64
/// bits are the decimal part. `None` unless there is exactly one slash, the
/// first part is a hexadecimal numeral that fits 128 bits and the second a
/// decimal numeral that fits 64 bits.
pub open spec fn gcp_value(s: Seq<char>) -> Option<nat> {
    let parts = split(s, '/');
    if parts.len() == 2 {
        match (
            unsigned_value(parts[0], 16, u128::MAX as nat),
            unsigned_value(parts[1], 10, u64::MAX as nat),
        ) {
            (Some(hex), Some(decimal)) => Some((hex / upper_unit()) * upper_unit() + decimal),
            _ => None,
        }
    } else {
        None
    }
}

/// The text of `value` in the form of Google Cloud: the upper 64 bits as 32
/// hexadecimal digits, of which the last 16 are zeros, a slash, and the
/// lower 64 bits in decimal.
pub open spec fn gcp_text(value: nat) -> Seq<char> {
    fixed_numeral((value / upper_unit()) * upper_unit(), 16, 32) + seq!['/'] + numeral(
        value % upper_unit(),
        10,
    )
}

/// The text of `value` as a UUID: its 32 hexadecimal digits in groups of 8,
/// 4, 4, 4 and 12, with a hyphen between two groups.
pub open spec fn uuid_text(value: nat) -> Seq<char> {
    let digits = fixed_numeral(value, 16, 32);
    digits.subrange(0, 8) + seq!['-'] + digits.subrange(8, 12) + seq!['-'] + digits.subrange(
        12,
        16,
    ) + seq!['-'] + digits.subrange(16, 20) + seq!['-'] + digits.subrange(20, 32)
}

/// The number that a UUID stands for: five groups of hexadecimal digits with
/// hyphens between, read as one numeral. `None` unless there are exactly
/// four hyphens and the groups together are a hexadecimal numeral that fits
/// 128 bits.
pub open spec fn uuid_value(s: Seq<char>) -> Option<nat> {
    let groups = split(s, '-');
    if groups.len() == 5 {
        unsigned_value(joined(groups), 16, u128::MAX as nat)
    } else {
        None
    }
}

/// The pieces of `s` between the occurrences of `sep`.
pub fn split_chars(s: &Vec<char>, sep: char) -> (pieces: Vec<Vec<char>>)
    ensures
        pieces.len() == split(s@, sep).len(),
        forall|j: int| 0 <= j < pieces.len() ==> (#[trigger] pieces[j])@ == split(s@, sep)[j],
{
    let mut pieces: Vec<Vec<char>> = Vec::new();
    let mut current: Vec<char> = Vec::new();
    let mut i: usize = 0;
    assert(s@.take(0) == Seq::<char>::empty());
    while i < s.len()
        invariant
            i <= s.len(),
            split(s@.take(i as int), sep).len() == pieces.len() + 1,
            forall|j: int|
                0 <= j < pieces.len() ==> (#[trigger] pieces[j])@ == split(
                    s@.take(i as int),
                    sep,
                )[j],
            current@ == split(s@.take(i as int), sep).last(),
        decreases s.len() - i,
    {
        let c = s[i];
        proof {
            assert(s@.take(i + 1).drop_last() == s@.take(i as int));
            assert(s@.take(i + 1).last() == c);
        }
        if c == sep {
            pieces.push(current);
            current = Vec::new();
        } else {
            current.push(c);
        }
        i += 1;
    }
    assert(s@.take(s.len() as int) == s@);
    pieces.push(current);
    pieces
}

/// Down-casts a trace id of Google Cloud, in the form
/// `c951b27d3c8aa7fb6ca4aee909085ea1/1186820540535753586`, into a `u128`.
///
/// The text holds 192 bits, so this loses some: the last 16 hexadecimal
/// digits before the slash are dropped. [`u128_to_gcp_trace_id`] writes
/// zeros in their place.
pub fn gcp_trace_id_to_u128(trace_id: &str) -> (value: Option<u128>)
    ensures
        value is Some <==> gcp_value(trace_id@) is Some,
        value matches Some(v) ==> gcp_value(trace_id@) == Some(v as nat),
{
    let chars = chars_of(trace_id);
    let parts = split_chars(&chars, '/');
    if parts.len() != 2 {
        return None;
    }
    let hex_value = match parse_unsigned(&parts[0], 16, u128::MAX) {
        Some(v) => v,
        None => {
            return None;
        },
    };
    let decimal_part: u64 = match parse_unsigned(&parts[1], 10, u64::MAX as u128) {
        Some(v) => v as u64,
        None => {
            return None;
        },
    };
    let combined_value = (hex_value >> 64 << 64) | (decimal_part as u128);
    assert(combined_value == (hex_value / 0x1_0000_0000_0000_0000) * 0x1_0000_0000_0000_0000
        + decimal_part as u128) by (bit_vector)
        requires
            combined_value == (hex_value >> 64 << 64) | (decimal_part as u128),
    ;
    Some(combined_value)
}

/// Writes `value` as a trace id of Google Cloud: what
/// [`gcp_trace_id_to_u128`] reads back as `value`.
pub fn u128_to_gcp_trace_id(value: u128) -> (text: String)
    ensures
        text@ == gcp_text(value as nat),
        gcp_value(text@) == Some(value as nat),
{
    proof {
        lemma_gcp_round_trip(value);
    }
    let upper: u128 = value >> 64 << 64;
    let decimal_part: u64 = (value & 0xFFFFFFFFFFFFFFFF) as u64;
    assert(upper == (value / 0x1_0000_0000_0000_0000) * 0x1_0000_0000_0000_0000) by (bit_vector)
        requires
            upper == value >> 64 << 64,
    ;
    assert(value & 0xFFFFFFFFFFFFFFFF == value % 0x1_0000_0000_0000_0000) by (bit_vector);
    let mut text = String::new();
    push_fixed_numeral(&mut text, upper, 16, 32);
    text.push('/');
    push_numeral(&mut text, decimal_part as u128, 10);
    proof {
        let hex = fixed_numeral(upper as nat, 16, 32);
        let dec = numeral(decimal_part as nat, 10);
        assert((Seq::<char>::empty() + hex).push('/') + dec == hex + seq!['/'] + dec);
    }
    text
}

/// Reads the 128 bits of a UUID in the form
/// `1042e8d7-fdb2-42cd-b140-9eaaa671d6c6`.
pub fn uuid_to_u128(uuid: &str) -> (value: Option<u128>)
    ensures
        value is Some <==> uuid_value(uuid@) is Some,
        value matches Some(v) ==> uuid_value(uuid@) == Some(v as nat),
{
    let chars = chars_of(uuid);
    let hex_segments = split_chars(&chars, '-');
    if hex_segments.len() != 5 {
        return None;
    }
    let ghost groups = split(uuid@, '-');
    let mut combined_value: Vec<char> = Vec::new();
    let mut g: usize = 0;
    assert(groups.take(0) == Seq::<Seq<char>>::empty());
    while g < 5
        invariant
            g <= 5,
            hex_segments.len() == 5,
            groups.len() == 5,
            forall|j: int| 0 <= j < 5 ==> (#[trigger] hex_segments[j])@ == groups[j],
            combined_value@ == joined(groups.take(g as int)),
        decreases 5 - g,
    {
        let segment = &hex_segments[g];
        let ghost start = combined_value@;
        let mut i: usize = 0;
        while i < segment.len()
            invariant
                i <= segment.len(),
                combined_value@ == start + segment@.take(i as int),
            decreases segment.len() - i,
        {
            combined_value.push(segment[i]);
            i += 1;
            assert(segment@.take(i as int) == segment@.take(i - 1).push(segment@[i - 1]));
        }
        proof {
            assert(segment@.take(segment.len() as int) == segment@);
            assert(groups.take(g + 1).drop_last() == groups.take(g as int));
            assert(groups.take(g + 1).last() == groups[g as int]);
        }
        g += 1;
    }
    assert(groups.take(5) == groups);
    parse_unsigned(&combined_value, 16, u128::MAX)
}

/// What a root span is started with: its name and the id of its trace.
#[derive(Debug, PartialEq)]
pub struct RootSpan {
    pub name: String,
    pub trace_id: u128,
}

/// The number that a text stands for, and zero where it stands for none.
pub open spec fn or_zero(value: Option<nat>) -> nat {
    match value {
        Some(v) => v,
        None => 0,
    }
}

/// The root span for a trace whose `u128` id comes from a processing that
/// was started elsewhere.
pub fn new_span_from_u128_trace_id(name: String, trace_id: u128) -> (span: RootSpan)
    ensures
        span.name == name,
        span.trace_id == trace_id,
{
    RootSpan { name, trace_id }
}

/// The root span for a trace whose id comes from Google Cloud, in the form
/// `c951b27d3c8aa7fb6ca4aee909085ea1/1186820540535753586`; the id is zero
/// where the text has no such form.
pub fn new_span_from_gcp_trace_id(name: String, trace_id: &str) -> (span: RootSpan)
    ensures
        span.name == name,
        span.trace_id == or_zero(gcp_value(trace_id@)),
{
    let trace_id: u128 = match gcp_trace_id_to_u128(trace_id) {
        Some(v) => v,
        None => 0,
    };
    new_span_from_u128_trace_id(name, trace_id)
}

/// The root span for a trace whose id is a UUID, in the form
/// `1042e8d7-fdb2-42cd-b140-9eaaa671d6c6`; the id is zero where the text has
/// no such form.
pub fn new_span_from_uuid(name: String, trace_id: &str) -> (span: RootSpan)
    ensures
        span.name == name,
        span.trace_id == or_zero(uuid_value(trace_id@)),
{
    let trace_id: u128 = match uuid_to_u128(trace_id) {
        Some(v) => v,
        None => 0,
    };
    new_span_from_u128_trace_id(name, trace_id)
}

/// No digit is the character `c`, where `c` is no digit itself.
pub proof fn lemma_digits_exclude(s: Seq<char>, radix: nat, c: char)
    requires
        all_digits(s, radix),
        digit_value(c, radix) is None,
    ensures
        !s.contains(c),
{
    if s.contains(c) {
        let i = choose|i: int| 0 <= i < s.len() && s[i] == c;
        assert(digit_value(s[i], radix) is Some);
    }
}

/// A text in which `sep` does not occur is one piece.
pub proof fn lemma_split_whole(s: Seq<char>, sep: char)
    requires
        !s.contains(sep),
    ensures
        split(s, sep) == seq![s],
    decreases s.len(),
{
    if s.len() == 0 {
        assert(s == Seq::<char>::empty());
    } else {
        assert(s.drop_last().len() < s.len());
        assert forall|i: int| 0 <= i < s.drop_last().len() implies s.drop_last()[i] != sep by {
            assert(s.drop_last()[i] == s[i]);
            assert(s.contains(s[i]));
        }
        if s.drop_last().contains(sep) {
            let i = choose|i: int| 0 <= i < s.drop_last().len() && s.drop_last()[i] == sep;
            assert(false);
        }
        lemma_split_whole(s.drop_last(), sep);
        assert(s.contains(s.last()));
        assert(s.drop_last().push(s.last()) == s);
        assert(seq![s.drop_last()].drop_last().push(s.drop_last().push(s.last())) == seq![s]);
    }
}

/// After a separator and a text in which it does not occur, the pieces are
/// those of what stood before and that text as one more.
pub proof fn lemma_split_more(s: Seq<char>, sep: char, t: Seq<char>)
    requires
        !t.contains(sep),
    ensures
        split(s + seq![sep] + t, sep) == split(s, sep).push(t),
    decreases t.len(),
{
    if t.len() == 0 {
        assert(s + seq![sep] + t == s.push(sep));
        assert(s.push(sep).drop_last() == s);
        assert(t == Seq::<char>::empty());
    } else {
        let whole = s + seq![sep] + t;
        let shorter = s + seq![sep] + t.drop_last();
        assert(whole.drop_last() == shorter);
        assert(whole.last() == t.last());
        assert(t.contains(t.last()));
        if t.drop_last().contains(sep) {
            let i = choose|i: int| 0 <= i < t.drop_last().len() && t.drop_last()[i] == sep;
            assert(t[i] == sep);
            assert(t.contains(sep));
        }
        lemma_split_more(s, sep, t.drop_last());
        assert(t.drop_last().push(t.last()) == t);
        assert(split(s, sep).push(t.drop_last()).drop_last() == split(s, sep));
    }
}

/// Sixteen to the power 32 is two to the power 128.
proof fn lemma_sixteen_to_32()
    ensures
        vstd::arithmetic::power::pow(16, 32) == 0x1_0000_0000_0000_0000_0000_0000_0000_0000,
{
    reveal_with_fuel(vstd::arithmetic::power::pow, 33);
}

/// The 32 hexadecimal digits of a number that fits 128 bits read back as
/// that number.
pub proof fn lemma_hex_reads_back(value: nat)
    requires
        value <= u128::MAX,
    ensures
        fixed_numeral(value, 16, 32).len() == 32,
        all_digits(fixed_numeral(value, 16, 32), 16),
        unsigned_value(fixed_numeral(value, 16, 32), 16, u128::MAX as nat) == Some(value),
{
    let digits = fixed_numeral(value, 16, 32);
    let modulus = vstd::arithmetic::power::pow(16, 32) as nat;
    lemma_fixed_numeral_value(value, 16, 32);
    lemma_sixteen_to_32();
    vstd::arithmetic::div_mod::lemma_small_mod(value, modulus);
    assert(unsigned_digits(digits) == digits);
    assert(digits_value(digits, 16) == value);
}

/// What is written as a trace id of Google Cloud is read back as the number
/// that was written.
pub proof fn lemma_gcp_round_trip(value: u128)
    ensures
        gcp_value(gcp_text(value as nat)) == Some(value as nat),
{
    let upper = ((value as nat) / upper_unit()) * upper_unit();
    let lower = (value as nat) % upper_unit();
    let hex = fixed_numeral(upper, 16, 32);
    let dec = numeral(lower, 10);
    lemma_hex_reads_back(upper);
    lemma_numeral_value(lower, 10);
    lemma_digits_exclude(hex, 16, '/');
    lemma_digits_exclude(dec, 10, '/');
    lemma_split_whole(hex, '/');
    lemma_split_more(hex, '/', dec);
    assert(split(gcp_text(value as nat), '/') == seq![hex, dec]);
    assert(unsigned_digits(dec) == dec);
}

/// What is written as a UUID is read back as the number that was written.
pub proof fn lemma_uuid_round_trip(value: u128)
    ensures
        uuid_value(uuid_text(value as nat)) == Some(value as nat),
{
    let digits = fixed_numeral(value as nat, 16, 32);
    lemma_hex_reads_back(value as nat);
    let a = digits.subrange(0, 8);
    let b = digits.subrange(8, 12);
    let c = digits.subrange(12, 16);
    let d = digits.subrange(16, 20);
    let e = digits.subrange(20, 32);
    assert forall|i: int| 0 <= i < 32 implies digits[i] != '-' by {
        assert(digit_value(digits[i], 16) is Some);
    }
    assert(!a.contains('-')) by {
        if a.contains('-') {
            let i = choose|i: int| 0 <= i < a.len() && a[i] == '-';
            assert(a[i] == digits[i]);
        }
    }
    assert(!b.contains('-')) by {
        if b.contains('-') {
            let i = choose|i: int| 0 <= i < b.len() && b[i] == '-';
            assert(b[i] == digits[i + 8]);
        }
    }
    assert(!c.contains('-')) by {
        if c.contains('-') {
            let i = choose|i: int| 0 <= i < c.len() && c[i] == '-';
            assert(c[i] == digits[i + 12]);
        }
    }
    assert(!d.contains('-')) by {
        if d.contains('-') {
            let i = choose|i: int| 0 <= i < d.len() && d[i] == '-';
            assert(d[i] == digits[i + 16]);
        }
    }
    assert(!e.contains('-')) by {
        if e.contains('-') {
            let i = choose|i: int| 0 <= i < e.len() && e[i] == '-';
            assert(e[i] == digits[i + 20]);
        }
    }
    lemma_split_whole(a, '-');
    lemma_split_more(a, '-', b);
    lemma_split_more(a + seq!['-'] + b, '-', c);
    lemma_split_more(a + seq!['-'] + b + seq!['-'] + c, '-', d);
    lemma_split_more(a + seq!['-'] + b + seq!['-'] + c + seq!['-'] + d, '-', e);
    let groups = seq![a, b, c, d, e];
    assert(split(uuid_text(value as nat), '-') == groups);
    assert(joined(groups) == digits) by {
        reveal_with_fuel(joined, 6);
        assert(groups.drop_last() == seq![a, b, c, d]);
        assert(groups.drop_last().drop_last() == seq![a, b, c]);
        assert(groups.drop_last().drop_last().drop_last() == seq![a, b]);
        assert(groups.drop_last().drop_last().drop_last().drop_last() == seq![a]);
        assert(groups.drop_last().drop_last().drop_last().drop_last().drop_last()
            == Seq::<Seq<char>>::empty());
        assert(Seq::<char>::empty() + a + b + c + d + e == digits);
    }
}

} // verus!
