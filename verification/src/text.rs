//! Text helpers shared by the renderers and parsers of this crate: the
//! characters of a string, numerals in a radix, and their values.

use vstd::prelude::*;

verus! {

/// `String::push` appends one character.
pub assume_specification[ String::push ](s: &mut String, ch: char)
    ensures
        final(s)@ == old(s)@.push(ch),
;

/// A value with a textual rendering.
///
/// The contracts of this crate speak of the text of a value through the
/// postcondition of `describe`: see [`describes`].
pub trait Describe {
    /// Renders this value.
    fn describe(&self) -> String;
}

/// `text` gives, for every value, the one text that `describe` returns for it.
pub open spec fn describes<K: Describe>(text: spec_fn(K) -> Seq<char>) -> bool {
    forall|k: K, s: String| #[trigger] call_ensures(K::describe, (&k,), s) ==> s@ == text(k)
}

impl Describe for String {
    fn describe(&self) -> (s: String)
        ensures
            s@ == self@,
    {
        self.clone()
    }
}

/// The texts of a list of strings.
pub open spec fn texts(list: Seq<String>) -> Seq<Seq<char>> {
    Seq::new(list.len(), |i: int| list[i]@)
}

/// The texts of a list of pairs of strings.
pub open spec fn pair_texts(list: Seq<(String, String)>) -> Seq<(Seq<char>, Seq<char>)> {
    Seq::new(list.len(), |i: int| (list[i].0@, list[i].1@))
}

/// The text of an optional string.
pub open spec fn option_text(text: Option<String>) -> Option<Seq<char>> {
    match text {
        Some(text) => Some(text@),
        None => None,
    }
}

/// The characters of `s`, in order.
pub fn chars_of(s: &str) -> (v: Vec<char>)
    ensures
        v@ == s@,
{
    let mut v: Vec<char> = Vec::new();
    for c in it: s.chars()
        invariant
            v@ == it.seq().take(it.index() as int),
    {
        v.push(c);
    }
    v
}

/// Whether two strings hold the same text.
pub fn same_text(a: &str, b: &str) -> (same: bool)
    ensures
        same == (a@ == b@),
{
    let left = chars_of(a);
    let right = chars_of(b);
    if left.len() != right.len() {
        return false;
    }
    let mut i: usize = 0;
    while i < left.len()
        invariant
            i <= left.len(),
            left.len() == right.len(),
            left@ == a@,
            right@ == b@,
            left@.take(i as int) == right@.take(i as int),
        decreases left.len() - i,
    {
        if left[i] != right[i] {
            assert(a@[i as int] != b@[i as int]);
            return false;
        }
        i += 1;
        assert(left@.take(i as int) == left@.take(i - 1).push(left@[i - 1]));
        assert(right@.take(i as int) == right@.take(i - 1).push(right@[i - 1]));
    }
    assert(left@.take(left.len() as int) == left@);
    assert(right@.take(right.len() as int) == right@);
    true
}

/// The digit that stands for `d`: `0` to `9`, then `a` to `f`.
pub open spec fn digit_char(d: nat) -> char {
    if d < 10 {
        ('0' as u8 + d) as char
    } else {
        ('a' as u8 + (d - 10)) as char
    }
}

/// The numeral of `n` in `radix`, most significant digit first, without
/// leading zeros; zero is written `0`.
pub open spec fn numeral(n: nat, radix: nat) -> Seq<char>
    recommends
        2 <= radix <= 16,
    decreases n,
    via numeral_decreases
{
    if n < radix || radix < 2 {
        seq![digit_char(n)]
    } else {
        numeral(n / radix, radix).push(digit_char(n % radix))
    }
}

#[via_fn]
proof fn numeral_decreases(n: nat, radix: nat) {
    if !(n < radix || radix < 2) {
        lemma_quotient_smaller(n, radix);
    }
}

/// Dividing a positive number by two or more makes it smaller.
pub proof fn lemma_quotient_smaller(n: nat, radix: nat)
    requires
        n > 0,
        radix >= 2,
    ensures
        n / radix < n,
{
    assert(n / radix < n) by (nonlinear_arith)
        requires
            n > 0,
            radix >= 2,
    ;
}

/// The last `width` digits of `n` in `radix`, most significant first, with
/// zeros where `n` has no digit.
pub open spec fn fixed_numeral(n: nat, radix: nat, width: nat) -> Seq<char>
    recommends
        2 <= radix <= 16,
    decreases width,
{
    if width == 0 || radix < 2 {
        Seq::empty()
    } else {
        fixed_numeral(n / radix, radix, (width - 1) as nat).push(digit_char(n % radix))
    }
}

/// What `c` counts for as a digit in `radix`: `0` to `9`, then the letters in
/// either case; `None` where it is no digit of that radix.
pub open spec fn digit_value(c: char, radix: nat) -> Option<nat> {
    let v: int = if '0' <= c <= '9' {
        c as int - '0' as int
    } else if 'a' <= c <= 'z' {
        c as int - 'a' as int + 10
    } else if 'A' <= c <= 'Z' {
        c as int - 'A' as int + 10
    } else {
        radix as int
    };
    if v < radix {
        Some(v as nat)
    } else {
        None
    }
}

/// Every character of `s` is a digit in `radix`.
pub open spec fn all_digits(s: Seq<char>, radix: nat) -> bool {
    forall|i: int| 0 <= i < s.len() ==> (#[trigger] digit_value(s[i], radix)) is Some
}

/// The number that the digits of `s` spell in `radix`, most significant first.
pub open spec fn digits_value(s: Seq<char>, radix: nat) -> nat
    decreases s.len(),
{
    if s.len() == 0 {
        0
    } else {
        digits_value(s.drop_last(), radix) * radix + match digit_value(s.last(), radix) {
            Some(v) => v,
            None => 0,
        }
    }
}

/// The digits of an unsigned numeral: what follows one leading `+`, if
/// anything follows it, else the whole.
pub open spec fn unsigned_digits(s: Seq<char>) -> Seq<char> {
    if s.len() >= 2 && s[0] == '+' {
        s.skip(1)
    } else {
        s
    }
}

/// The value of `s` read as an unsigned numeral in `radix` that fits under
/// `max`: an optional `+`, then one digit or more, leading zeros allowed.
/// `None` for every other text, and where the value exceeds `max`.
pub open spec fn unsigned_value(s: Seq<char>, radix: nat, max: nat) -> Option<nat> {
    let digits = unsigned_digits(s);
    if digits.len() > 0 && all_digits(digits, radix) && digits_value(digits, radix) <= max {
        Some(digits_value(digits, radix))
    } else {
        None
    }
}

/// Dropping the last digit of a numeral divides its value by the radix.
pub proof fn lemma_digits_value_push(s: Seq<char>, c: char, radix: nat)
    ensures
        digits_value(s.push(c), radix) == digits_value(s, radix) * radix + match digit_value(
            c,
            radix,
        ) {
            Some(v) => v,
            None => 0,
        },
{
    assert(s.push(c).drop_last() == s);
    assert(s.push(c).last() == c);
}

/// A digit character counts for the digit it stands for.
pub proof fn lemma_digit_char_value(d: nat, radix: nat)
    requires
        d < radix <= 16,
    ensures
        digit_value(digit_char(d), radix) == Some(d),
{
}

/// A numeral spells the number it was written for.
pub proof fn lemma_numeral_value(n: nat, radix: nat)
    requires
        2 <= radix <= 16,
    ensures
        numeral(n, radix).len() > 0,
        numeral(n, radix)[0] != '+',
        all_digits(numeral(n, radix), radix),
        digits_value(numeral(n, radix), radix) == n,
    decreases n,
{
    if n < radix {
        lemma_digit_char_value(n, radix);
        lemma_digits_value_push(Seq::empty(), digit_char(n), radix);
        assert(seq![digit_char(n)] == Seq::<char>::empty().push(digit_char(n)));
        assert(digits_value(Seq::<char>::empty(), radix) * radix == 0) by (nonlinear_arith)
            requires
                digits_value(Seq::<char>::empty(), radix) == 0,
        ;
    } else {
        let head = numeral(n / radix, radix);
        lemma_quotient_smaller(n, radix);
        lemma_numeral_value(n / radix, radix);
        lemma_digit_char_value(n % radix, radix);
        lemma_digits_value_push(head, digit_char(n % radix), radix);
        assert(n == (n / radix) * radix + n % radix) by (nonlinear_arith)
            requires
                radix > 0,
        ;
        assert(head.push(digit_char(n % radix))[0] == head[0]);
        assert forall|i: int| 0 <= i < head.len() + 1 implies (#[trigger] digit_value(
            head.push(digit_char(n % radix))[i],
            radix,
        )) is Some by {
            if i < head.len() {
                assert(head.push(digit_char(n % radix))[i] == head[i]);
            }
        }
    }
}

/// A numeral of fixed width has that width, holds digits only, and spells
/// its number as far as the width reaches.
pub proof fn lemma_fixed_numeral_value(n: nat, radix: nat, width: nat)
    requires
        2 <= radix <= 16,
    ensures
        fixed_numeral(n, radix, width).len() == width,
        all_digits(fixed_numeral(n, radix, width), radix),
        width > 0 ==> fixed_numeral(n, radix, width)[0] != '+',
        digits_value(fixed_numeral(n, radix, width), radix) == n % (vstd::arithmetic::power::pow(
            radix as int,
            width,
        ) as nat),
    decreases width,
{
    let p = vstd::arithmetic::power::pow(radix as int, width);
    vstd::arithmetic::power::lemma_pow_positive(radix as int, width);
    if width == 0 {
        vstd::arithmetic::power::lemma_pow0(radix as int);
    } else {
        let w = (width - 1) as nat;
        let q = vstd::arithmetic::power::pow(radix as int, w);
        let head = fixed_numeral(n / radix, radix, w);
        let last = digit_char(n % radix);
        lemma_fixed_numeral_value(n / radix, radix, w);
        lemma_digit_char_value(n % radix, radix);
        lemma_digits_value_push(head, last, radix);
        vstd::arithmetic::power::lemma_pow_positive(radix as int, w);
        assert(p == radix * q) by {
            vstd::arithmetic::power::lemma_pow_adds(radix as int, 1, w);
            vstd::arithmetic::power::lemma_pow1(radix as int);
        }
        lemma_mod_of_product(n as int, radix as int, q);
        assert forall|i: int| 0 <= i < width implies (#[trigger] digit_value(
            head.push(last)[i],
            radix,
        )) is Some by {
            if i < head.len() {
                assert(head.push(last)[i] == head[i]);
            }
        }
        if w > 0 {
            assert(head.push(last)[0] == head[0]);
        }
    }
}

/// Splitting a remainder by a product: the low digit and the rest.
proof fn lemma_mod_of_product(n: int, r: int, q: int)
    requires
        0 <= n,
        0 < r,
        0 < q,
    ensures
        n % (r * q) == ((n / r) % q) * r + n % r,
{
    vstd::arithmetic::div_mod::lemma_breakdown(n, r, q);
    vstd::arithmetic::div_mod::lemma_fundamental_div_mod(n, r);
    assert(r * ((n / r) % q) == ((n / r) % q) * r) by (nonlinear_arith);
}

/// The digit character of `d`.
fn digit_of(d: u8) -> (c: char)
    requires
        d < 16,
    ensures
        c == digit_char(d as nat),
{
    if d < 10 {
        ('0' as u8 + d) as char
    } else {
        ('a' as u8 + (d - 10)) as char
    }
}

/// Appends the numeral of `n` in `radix` to `out`.
pub fn push_numeral(out: &mut String, n: u128, radix: u8)
    requires
        2 <= radix <= 16,
    ensures
        final(out)@ == old(out)@ + numeral(n as nat, radix as nat),
    decreases n,
{
    let r: u128 = radix as u128;
    if n >= r {
        proof {
            lemma_quotient_smaller(n as nat, radix as nat);
        }
        push_numeral(out, n / r, radix);
    }
    out.push(digit_of((n % r) as u8));
    proof {
        if n < radix {
            vstd::arithmetic::div_mod::lemma_small_mod(n as nat, r as nat);
            assert(numeral(n as nat, radix as nat) == seq![digit_char(n as nat)]);
            assert(old(out)@.push(digit_char(n as nat)) == old(out)@ + seq![digit_char(n as nat)]);
        } else {
            let head = numeral((n / r) as nat, radix as nat);
            assert((n / r) as nat == (n as nat) / (radix as nat));
            assert((n % r) as nat == (n as nat) % (radix as nat));
            assert(numeral(n as nat, radix as nat) == head.push(digit_char((n % r) as nat)));
            assert((old(out)@ + head).push(digit_char((n % r) as nat)) == old(out)@ + head.push(
                digit_char((n % r) as nat),
            ));
        }
    }
}

/// Appends the last `width` digits of `n` in `radix` to `out`, zeros included.
pub fn push_fixed_numeral(out: &mut String, n: u128, radix: u8, width: u8)
    requires
        2 <= radix <= 16,
    ensures
        final(out)@ == old(out)@ + fixed_numeral(n as nat, radix as nat, width as nat),
    decreases width,
{
    let r: u128 = radix as u128;
    if width > 0 {
        push_fixed_numeral(out, n / r, radix, width - 1);
        out.push(digit_of((n % r) as u8));
        proof {
            let head = fixed_numeral((n / r) as nat, radix as nat, (width - 1) as nat);
            assert((n / r) as nat == (n as nat) / (radix as nat));
            assert((n % r) as nat == (n as nat) % (radix as nat));
            assert((old(out)@ + head).push(digit_char((n % r) as nat)) == old(out)@ + head.push(
                digit_char((n % r) as nat),
            ));
        }
    } else {
        assert(old(out)@ + Seq::<char>::empty() == old(out)@);
    }
}

/// What `c` counts for as a digit in `radix`.
pub fn digit_value_of(c: char, radix: u8) -> (v: Option<u8>)
    requires
        radix <= 36,
    ensures
        v is Some <==> digit_value(c, radix as nat) is Some,
        v matches Some(d) ==> digit_value(c, radix as nat) == Some(d as nat),
{
    let code: u32 = c as u32;
    let v: u32 = if '0' as u32 <= code && code <= '9' as u32 {
        code - '0' as u32
    } else if 'a' as u32 <= code && code <= 'z' as u32 {
        code - 'a' as u32 + 10
    } else if 'A' as u32 <= code && code <= 'Z' as u32 {
        code - 'A' as u32 + 10
    } else {
        radix as u32
    };
    if v < radix as u32 {
        Some(v as u8)
    } else {
        None
    }
}

/// Reads `s` as an unsigned numeral in `radix` that fits under `max`.
pub fn parse_unsigned(s: &Vec<char>, radix: u8, max: u128) -> (r: Option<u128>)
    requires
        2 <= radix <= 36,
    ensures
        r is Some <==> unsigned_value(s@, radix as nat, max as nat) is Some,
        r matches Some(v) ==> unsigned_value(s@, radix as nat, max as nat) == Some(v as nat),
{
    let start: usize = if s.len() >= 2 && s[0] == '+' {
        1
    } else {
        0
    };
    let ghost digits = unsigned_digits(s@);
    assert(digits == s@.skip(start as int));
    if start >= s.len() {
        return None;
    }
    let mut acc: u128 = 0;
    let mut i: usize = start;
    while i < s.len()
        invariant
            2 <= radix <= 36,
            start <= i <= s.len(),
            digits == unsigned_digits(s@),
            digits == s@.skip(start as int),
            all_digits(digits.take(i - start), radix as nat),
            acc == digits_value(digits.take(i - start), radix as nat),
            acc <= max,
        decreases s.len() - i,
    {
        let ghost seen = digits.take(i - start);
        let ghost next = digits.take(i - start + 1);
        proof {
            assert(next == seen.push(s@[i as int]));
            lemma_digits_value_push(seen, s@[i as int], radix as nat);
            lemma_digits_value_take_le(digits, (i - start + 1) as int, radix as nat);
        }
        match digit_value_of(s[i], radix) {
            None => {
                assert(digit_value(digits[i - start], radix as nat) is None);
                return None;
            },
            Some(d) => {
                let grown: Option<u128> = match acc.checked_mul(radix as u128) {
                    Some(m) => m.checked_add(d as u128),
                    None => None,
                };
                match grown {
                    Some(v) => {
                        if v > max {
                            return None;
                        }
                        assert forall|j: int| 0 <= j < next.len() implies (#[trigger] digit_value(
                            next[j],
                            radix as nat,
                        )) is Some by {
                            if j < seen.len() {
                                assert(next[j] == seen[j]);
                            }
                        }
                        acc = v;
                    },
                    None => {
                        return None;
                    },
                }
            },
        }
        i += 1;
    }
    assert(digits.take(i - start) == digits);
    Some(acc)
}

/// A prefix of a numeral spells no more than the whole.
pub proof fn lemma_digits_value_take_le(s: Seq<char>, n: int, radix: nat)
    requires
        0 <= n <= s.len(),
    ensures
        digits_value(s.take(n), radix) <= digits_value(s, radix),
    decreases s.len() - n,
{
    if n == s.len() {
        assert(s.take(n) == s);
    } else {
        lemma_digits_value_take_le(s, n + 1, radix);
        assert(s.take(n + 1) == s.take(n).push(s[n]));
        lemma_digits_value_push(s.take(n), s[n], radix);
        assert(digits_value(s.take(n), radix) <= digits_value(s.take(n), radix) * radix)
            by (nonlinear_arith)
            requires
                radix >= 1 || digits_value(s.take(n), radix) == 0,
        ;
    }
}

} // verus!
