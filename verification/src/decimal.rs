//! Numbers in decimal notation: writing them and reading them back.

use crate::scan::{blank, is_white_space, law_trimmed, trim, trimmed};
use crate::text::{append_char, text};
use vstd::arithmetic::div_mod::lemma_mod_multiples_vanish;
use vstd::prelude::*;
use vstd::utf8::is_ascii_chars;

verus! {

/// The character of a digit.
pub open spec fn digit(d: nat) -> char {
    (48 + d) as char
}

/// `n` in decimal, without leading zeros.
pub open spec fn decimal(n: nat) -> Seq<char>
    decreases n,
{
    if n < 10 {
        seq![digit(n)]
    } else {
        decimal(n / 10).push(digit(n % 10))
    }
}

/// `n` in decimal, with a leading zero where it has one digit.
pub open spec fn two_digits(n: nat) -> Seq<char> {
    if n < 10 {
        seq!['0', digit(n)]
    } else {
        decimal(n)
    }
}

/// `v` in decimal, with a minus sign where it is negative.
pub open spec fn signed_decimal(v: int) -> Seq<char> {
    if v < 0 {
        seq!['-'] + decimal((-v) as nat)
    } else {
        decimal(v as nat)
    }
}

/// `c` is an ASCII digit.
pub open spec fn is_digit(c: char) -> bool {
    '0' <= c <= '9'
}

/// `s` is one or more ASCII digits.
pub open spec fn all_digits(s: Seq<char>) -> bool {
    &&& s.len() > 0
    &&& forall|i: int| 0 <= i < s.len() ==> is_digit(#[trigger] s[i])
}

/// The number that the digits `s` stand for.
pub open spec fn digits_value(s: Seq<char>) -> nat
    decreases s.len(),
{
    if s.len() == 0 {
        0
    } else {
        digits_value(s.drop_last()) * 10 + (s.last() as nat - 48) as nat
    }
}

/// The number that `s` stands for: digits, after a plus sign or, where
/// `negatives` are read too, a minus sign, or after no sign.
pub open spec fn number_in(s: Seq<char>, negatives: bool) -> Option<int> {
    let minus = negatives && s.len() > 0 && s[0] == '-';
    let plus = s.len() > 0 && s[0] == '+';
    let digits = if minus || plus {
        s.skip(1)
    } else {
        s
    };
    if !all_digits(digits) {
        None
    } else if minus {
        Some(-digits_value(digits))
    } else {
        Some(digits_value(digits) as int)
    }
}

/// The low byte of the code of `c`.
pub open spec fn low_byte(c: char) -> nat {
    c as nat % 256
}

/// The number that `s` stands for if each character is taken for the ASCII
/// character with its low byte.
pub open spec fn low_value(s: Seq<char>) -> nat
    decreases s.len(),
{
    if s.len() == 0 {
        0
    } else {
        low_value(s.drop_last()) * 10 + (low_byte(s.last()) - 48) as nat
    }
}

/// What a field of a command stands for: its digits, white space around them
/// left out, modulo 256. Only the low byte of each character counts.
pub open spec fn field_value(s: Seq<char>) -> Option<u8> {
    let t = trimmed(s);
    if t.len() > 0 && forall|i: int| 0 <= i < t.len() ==> 48 <= low_byte(#[trigger] t[i]) <= 57 {
        Some((low_value(t) % 256) as u8)
    } else {
        None
    }
}

/// Reads a field of a command: digits with white space around them, modulo 256.
pub fn parse_u8(s: &str) -> (result: Result<u8, ()>)
    ensures
        result == (match field_value(s@) {
            Some(v) => Ok::<u8, ()>(v),
            None => Err::<u8, ()>(()),
        }),
{
    let digits = trim(s);
    let len: usize = digits.unicode_len();
    let mut result: u8 = 0;
    if len == 0 {
        return Err(());
    }
    let mut i: usize = 0;
    while i < len
        invariant
            i <= len,
            len == digits@.len(),
            len > 0,
            digits@ == trimmed(s@),
            forall|j: int| 0 <= j < i ==> 48 <= low_byte(#[trigger] digits@[j]) <= 57,
            result == low_value(digits@.take(i as int)) % 256,
        decreases len - i,
    {
        let code: u32 = digits.get_char(i) as u32;
        let d: u8 = (code % 256) as u8;
        if d < 48 || d > 57 {
            assert(low_byte(digits@[i as int]) == d);
            return Err(());
        }
        proof {
            assert(digits@.take(i + 1).drop_last() =~= digits@.take(i as int));
            assert(digits@.take(i + 1).last() == digits@[i as int]);
            lemma_wrapped_step(low_value(digits@.take(i as int)), result as nat, d as nat - 48);
        }
        result = result.wrapping_mul(10).wrapping_add(d - 48);
        i += 1;
    }
    assert(digits@.take(len as int) =~= digits@);
    Ok(result)
}

/// One digit more, modulo 256.
proof fn lemma_wrapped_step(whole: nat, wrapped: nat, d: int)
    requires
        wrapped == whole % 256,
        0 <= d <= 9,
    ensures
        (whole * 10 + d) % 256 == ((wrapped * 10) % 256 + d) % 256,
{
    let q = whole as int / 256;
    let p = (wrapped * 10) as int / 256;
    let r = (wrapped * 10) as int % 256;
    assert(whole * 10 + d == 256 * (10 * q + p) + (r + d));
    lemma_mod_multiples_vanish(10 * q + p, r + d, 256);
}

/// Reads digits. The result is exact up to 40000, and above it anything more.
fn read_digits(s: &str) -> (result: Option<u32>)
    ensures
        result is Some <==> all_digits(s@),
        result matches Some(v) ==> if digits_value(s@) <= 40000 {
            v == digits_value(s@)
        } else {
            v > 40000
        },
{
    let len: usize = s.unicode_len();
    if len == 0 {
        return None;
    }
    let mut value: u32 = 0;
    let mut i: usize = 0;
    while i < len
        invariant
            i <= len,
            len == s@.len(),
            value <= 400009,
            forall|j: int| 0 <= j < i ==> is_digit(#[trigger] s@[j]),
            if digits_value(s@.take(i as int)) <= 40000 {
                value == digits_value(s@.take(i as int))
            } else {
                value > 40000
            },
        decreases len - i,
    {
        let c: char = s.get_char(i);
        if c < '0' || c > '9' {
            assert(!is_digit(s@[i as int]));
            return None;
        }
        proof {
            assert(s@.take(i + 1).drop_last() =~= s@.take(i as int));
            assert(s@.take(i + 1).last() == s@[i as int]);
        }
        if value <= 40000 {
            value = value * 10 + (c as u32 - 48);
        }
        i += 1;
    }
    assert(s@.take(len as int) =~= s@);
    Some(value)
}

/// Reads a number from 0 to 255: digits, after a plus sign or none.
pub fn read_u8(s: &str) -> (result: Option<u8>)
    ensures
        result == (match number_in(s@, false) {
            Some(v) => if v <= 255 {
                Some(v as u8)
            } else {
                None
            },
            None => None,
        }),
{
    let len: usize = s.unicode_len();
    let signed = len > 0 && s.get_char(0) == '+';
    let digits = if signed {
        s.substring_char(1, len)
    } else {
        s
    };
    assert(signed ==> digits@ =~= s@.skip(1));
    match read_digits(digits) {
        Some(v) if v <= 255 => Some(v as u8),
        _ => None,
    }
}

/// Reads a number from -32768 to 32767: digits, after a sign or none.
pub fn read_i16(s: &str) -> (result: Option<i16>)
    ensures
        result == (match number_in(s@, true) {
            Some(v) => if -32768 <= v <= 32767 {
                Some(v as i16)
            } else {
                None
            },
            None => None,
        }),
{
    let len: usize = s.unicode_len();
    let minus = len > 0 && s.get_char(0) == '-';
    let plus = len > 0 && s.get_char(0) == '+';
    let digits = if minus || plus {
        s.substring_char(1, len)
    } else {
        s
    };
    assert(minus || plus ==> digits@ =~= s@.skip(1));
    match read_digits(digits) {
        Some(v) if minus && v <= 32768 => Some((-(v as i32)) as i16),
        Some(v) if !minus && v <= 32767 => Some(v as i16),
        _ => None,
    }
}

/// Appends `v` in decimal to `out`.
pub(crate) fn append_decimal<const N: usize>(out: &mut heapless::String<N>, v: u16)
    requires
        is_ascii_chars(text(*old(out))),
        text(*old(out)).len() + decimal(v as nat).len() <= N,
    ensures
        text(*final(out)) == text(*old(out)) + decimal(v as nat),
        is_ascii_chars(text(*final(out))),
    decreases v,
{
    let ghost before = text(*out);
    if v >= 10 {
        append_decimal(out, v / 10);
    }
    append_char(out, (48 + (v % 10) as u8) as char);
    assert(text(*out) =~= before + decimal(v as nat));
}

/// Appends `v` in decimal to `out`, with a leading zero where it has one digit.
pub(crate) fn append_two_digits<const N: usize>(out: &mut heapless::String<N>, v: u8)
    requires
        is_ascii_chars(text(*old(out))),
        text(*old(out)).len() + 3 <= N,
    ensures
        text(*final(out)) == text(*old(out)) + two_digits(v as nat),
        is_ascii_chars(text(*final(out))),
{
    let ghost before = text(*out);
    proof {
        assert(ten_to(3) == 1000) by {
            reveal_with_fuel(ten_to, 4);
        }
        lemma_decimal_len(v as nat, 3);
    }
    if v < 10 {
        append_char(out, '0');
    }
    append_decimal(out, v as u16);
    assert(text(*out) =~= before + two_digits(v as nat));
}

/// Appends `v` in decimal to `out`, with a minus sign where it is negative.
pub(crate) fn append_signed<const N: usize>(out: &mut heapless::String<N>, v: i16)
    requires
        is_ascii_chars(text(*old(out))),
        text(*old(out)).len() + 6 <= N,
    ensures
        text(*final(out)) == text(*old(out)) + signed_decimal(v as int),
        is_ascii_chars(text(*final(out))),
{
    let ghost before = text(*out);
    let negative = v < 0;
    if negative {
        append_char(out, '-');
    }
    let magnitude: u16 = if negative {
        (-(v as i32)) as u16
    } else {
        v as u16
    };
    proof {
        assert(ten_to(5) == 100000) by {
            reveal_with_fuel(ten_to, 6);
        }
        lemma_decimal_len(magnitude as nat, 5);
    }
    append_decimal(out, magnitude);
    assert(text(*out) =~= before + signed_decimal(v as int));
}

/// The powers of ten that bound a number of so many digits.
pub open spec fn ten_to(k: nat) -> nat
    decreases k,
{
    if k == 0 {
        1
    } else {
        10 * ten_to((k - 1) as nat)
    }
}

/// A number below the `k`-th power of ten has at most `k` digits.
pub proof fn lemma_decimal_len(n: nat, k: nat)
    requires
        n < ten_to(k),
        k > 0,
    ensures
        1 <= decimal(n).len() <= k,
    decreases n,
{
    if n >= 10 {
        reveal_with_fuel(ten_to, 2);
        lemma_decimal_len(n / 10, (k - 1) as nat);
    }
}

/// Decimal notation is made of digits and stands for the number.
pub proof fn lemma_decimal_value(n: nat)
    ensures
        all_digits(decimal(n)),
        digits_value(decimal(n)) == n,
    decreases n,
{
    let d = decimal(n);
    if n < 10 {
        assert(d.drop_last() =~= Seq::<char>::empty());
        assert(digits_value(d.drop_last()) == 0);
    } else {
        lemma_decimal_value(n / 10);
        assert(d.drop_last() =~= decimal(n / 10));
        assert(d.last() == digit(n % 10));
        assert forall|i: int| 0 <= i < d.len() implies is_digit(#[trigger] d[i]) by {
            if i < d.len() - 1 {
                assert(d[i] == decimal(n / 10)[i]);
            }
        }
    }
}

/// A leading zero changes nothing in that.
pub proof fn lemma_two_digits_value(n: nat)
    ensures
        all_digits(two_digits(n)),
        digits_value(two_digits(n)) == n,
        n < 1000 ==> 2 <= two_digits(n).len() <= 3,
{
    lemma_decimal_value(n);
    if n < 10 {
        let d = two_digits(n);
        assert(d.drop_last() =~= seq!['0']);
        assert(d.drop_last().drop_last() =~= Seq::<char>::empty());
        assert(digits_value(d.drop_last().drop_last()) == 0);
        assert(digits_value(d.drop_last()) == 0);
        assert(digits_value(d) == n);
    } else if n < 1000 {
        assert(ten_to(3) == 1000) by {
            reveal_with_fuel(ten_to, 4);
        }
        lemma_decimal_len(n, 3);
        lemma_decimal_len(n / 10, 2);
    }
}

/// Digits are not white space, so they are their own trimming, and they are
/// read as the number that they stand for.
pub proof fn lemma_digits_read(s: Seq<char>)
    requires
        all_digits(s),
    ensures
        is_ascii_chars(s),
        trimmed(s) == s,
        number_in(s, false) == Some(digits_value(s) as int),
        number_in(s, true) == Some(digits_value(s) as int),
        field_value(s) == Some((digits_value(s) % 256) as u8),
{
    assert(is_digit(s.first()) && is_digit(s.last()));
    assert(!is_white_space(s.first()) && !is_white_space(s.last()));
    lemma_low_value(s);
    assert forall|i: int| 0 <= i < s.len() implies 48 <= low_byte(#[trigger] s[i]) <= 57 by {
        assert(is_digit(s[i]));
    }
    assert forall|i: int| 0 <= i < s.len() implies '\0' <= #[trigger] s[i] <= '\u{7f}' by {
        assert(is_digit(s[i]));
    }
}

/// ASCII digits are their own low bytes.
proof fn lemma_low_value(s: Seq<char>)
    requires
        forall|i: int| 0 <= i < s.len() ==> is_digit(#[trigger] s[i]),
    ensures
        low_value(s) == digits_value(s),
    decreases s.len(),
{
    if s.len() > 0 {
        assert(is_digit(s.last()));
        assert forall|i: int| 0 <= i < s.drop_last().len() implies is_digit(
            #[trigger] s.drop_last()[i],
        ) by {
            assert(is_digit(s[i]));
        }
        lemma_low_value(s.drop_last());
    }
}

/// What `signed_decimal` writes is read back as the same number.
pub proof fn lemma_signed_read(v: int)
    ensures
        is_ascii_chars(signed_decimal(v)),
        trimmed(signed_decimal(v)) == signed_decimal(v),
        number_in(signed_decimal(v), true) == Some(v),
{
    let s = signed_decimal(v);
    if v < 0 {
        let d = decimal((-v) as nat);
        lemma_decimal_value((-v) as nat);
        lemma_digits_read(d);
        assert(s.skip(1) =~= d);
        assert(s.last() == d.last());
        assert(is_digit(d.last()));
        assert(trimmed(s) == s);
        assert forall|i: int| 0 <= i < s.len() implies '\0' <= #[trigger] s[i] <= '\u{7f}' by {
            if i > 0 {
                assert(s[i] == d[i - 1]);
            }
        }
    } else {
        lemma_decimal_value(v as nat);
        lemma_digits_read(s);
    }
}

/// Decimal notation has no zero in front, but for the number zero itself, and its digits
/// stand for the number. With two digits asked for there is one zero in front of a single
/// digit, and nothing else differs.
pub proof fn law_decimal(n: nat)
    ensures
        all_digits(decimal(n)) && digits_value(decimal(n)) == n,
        n > 0 ==> decimal(n)[0] != '0',
        n == 0 ==> decimal(n) == seq!['0'],
        n >= 10 ==> two_digits(n) == decimal(n),
        n < 10 ==> two_digits(n) == seq!['0'] + decimal(n) && decimal(n).len() == 1,
    decreases n,
{
    lemma_decimal_value(n);
    if n >= 10 {
        law_decimal(n / 10);
        assert(decimal(n)[0] == decimal(n / 10)[0]);
    } else {
        assert(seq!['0'] + decimal(n) =~= seq!['0', digit(n)]);
        assert(decimal(n) =~= seq![digit(n)]);
    }
}

/// A negative number is that without the sign, after a minus.
pub proof fn law_signed_decimal(n: nat)
    ensures
        signed_decimal(n as int) == decimal(n),
        n > 0 ==> signed_decimal(-n) == seq!['-'] + decimal(n),
{
}

/// The value of digits: none stand for zero, and one more digit stands for itself and ten
/// times those before it.
pub proof fn law_digits_value(s: Seq<char>, c: char)
    requires
        '0' <= c <= '9',
    ensures
        digits_value(Seq::empty()) == 0,
        digits_value(s.push(c)) == 10 * digits_value(s) + (c as u32 - '0' as u32),
        is_digit(c),
        c == '0' ==> digits_value(s.push(c)) == 10 * digits_value(s),
{
    assert(s.push(c).drop_last() =~= s);
}

/// What is read as a number: digits, after a plus or nothing, and where negative numbers
/// are read, after a minus.
pub proof fn law_number_read(d: Seq<char>)
    requires
        all_digits(d),
    ensures
        number_in(d, false) == Some(digits_value(d) as int),
        number_in(d, true) == Some(digits_value(d) as int),
        number_in(seq!['+'] + d, false) == Some(digits_value(d) as int),
        number_in(seq!['+'] + d, true) == Some(digits_value(d) as int),
        number_in(seq!['-'] + d, true) == Some(-(digits_value(d) as int)),
        number_in(seq!['-'] + d, false) is None,
{
    assert((seq!['+'] + d).skip(1) =~= d);
    assert((seq!['-'] + d).skip(1) =~= d);
    assert(is_digit(d[0]));
    assert((seq!['-'] + d)[0] == '-' && !is_digit('-'));
}

/// Nothing else is read as a number: not the empty text, nor one with a character that is
/// no digit, but for the sign in front.
pub proof fn law_number_refused(s: Seq<char>, i: int, negatives: bool)
    requires
        s.len() == 0 || 0 <= i < s.len() && !('0' <= s[i] <= '9') && (i > 0 || s[0] != '+' && (s[0]
            != '-' || !negatives)) || s.len() == 1 && !('0' <= s[0] <= '9'),
    ensures
        number_in(s, negatives) is None,
{
    if s.len() > 1 && 0 <= i < s.len() && !is_digit(s[i]) {
        if i > 0 {
            assert(s.skip(1)[i - 1] == s[i]);
        }
    }
    if s.len() == 1 {
        assert(s.skip(1) =~= Seq::<char>::empty());
    }
}

/// A field of a command, with white space around it: digits stand for their value modulo
/// 256. A character counts as the digit that has its low byte.
pub proof fn law_field_read(before: Seq<char>, s: Seq<char>, d: Seq<char>, after: Seq<char>)
    requires
        blank(before),
        blank(after),
        all_digits(d),
        s.len() == d.len(),
        forall|i: int| 0 <= i < s.len() ==> #[trigger] s[i] as nat % 256 == d[i] as nat,
    ensures
        field_value(before + s + after) is Some,
        field_value(before + s + after)->0 == digits_value(d) % 256,
{
    assert(is_digit(d[0]) && is_digit(d[d.len() - 1]));
    assert(s[0] as nat % 256 == d[0] as nat);
    assert(s[s.len() - 1] as nat % 256 == d[d.len() - 1] as nat);
    lemma_low_not_white(s.first(), d.first());
    lemma_low_not_white(s.last(), d.last());
    law_trimmed(before, s, after);
    assert forall|i: int| 0 <= i < s.len() implies 48 <= low_byte(#[trigger] s[i]) <= 57 by {
        assert(is_digit(d[i]));
        assert(s[i] as nat % 256 == d[i] as nat);
    }
    lemma_low_digits(s, d);
}

/// No white space has the low byte of a digit.
proof fn lemma_low_not_white(c: char, d: char)
    requires
        is_digit(d),
        c as nat % 256 == d as nat,
    ensures
        !is_white_space(c),
{
}

/// A field is refused where it is blank, and where what is left of it without the white
/// space around it has a character whose low byte is no digit.
pub proof fn law_field_refused(before: Seq<char>, s: Seq<char>, after: Seq<char>, i: int)
    requires
        blank(before),
        blank(after),
        s.len() > 0 ==> !is_white_space(s.first()) && !is_white_space(s.last()),
        s.len() == 0 || 0 <= i < s.len() && !(48 <= s[i] as nat % 256 <= 57),
    ensures
        field_value(before + s + after) is None,
{
    law_trimmed(before, s, after);
    if s.len() > 0 {
        assert(!(48 <= low_byte(s[i]) <= 57));
    }
}

/// Characters with the low bytes of digits stand for what those stand for.
proof fn lemma_low_digits(s: Seq<char>, d: Seq<char>)
    requires
        s.len() == d.len(),
        forall|i: int| 0 <= i < d.len() ==> is_digit(#[trigger] d[i]),
        forall|i: int| 0 <= i < s.len() ==> #[trigger] s[i] as nat % 256 == d[i] as nat,
    ensures
        low_value(s) == digits_value(d),
    decreases s.len(),
{
    if s.len() > 0 {
        let n = s.len() - 1;
        assert(s[n] as nat % 256 == d[n] as nat);
        assert(is_digit(d[n]));
        assert forall|i: int| 0 <= i < n implies is_digit(#[trigger] d.drop_last()[i]) by {
            assert(is_digit(d[i]));
        }
        assert forall|i: int| 0 <= i < n implies #[trigger] s.drop_last()[i] as nat % 256
            == d.drop_last()[i] as nat by {
            assert(s[i] as nat % 256 == d[i] as nat);
        }
        lemma_low_digits(s.drop_last(), d.drop_last());
    }
}

/// Digits are the ten ASCII ones, and a run of them is not empty.
pub proof fn law_all_digits(s: Seq<char>)
    ensures
        all_digits(s) <==> s.len() > 0 && forall|i: int|
            0 <= i < s.len() ==> '0' <= #[trigger] s[i] <= '9',
{
    if s.len() > 0 && forall|i: int| 0 <= i < s.len() ==> '0' <= #[trigger] s[i] <= '9' {
        assert forall|i: int| 0 <= i < s.len() implies is_digit(#[trigger] s[i]) by {}
    }
    if all_digits(s) {
        assert forall|i: int| 0 <= i < s.len() implies '0' <= #[trigger] s[i] <= '9' by {
            assert(is_digit(s[i]));
        }
    }
}

} // verus!
