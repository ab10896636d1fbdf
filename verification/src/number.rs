//! Numbers in decimal.
use vstd::prelude::*;

use crate::text;

verus! {

/// `c` is one of the digits `0` to `9`.
pub open spec fn is_digit(c: char) -> bool {
    '0' as u32 <= c as u32 <= '9' as u32
}

/// The number that decimal digits spell.
pub open spec fn decimal(digits: Seq<char>) -> nat
    decreases digits.len(),
{
    if digits.len() == 0 {
        0
    } else {
        decimal(digits.drop_last()) * 10 + (digits.last() as u32 - '0' as u32) as nat
    }
}

/// The digits of a number, without the plus sign that may precede them.
pub open spec fn unsigned_part(s: Seq<char>) -> Seq<char> {
    if s.len() > 0 && s[0] == '+' {
        s.skip(1)
    } else {
        s
    }
}

/// `s` spells a number that fits in 32 bits.
pub open spec fn is_u32_text(s: Seq<char>) -> bool {
    let d = unsigned_part(s);
    &&& d.len() > 0
    &&& forall|i: int| 0 <= i < d.len() ==> is_digit(#[trigger] d[i])
    &&& decimal(d) <= u32::MAX
}

/// The digit of a number below ten.
pub open spec fn digit(n: nat) -> char {
    (n + '0' as u32) as char
}

/// The decimal digits of a number, without leading zeros.
pub open spec fn digits(n: nat) -> Seq<char>
    decreases n,
{
    if n < 10 {
        seq![digit(n)]
    } else {
        digits(n / 10).push(digit(n % 10))
    }
}

/// Whether `s` spells a number that fits in 32 bits: digits, with a plus sign before them or not.
pub fn spells_u32(s: &str) -> (r: bool)
    ensures
        r == is_u32_text(s@),
{
    let cs: Vec<char> = text::chars_of(s);
    let start: usize = if cs.len() > 0 && cs[0] == '+' {
        1
    } else {
        0
    };
    let ghost d = unsigned_part(s@);
    assert(d =~= s@.skip(start as int));
    if start == cs.len() {
        return false;
    }
    let mut value: u64 = 0;
    let mut i: usize = start;
    assert(d.take(0) =~= Seq::<char>::empty());
    while i < cs.len()
        invariant
            cs@ == s@,
            start <= i <= cs.len(),
            d == unsigned_part(s@),
            d == s@.skip(start as int),
            value <= 0x1_0000_0000,
            value < 0x1_0000_0000 ==> value == decimal(d.take(i - start)),
            value == 0x1_0000_0000 ==> decimal(d.take(i - start)) >= 0x1_0000_0000,
            forall|j: int| 0 <= j < i - start ==> is_digit(#[trigger] d[j]),
        decreases cs.len() - i,
    {
        let u: u32 = cs[i] as u32;
        let ghost n = i - start;
        assert(d[n] == cs[i as int]);
        if u < 0x30 || u > 0x39 {
            assert(!is_digit(d[n]));
            return false;
        }
        proof {
            assert(d.take(n + 1).drop_last() =~= d.take(n));
            assert(d.take(n + 1).last() == d[n]);
        }
        value = value * 10 + (u - 0x30) as u64;
        if value > 0x1_0000_0000 {
            value = 0x1_0000_0000;
        }
        i += 1;
    }
    assert(d.take(d.len() as int) =~= d);
    value < 0x1_0000_0000
}

/// The character of a digit.
fn digit_char(n: u64) -> (r: char)
    requires
        n < 10,
    ensures
        r == digit(n as nat),
{
    let b: u8 = 48 + n as u8;
    b as char
}

/// The decimal text of a number.
pub fn decimal_text(n: u64) -> (r: String)
    ensures
        r@ == digits(n as nat),
    decreases n,
{
    if n < 10 {
        let mut r: String = String::new();
        r.push(digit_char(n));
        assert(r@ =~= seq![digit(n as nat)]);
        r
    } else {
        let mut r: String = decimal_text(n / 10);
        r.push(digit_char(n % 10));
        r
    }
}

/// The digits of a number spell it.
pub proof fn law_digits_spell(n: nat)
    ensures
        decimal(digits(n)) == n,
        digits(n).len() > 0,
        forall|i: int| 0 <= i < digits(n).len() ==> is_digit(#[trigger] digits(n)[i]),
    decreases n,
{
    if n < 10 {
        let s = digits(n);
        assert(s.drop_last() =~= Seq::<char>::empty());
        assert(decimal(s.drop_last()) == 0);
        assert(s.last() == digit(n));
    } else {
        law_digits_spell(n / 10);
        let s = digits(n);
        assert(s.drop_last() =~= digits(n / 10));
        assert(s.last() == digit(n % 10));
        assert forall|i: int| 0 <= i < s.len() implies is_digit(#[trigger] s[i]) by {
            if i < s.len() - 1 {
                assert(s[i] == digits(n / 10)[i]);
            }
        }
    }
}

/// The digits of every 32-bit number are read as a 32-bit number.
pub proof fn law_digits_are_u32_text(n: u32)
    ensures
        is_u32_text(digits(n as nat)),
{
    law_digits_spell(n as nat);
    let s = digits(n as nat);
    assert(is_digit(s[0]));
    assert(unsigned_part(s) == s);
}

/// One digit more stands for ten times as much and the digit.
pub proof fn law_decimal_places(s: Seq<char>, c: char)
    requires
        is_digit(c),
    ensures
        decimal(s.push(c)) == 10 * decimal(s) + (c as u32 - 0x30),
        decimal(Seq::<char>::empty()) == 0,
        0x30 <= c as u32 <= 0x39,
{
    assert(s.push(c).drop_last() =~= s);
}

/// A number is read as one of 32 bits exactly where it fits, and with a plus sign before it as well
/// as without; a text with any other character, or without digits, is none.
pub proof fn law_u32_texts(n: nat, s: Seq<char>, i: int)
    ensures
        is_u32_text(digits(n)) <==> n <= 0xFFFF_FFFF,
        s.len() > 0 && s[0] != '+' ==> is_u32_text(seq!['+'] + s) == is_u32_text(s),
        !is_u32_text(Seq::<char>::empty()),
        !is_u32_text(seq!['+']),
        0 <= i < s.len() && !is_digit(s[i]) && (i > 0 || s[i] != '+') ==> !is_u32_text(s),
        is_u32_text(s) && s[0] != '+' ==> decimal(s) <= 0xFFFF_FFFF,
{
    law_digits_spell(n);
    let d = digits(n);
    assert(is_digit(d[0]));
    assert(unsigned_part(d) == d);
    let plus = seq!['+'] + s;
    assert(plus.skip(1) =~= s);
    assert(seq!['+'].skip(1) =~= Seq::<char>::empty());
    if 0 <= i < s.len() && !is_digit(s[i]) && (i > 0 || s[i] != '+') {
        let u = unsigned_part(s);
        if s[0] == '+' {
            assert(u[i - 1] == s[i]);
        }
    }
}

/// Zeros before a number do not change it.
pub proof fn law_leading_zero(s: Seq<char>)
    ensures
        decimal(seq!['0'] + s) == decimal(s),
    decreases s.len(),
{
    let z = seq!['0'];
    if s.len() == 0 {
        assert(z + s =~= z);
        assert(z.drop_last() =~= Seq::<char>::empty());
        assert(decimal(z.drop_last()) == 0);
        assert(z.last() == '0');
    } else {
        law_leading_zero(s.drop_last());
        assert((z + s).drop_last() =~= z + s.drop_last());
        assert((z + s).last() == s.last());
    }
}

/// The digits of a number start with a zero only where it is zero.
pub proof fn law_no_leading_zero(n: nat)
    ensures
        n > 0 ==> digits(n)[0] != '0',
        n == 0 ==> digits(n) == seq!['0'],
    decreases n,
{
    if n >= 10 {
        law_no_leading_zero(n / 10);
        law_digits_spell(n / 10);
        assert(digits(n)[0] == digits(n / 10)[0]);
    } else {
        assert(digits(n)[0] == digit(n));
    }
}

} // verus!
