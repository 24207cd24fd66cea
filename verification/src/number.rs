//! Unsigned integers as text, in decimal and in hexadecimal.
use crate::text::chars_of;
use vstd::arithmetic::div_mod::lemma_fundamental_div_mod;
use vstd::prelude::*;

verus! {

/// The value of a digit in the given radix (at most 16, letters in either case).
pub open spec fn digit_value(c: char, radix: nat) -> Option<nat> {
    let d: int = if '0' <= c && c <= '9' {
        c as int - '0' as int
    } else if 'a' <= c && c <= 'f' {
        c as int - 'a' as int + 10
    } else if 'A' <= c && c <= 'F' {
        c as int - 'A' as int + 10
    } else {
        16
    };
    if d < radix {
        Some(d as nat)
    } else {
        None
    }
}

/// The number that the digits `s` write, if each of them is a digit; no digits write 0.
pub open spec fn digits_value(s: Seq<char>, radix: nat) -> Option<nat>
    decreases s.len(),
{
    if s.len() == 0 {
        Some(0)
    } else {
        match (digits_value(s.drop_last(), radix), digit_value(s.last(), radix)) {
            (Some(high), Some(low)) => Some(high * radix + low),
            _ => None,
        }
    }
}

/// The unsigned number that `s` writes: at least one digit, after at most one `+`, and not more
/// than `max`.
pub open spec fn parse_unsigned(s: Seq<char>, radix: nat, max: nat) -> Option<nat> {
    let digits = if s.len() > 0 && s[0] == '+' {
        s.drop_first()
    } else {
        s
    };
    if digits.len() == 0 {
        None
    } else {
        match digits_value(digits, radix) {
            Some(v) => if v <= max {
                Some(v)
            } else {
                None
            },
            None => None,
        }
    }
}

/// The value of a digit in the given radix.
fn digit_of(c: char, radix: u64) -> (r: Option<u64>)
    requires
        2 <= radix <= 16,
    ensures
        match r {
            Some(d) => digit_value(c, radix as nat) == Some(d as nat) && d < radix,
            None => digit_value(c, radix as nat) == None::<nat>,
        },
{
    let u = c as u64;
    let d: u64 = if '0' <= c && c <= '9' {
        u - 48
    } else if 'a' <= c && c <= 'f' {
        u - 97 + 10
    } else if 'A' <= c && c <= 'F' {
        u - 65 + 10
    } else {
        16
    };
    if d < radix {
        Some(d)
    } else {
        None
    }
}

/// More digits do not make a number smaller, nor an ill-formed one well-formed.
proof fn lemma_digits_grow(s: Seq<char>, k: nat, radix: nat, max: nat)
    requires
        k <= s.len(),
        radix >= 1,
        match digits_value(s.take(k as int), radix) {
            Some(v) => v > max,
            None => true,
        },
    ensures
        match digits_value(s, radix) {
            Some(v) => v > max,
            None => true,
        },
    decreases s.len() - k,
{
    if k == s.len() {
        assert(s.take(k as int) =~= s);
    } else {
        let next = s.take((k + 1) as int);
        assert(next.drop_last() =~= s.take(k as int));
        if let (Some(high), Some(low)) = (
            digits_value(next.drop_last(), radix),
            digit_value(next.last(), radix),
        ) {
            assert(high * radix >= high) by (nonlinear_arith)
                requires
                    radix >= 1,
                    high >= 0,
            ;
        }
        lemma_digits_grow(s, k + 1, radix, max);
    }
}

/// The unsigned number that `s` writes in the given radix, if it is not more than `max`.
pub fn parse_number(s: &str, radix: u64, max: u64) -> (r: Option<u64>)
    requires
        2 <= radix <= 16,
    ensures
        match r {
            Some(v) => parse_unsigned(s@, radix as nat, max as nat) == Some(v as nat),
            None => parse_unsigned(s@, radix as nat, max as nat) == None::<nat>,
        },
{
    let chars = chars_of(s);
    let start: usize = if chars.len() > 0 && chars[0] == '+' {
        1
    } else {
        0
    };
    let ghost digits = chars@.skip(start as int);
    proof {
        assert(digits =~= if s@.len() > 0 && s@[0] == '+' {
            s@.drop_first()
        } else {
            s@
        });
    }
    if start == chars.len() {
        return None;
    }
    let mut value: u64 = 0;
    let mut i: usize = start;
    while i < chars.len()
        invariant
            start <= i <= chars@.len(),
            2 <= radix <= 16,
            value <= max,
            digits == chars@.skip(start as int),
            digits.len() > 0,
            digits_value(digits.take(i - start), radix as nat) == Some(value as nat),
            parse_unsigned(s@, radix as nat, max as nat) == match digits_value(
                digits,
                radix as nat,
            ) {
                Some(v) => if v <= max {
                    Some(v)
                } else {
                    None
                },
                None => None,
            },
        decreases chars@.len() - i,
    {
        let ghost next = digits.take(i - start + 1);
        proof {
            assert(next.drop_last() =~= digits.take(i - start));
        }
        match digit_of(chars[i], radix) {
            Some(d) => {
                assert(value * radix + d <= 0xffff_ffff_ffff_ffff * 16 + 16) by (nonlinear_arith)
                    requires
                        value <= 0xffff_ffff_ffff_ffff,
                        radix <= 16,
                        d < radix,
                ;
                let wide: u128 = value as u128 * radix as u128 + d as u128;
                if wide > max as u128 {
                    proof {
                        lemma_digits_grow(digits, (i - start + 1) as nat, radix as nat, max as nat);
                    }
                    return None;
                }
                value = wide as u64;
            },
            None => {
                proof {
                    lemma_digits_grow(digits, (i - start + 1) as nat, radix as nat, max as nat);
                }
                return None;
            },
        }
        i = i + 1;
    }
    proof {
        assert(digits.take(i - start) =~= digits);
    }
    Some(value)
}

/// The digit for a value below 16, in lower case.
pub open spec fn digit_char(d: nat) -> char {
    if d < 10 {
        ('0' as u8 + d) as u8 as char
    } else {
        ('a' as u8 + (d - 10)) as u8 as char
    }
}

/// `n` written in the given radix, without leading zeros.
pub open spec fn radix_text(n: nat, radix: nat) -> Seq<char>
    decreases n,
{
    if radix < 2 || n < radix {
        seq![digit_char(n)]
    } else {
        proof {
            assert(n / radix < n) by (nonlinear_arith)
                requires
                    radix >= 2,
                    n >= radix,
            ;
        }
        radix_text(n / radix, radix).push(digit_char(n % radix))
    }
}

/// `n` in decimal.
pub open spec fn decimal(n: nat) -> Seq<char> {
    radix_text(n, 10)
}

/// `n` in hexadecimal, with small letters.
pub open spec fn hexadecimal(n: nat) -> Seq<char> {
    radix_text(n, 16)
}

/// `n` written in the given radix.
pub fn radix_string(n: u128, radix: u128) -> (r: String)
    requires
        2 <= radix <= 16,
    ensures
        r@ == radix_text(n as nat, radix as nat),
    decreases n,
{
    if n < radix {
        let mut out = String::new();
        let d = n as u8;
        let c = if d < 10 {
            (48 + d) as char
        } else {
            (97 + (d - 10)) as char
        };
        out.push(c);
        proof {
            assert(out@ =~= seq![digit_char(n as nat)]);
        }
        out
    } else {
        assert(n / radix < n) by (nonlinear_arith)
            requires
                radix >= 2,
                n >= radix,
        ;
        assert(n % radix < radix) by (nonlinear_arith)
            requires
                radix >= 2,
        ;
        let mut out = radix_string(n / radix, radix);
        let d = (n % radix) as u8;
        let c = if d < 10 {
            (48 + d) as char
        } else {
            (97 + (d - 10)) as char
        };
        out.push(c);
        out
    }
}

/// `n` in decimal.
pub fn decimal_string(n: u64) -> (r: String)
    ensures
        r@ == decimal(n as nat),
{
    radix_string(n as u128, 10)
}

/// `n` in hexadecimal, with small letters.
pub fn hex_string(n: u64) -> (r: String)
    ensures
        r@ == hexadecimal(n as nat),
{
    radix_string(n as u128, 16)
}

/// A number is written with digits and small letters alone, and with one of them at least.
pub proof fn lemma_digits_only(n: nat, radix: nat)
    requires
        2 <= radix <= 16,
    ensures
        radix_text(n, radix).len() > 0,
        forall|i: int|
            0 <= i < radix_text(n, radix).len() ==> '0' <= #[trigger] radix_text(n, radix)[i] <= '9'
                || 'a' <= radix_text(n, radix)[i] <= 'f',
    decreases n,
{
    let text = radix_text(n, radix);
    if n < radix {
        assert(text =~= seq![digit_char(n)]);
    } else {
        assert(n / radix < n) by (nonlinear_arith)
            requires
                radix >= 2,
                n >= radix,
        ;
        assert(n % radix < radix) by (nonlinear_arith)
            requires
                radix >= 2,
        ;
        lemma_digits_only(n / radix, radix);
        let front = radix_text(n / radix, radix);
        assert(text =~= front.push(digit_char(n % radix)));
        assert forall|i: int| 0 <= i < text.len() implies '0' <= #[trigger] text[i] <= '9' || 'a'
            <= text[i] <= 'f' by {
            if i < front.len() {
                assert(text[i] == front[i]);
            }
        }
    }
}

/// The digits that write a number read back as that number.
pub proof fn law_digits_read_back(n: nat, radix: nat)
    requires
        2 <= radix <= 16,
    ensures
        digits_value(radix_text(n, radix), radix) == Some(n),
        radix_text(n, radix).len() > 0,
        radix_text(n, radix)[0] != '+',
    decreases n,
{
    let text = radix_text(n, radix);
    if n < radix {
        assert(text.drop_last() =~= Seq::<char>::empty());
        assert(digits_value(text.drop_last(), radix) == Some(0nat));
        assert(digit_value(text.last(), radix) == Some(n));
        assert(0nat * radix == 0) by (nonlinear_arith);
    } else {
        assert(n / radix < n) by (nonlinear_arith)
            requires
                radix >= 2,
                n >= radix,
        ;
        assert(n % radix < radix) by (nonlinear_arith)
            requires
                radix >= 2,
        ;
        law_digits_read_back(n / radix, radix);
        assert(text.drop_last() =~= radix_text(n / radix, radix));
        lemma_fundamental_div_mod(n as int, radix as int);
        assert(digit_value(text.last(), radix) == Some(n % radix));
        assert((n / radix) * radix == radix * (n / radix)) by (nonlinear_arith);
    }
}

/// A number that is not more than `max` is read back from its own text.
pub proof fn law_number_reads_back(n: nat, radix: nat, max: nat)
    requires
        2 <= radix <= 16,
        n <= max,
    ensures
        parse_unsigned(radix_text(n, radix), radix, max) == Some(n),
{
    law_digits_read_back(n, radix);
}

/// A number that is larger than it may be is not read, and neither is a text without digits or with
/// anything else among them; a plus before the digits does not matter.
pub proof fn law_only_numbers_are_read(n: nat, radix: nat, max: nat, s: Seq<char>, i: int)
    requires
        2 <= radix <= 16,
    ensures
        n > max ==> parse_unsigned(radix_text(n, radix), radix, max) is None,
        n <= max ==> parse_unsigned(seq!['+'] + radix_text(n, radix), radix, max) == Some(n),
        parse_unsigned(Seq::empty(), radix, max) is None,
        parse_unsigned(seq!['+'], radix, max) is None,
        0 <= i < s.len() && s[0] != '+' && digit_value(s[i], radix) is None ==> parse_unsigned(
            s,
            radix,
            max,
        ) is None,
{
    law_digits_read_back(n, radix);
    assert((seq!['+'] + radix_text(n, radix)).drop_first() =~= radix_text(n, radix));
    if 0 <= i < s.len() && digit_value(s[i], radix) is None {
        lemma_no_digit(s, radix, i);
    }
}

/// A text with something that is no digit writes no number.
proof fn lemma_no_digit(s: Seq<char>, radix: nat, i: int)
    requires
        0 <= i < s.len(),
        digit_value(s[i], radix) is None,
    ensures
        digits_value(s, radix) is None,
    decreases s.len(),
{
    if i < s.len() - 1 {
        assert(s.drop_last()[i] == s[i]);
        lemma_no_digit(s.drop_last(), radix, i);
    }
}

/// The digits of a radix are those from 0 on, and the letters from a on, in capitals or not.
pub proof fn law_digits_have_their_values(c: char, radix: nat)
    requires
        2 <= radix <= 16,
    ensures
        '0' <= c && c <= '9' ==> digit_value(c, 16) == Some((c as int - '0' as int) as nat),
        'a' <= c && c <= 'f' ==> digit_value(c, 16) == Some((c as int - 'a' as int + 10) as nat),
        'A' <= c && c <= 'F' ==> digit_value(c, 16) == Some((c as int - 'A' as int + 10) as nat),
        !('0' <= c && c <= '9') ==> digit_value(c, 10) is None,
        digit_value(c, radix) matches Some(d) ==> d < radix && digit_value(c, 16) == Some(d),
{
}

} // verus!
