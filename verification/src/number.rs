//! Numerals: rendering integers in a radix (`.`, `.S`, messages) and
//! reading them back (`i32::from_str_radix`, used for literals).
use vstd::prelude::*;

verus! {

/// The character for digit `d` (upper-case letters past 9).
pub open spec fn digit_char(d: nat) -> char {
    if d < 10 {
        ((48 + d) as u8) as char
    } else {
        ((55 + d) as u8) as char
    }
}

/// Digits of `n` in `base`, most significant first, without leading zeros
/// (`0` is a single `'0'`).
pub open spec fn digits(n: nat, base: nat) -> Seq<char>
    decreases n,
{
    if n < base || base < 2 {
        seq![digit_char(n)]
    } else {
        proof {
            assert(n / base < n) by (nonlinear_arith)
                requires
                    base >= 2,
                    n >= base,
            ;
        }
        digits(n / base, base).push(digit_char(n % base))
    }
}

/// `n` in `base`, with a leading `-` when negative.
pub open spec fn int_text(n: int, base: nat) -> Seq<char> {
    if n < 0 {
        seq!['-'] + digits((-n) as nat, base)
    } else {
        digits(n as nat, base)
    }
}

/// Decimal text of an integer (`to_string` on any integer type).
pub open spec fn dec(n: int) -> Seq<char> {
    int_text(n, 10)
}

/// The rendering that `.` and `.S` use: the radix when it lies in
/// 2..=36, decimal otherwise.
pub open spec fn format_int(n: i32, base: u32) -> Seq<char> {
    if 2 <= base <= 36 {
        int_text(n as int, base as nat)
    } else {
        dec(n as int)
    }
}

fn digit_to_char(d: u128) -> (c: char)
    requires
        d < 36,
    ensures
        c == digit_char(d as nat),
{
    let b: u8 = d as u8;
    if b < 10 {
        (48 + b) as char
    } else {
        (55 + b) as char
    }
}

/// Digits of a natural number in a radix.
pub fn fmt_nat(n: u128, base: u128) -> (r: Vec<char>)
    requires
        2 <= base <= 36,
    ensures
        r@ == digits(n as nat, base as nat),
{
    let mut acc: Vec<char> = Vec::new();
    let mut x: u128 = n;
    while x >= base
        invariant
            2 <= base <= 36,
            digits(n as nat, base as nat) == digits(x as nat, base as nat) + acc@,
        decreases x,
    {
        let d = digit_to_char(x % base);
        proof {
            assert(digits(x as nat, base as nat) == digits((x / base) as nat, base as nat).push(
                digit_char((x % base) as nat),
            ));
            assert(digits(x as nat, base as nat) + acc@ =~= digits((x / base) as nat, base as nat)
                + acc@.insert(0, d));
        }
        acc.insert(0, d);
        x = x / base;
    }
    let d = digit_to_char(x);
    proof {
        assert(digits(x as nat, base as nat) + acc@ =~= acc@.insert(0, d));
    }
    acc.insert(0, d);
    acc
}

/// Renders `n` in `base` as `.` does.
pub fn fmt_int(n: i32, base: u32) -> (r: Vec<char>)
    ensures
        r@ == format_int(n, base),
{
    let b: u128 = if 2 <= base && base <= 36 {
        base as u128
    } else {
        10
    };
    if n < 0 {
        let mag: u128 = (-(n as i128)) as u128;
        let mut r: Vec<char> = Vec::new();
        r.push('-');
        let ds = fmt_nat(mag, b);
        crate::text::append(&mut r, &ds);
        assert(r@ =~= seq!['-'] + ds@);
        r
    } else {
        fmt_nat(n as u128, b)
    }
}

/// Decimal rendering of an `i32`.
pub fn fmt_i32(n: i32) -> (r: Vec<char>)
    ensures
        r@ == dec(n as int),
{
    fmt_int(n, 10)
}

/// Decimal rendering of a natural number.
pub fn fmt_count(n: u128) -> (r: Vec<char>)
    ensures
        r@ == dec(n as int),
{
    fmt_nat(n, 10)
}

/// `char::to_digit(36)`: the digit's value, or 36 for a character that is
/// no digit.
pub open spec fn digit_value(c: char) -> nat {
    if '0' <= c && c <= '9' {
        (c as u32 - 48) as nat
    } else if 'a' <= c && c <= 'z' {
        (c as u32 - 87) as nat
    } else if 'A' <= c && c <= 'Z' {
        (c as u32 - 55) as nat
    } else {
        36
    }
}

fn digit_value_of(c: char) -> (d: u64)
    ensures
        d == digit_value(c),
{
    if '0' <= c && c <= '9' {
        (c as u32 - 48) as u64
    } else if 'a' <= c && c <= 'z' {
        (c as u32 - 87) as u64
    } else if 'A' <= c && c <= 'Z' {
        (c as u32 - 55) as u64
    } else {
        36
    }
}

/// Every character is a digit below `base`.
pub open spec fn digits_valid(s: Seq<char>, base: nat) -> bool {
    forall|i: int| 0 <= i < s.len() ==> digit_value(#[trigger] s[i]) < base
}

/// The value of a digit string in `base`.
pub open spec fn digits_val(s: Seq<char>, base: nat) -> nat
    decreases s.len(),
{
    if s.len() == 0 {
        0
    } else {
        digits_val(s.drop_last(), base) * base + digit_value(s.last())
    }
}

/// `i32::from_str_radix(t, base)`: an optional sign, then at least one
/// digit below `base`, and a value that fits in `i32`.
pub open spec fn parse_int(t: Seq<char>, base: nat) -> Option<i32> {
    if t.len() == 0 {
        None
    } else {
        let body = if t[0] == '-' || t[0] == '+' {
            t.drop_first()
        } else {
            t
        };
        let v: int = if t[0] == '-' {
            -digits_val(body, base)
        } else {
            digits_val(body, base) as int
        };
        if body.len() == 0 || !digits_valid(body, base) {
            None
        } else if i32::MIN <= v <= i32::MAX {
            Some(v as i32)
        } else {
            None
        }
    }
}

proof fn lemma_digits_val_mono(s: Seq<char>, base: nat, i: int)
    requires
        0 <= i <= s.len(),
        base >= 1,
    ensures
        digits_val(s.take(i), base) <= digits_val(s, base),
    decreases s.len(),
{
    if i < s.len() {
        let t = s.drop_last();
        assert(t.take(i) =~= s.take(i));
        lemma_digits_val_mono(t, base, i);
        let v = digits_val(t, base);
        assert(v * base >= v) by (nonlinear_arith)
            requires
                base >= 1,
        ;
    } else {
        assert(s.take(i) =~= s);
    }
}

/// Reads an integer literal as `i32::from_str_radix` does.
pub fn parse_i32(t: &Vec<char>, base: u32) -> (r: Option<i32>)
    requires
        2 <= base <= 36,
    ensures
        r == parse_int(t@, base as nat),
{
    if t.len() == 0 {
        return None;
    }
    let neg = t[0] == '-';
    let start: usize = if t[0] == '-' || t[0] == '+' {
        1
    } else {
        0
    };
    let ghost body = if t@[0] == '-' || t@[0] == '+' {
        t@.drop_first()
    } else {
        t@
    };
    assert(body =~= t@.subrange(start as int, t@.len() as int));
    if start == t.len() {
        return None;
    }
    let b: u64 = base as u64;
    let mut acc: u64 = 0;
    let mut k: usize = start;
    while k < t.len()
        invariant
            start <= k <= t.len(),
            b == base,
            2 <= base <= 36,
            body == t@.subrange(start as int, t@.len() as int),
            t@.len() > 0,
            body == (if t@[0] == '-' || t@[0] == '+' {
                t@.drop_first()
            } else {
                t@
            }),
            acc == digits_val(body.take(k - start), base as nat),
            acc <= 0x8000_0000,
            digits_valid(body.take(k - start), base as nat),
        decreases t.len() - k,
    {
        let d = digit_value_of(t[k]);
        if d >= b {
            assert(body[k - start] == t@[k as int]);
            assert(!digits_valid(body, base as nat));
            assert(parse_int(t@, base as nat) is None);
            return None;
        }
        proof {
            assert(body.take(k - start + 1).drop_last() =~= body.take(k - start));
            assert(acc * b <= 0x8000_0000 * 36) by (nonlinear_arith)
                requires
                    acc <= 0x8000_0000,
                    b <= 36,
            ;
        }
        acc = acc * b + d;
        k += 1;
        proof {
            assert forall|i: int| 0 <= i < body.take(k - start).len() implies digit_value(
                #[trigger] body.take(k - start)[i],
            ) < base by {
                if i < k - 1 - start {
                    assert(body.take(k - start)[i] == body.take(k - 1 - start)[i]);
                }
            }
        }
        if acc > 0x8000_0000 {
            proof {
                if digits_valid(body, base as nat) {
                    lemma_digits_val_mono(body, base as nat, k - start);
                    assert(digits_val(body, base as nat) > 0x8000_0000);
                }
                assert(parse_int(t@, base as nat) is None);
            }
            return None;
        }
    }
    assert(body.take(k - start) =~= body);
    if neg {
        let v: i64 = -(acc as i64);
        Some(v as i32)
    } else {
        if acc > 0x7fff_ffff {
            None
        } else {
            Some(acc as i32)
        }
    }
}


pub proof fn lemma_digit_roundtrip(d: nat)
    requires
        d < 36,
    ensures
        digit_value(digit_char(d)) == d,
{
    if d < 10 {
        let c = ((48 + d) as u8) as char;
        assert(c as u32 == 48 + d);
    } else {
        let c = ((55 + d) as u8) as char;
        assert(c as u32 == 55 + d);
    }
}

proof fn lemma_digits_roundtrip(n: nat, base: nat)
    requires
        2 <= base <= 36,
    ensures
        digits_valid(digits(n, base), base),
        digits_val(digits(n, base), base) == n,
        digits(n, base).len() > 0,
        digit_value(digits(n, base)[0]) < 36,
    decreases n,
{
    if n < base {
        lemma_digit_roundtrip(n);
        assert(digits(n, base).drop_last() =~= Seq::<char>::empty());
        assert(digits_val(Seq::<char>::empty(), base) == 0);
        assert(0 * base == 0);
    } else {
        assert(n / base < n) by (nonlinear_arith)
            requires
                base >= 2,
                n >= base,
        ;
        lemma_digits_roundtrip(n / base, base);
        lemma_digit_roundtrip(n % base);
        let s = digits(n, base);
        assert(s.drop_last() =~= digits(n / base, base));
        assert(s.last() == digit_char(n % base));
        assert(digits_val(s, base) == digits_val(digits(n / base, base), base) * base + digit_value(
            digit_char(n % base),
        ));
        assert((n / base) * base + n % base == n) by (nonlinear_arith)
            requires
                base >= 2,
        ;
        assert forall|i: int| 0 <= i < s.len() implies digit_value(#[trigger] s[i]) < base by {
            if i < s.len() - 1 {
                assert(s[i] == digits(n / base, base)[i]);
            }
        }
    }
}

/// A digit character of the rendering: `0`-`9` or an upper-case letter.
pub open spec fn is_upper_digit(c: char) -> bool {
    ('0' <= c && c <= '9') || ('A' <= c && c <= 'Z')
}

/// The digits of `n` are upper-case digit characters below the radix,
/// with no leading zero unless `n` is zero.
pub proof fn lemma_digits_shape(n: nat, base: nat)
    requires
        2 <= base <= 36,
    ensures
        digits(n, base).len() > 0,
        forall|i: int|
            0 <= i < digits(n, base).len() ==> is_upper_digit(#[trigger] digits(n, base)[i])
                && digit_value(digits(n, base)[i]) < base,
        digits(n, base)[0] == '0' ==> n == 0 && digits(n, base) == seq!['0'],
    decreases n,
{
    lemma_digits_roundtrip(n, base);
    if n < base {
        if n < 10 {
            let c = ((48 + n) as u8) as char;
            assert(c as u32 == 48 + n);
        } else {
            let c = ((55 + n) as u8) as char;
            assert(c as u32 == 55 + n);
        }
        if n > 0 {
            assert(digits(n, base)[0] as u32 != 48);
        }
        assert(digits(n, base) =~= seq![digit_char(n)]);
    } else {
        assert(1 <= n / base < n) by (nonlinear_arith)
            requires
                base >= 2,
                n >= base,
        ;
        assert(n % base < base) by (nonlinear_arith)
            requires
                base >= 2,
        ;
        lemma_digits_shape(n / base, base);
        let d = n % base;
        if d < 10 {
            let c = ((48 + d) as u8) as char;
            assert(c as u32 == 48 + d);
        } else {
            let c = ((55 + d) as u8) as char;
            assert(c as u32 == 55 + d);
        }
        let s = digits(n, base);
        assert forall|i: int| 0 <= i < s.len() implies is_upper_digit(#[trigger] s[i]) by {
            if i < s.len() - 1 {
                assert(s[i] == digits(n / base, base)[i]);
            }
        }
        assert(s[0] == digits(n / base, base)[0]);
    }
}

/// What `fmt_int` renders in a radix reads back as the same number.
pub proof fn lemma_int_text_roundtrip(n: i32, base: nat)
    requires
        2 <= base <= 36,
    ensures
        parse_int(int_text(n as int, base), base) == Some(n),
{
    let t = int_text(n as int, base);
    if n < 0 {
        let mag = (-n) as nat;
        lemma_digits_roundtrip(mag, base);
        assert(t.drop_first() =~= digits(mag, base));
    } else {
        lemma_digits_roundtrip(n as nat, base);
        let c = t[0];
        assert(digit_value(c) < 36);
        assert(c != '-' && c != '+');
    }
}

} // verus!
