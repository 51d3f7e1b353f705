//! Numbers as the kernel writes them: unsigned integers in base ten and
//! sixteen, and the text of floating-point literals.

use crate::text::{run_len, scan, CharClass};
use vstd::prelude::*;

verus! {

/// The base in which an unsigned integer is written.
#[derive(Clone, Copy, PartialEq, Eq, Structural, Debug)]
pub enum Radix {
    /// Base ten, with the digits `0` to `9`.
    Decimal,
    /// Base sixteen, with the digits `0` to `9`, `a` to `f` and `A` to `F`.
    Hex,
}

/// The value of `c` as a digit of `radix`, if it is one.
pub open spec fn digit_of(c: char, radix: Radix) -> Option<nat> {
    if '0' <= c <= '9' {
        Some((c as u32 - '0' as u32) as nat)
    } else if radix == Radix::Hex && 'a' <= c <= 'f' {
        Some((c as u32 - 'a' as u32 + 10) as nat)
    } else if radix == Radix::Hex && 'A' <= c <= 'F' {
        Some((c as u32 - 'A' as u32 + 10) as nat)
    } else {
        None
    }
}

/// Whether every character of `s` is a digit of `radix`.
pub open spec fn all_digits(s: Seq<char>, radix: Radix) -> bool {
    forall|i: int| 0 <= i < s.len() ==> (#[trigger] digit_of(s[i], radix)).is_some()
}

/// The number that the digits `s` write in `radix`, the first digit counting
/// most. A character that is no digit counts as zero.
pub open spec fn digits_value(s: Seq<char>, radix: Radix) -> nat
    decreases s.len(),
{
    if s.len() == 0 {
        0
    } else {
        let d = match digit_of(s.last(), radix) {
            Some(d) => d,
            None => 0,
        };
        match radix {
            Radix::Decimal => 10 * digits_value(s.drop_last(), radix) + d,
            Radix::Hex => 16 * digits_value(s.drop_last(), radix) + d,
        }
    }
}

/// `s` without the plus sign that may stand at its start.
pub open spec fn unsigned_body(s: Seq<char>) -> Seq<char> {
    if s.len() > 0 && s[0] == '+' {
        s.skip(1)
    } else {
        s
    }
}

/// The unsigned integer that `s` writes in `radix`: an optional plus sign,
/// then one digit or more and nothing else. There is none where the number is
/// above `max`.
pub open spec fn unsigned(s: Seq<char>, radix: Radix, max: nat) -> Option<nat> {
    let body = unsigned_body(s);
    if body.len() > 0 && all_digits(body, radix) && digits_value(body, radix) <= max {
        Some(digits_value(body, radix))
    } else {
        None
    }
}

/// More digits never write a smaller number.
pub proof fn lemma_digits_value_grows(s: Seq<char>, radix: Radix, n: int)
    requires
        0 <= n <= s.len(),
    ensures
        digits_value(s.take(n), radix) <= digits_value(s, radix),
    decreases s.len() - n,
{
    if n == s.len() {
        assert(s.take(n) =~= s);
    } else {
        lemma_digits_value_grows(s.drop_last(), radix, n);
        assert(s.drop_last().take(n) =~= s.take(n));
    }
}

/// Reads `c` as a digit of `radix`.
pub fn digit(c: char, radix: Radix) -> (r: Option<u8>)
    ensures
        match r {
            Some(d) => digit_of(c, radix) == Some(d as nat) && d < 16,
            None => digit_of(c, radix).is_none(),
        },
{
    let n: u32 = c as u32;
    if '0' <= c && c <= '9' {
        Some((n - '0' as u32) as u8)
    } else if radix == Radix::Hex && 'a' <= c && c <= 'f' {
        Some((n - 'a' as u32 + 10) as u8)
    } else if radix == Radix::Hex && 'A' <= c && c <= 'F' {
        Some((n - 'A' as u32 + 10) as u8)
    } else {
        None
    }
}

/// Reads the unsigned integer that `s` writes in `radix`, up to `max`.
pub fn parse_unsigned(s: &[char], radix: Radix, max: u64) -> (r: Option<u64>)
    ensures
        match r {
            Some(v) => unsigned(s@, radix, max as nat) == Some(v as nat),
            None => unsigned(s@, radix, max as nat).is_none(),
        },
{
    let start: usize = if s.len() > 0 && s[0] == '+' {
        1
    } else {
        0
    };
    let ghost body = unsigned_body(s@);
    assert(body =~= s@.skip(start as int));
    if start == s.len() {
        return None;
    }
    let mut acc: u64 = 0;
    let mut i: usize = start;
    while i < s.len()
        invariant
            start <= i <= s@.len(),
            body == s@.skip(start as int),
            body == unsigned_body(s@),
            acc <= max,
            acc == digits_value(body.take(i - start), radix),
            forall|j: int| 0 <= j < i - start ==> (#[trigger] digit_of(body[j], radix)).is_some(),
        decreases s@.len() - i,
    {
        let ghost k = (i - start) as int;
        assert(body[k] == s@[i as int]);
        assert(body.take(k + 1).drop_last() =~= body.take(k));
        assert(body.take(k + 1).last() == body[k]);
        match digit(s[i], radix) {
            None => {
                assert(digit_of(body[k], radix).is_none());
                return None;
            },
            Some(d) => {
                let wide: u128 = match radix {
                    Radix::Decimal => 10 * (acc as u128) + d as u128,
                    Radix::Hex => 16 * (acc as u128) + d as u128,
                };
                assert(wide == digits_value(body.take(k + 1), radix));
                if wide > max as u128 {
                    proof {
                        lemma_digits_value_grows(body, radix, k + 1);
                    }
                    return None;
                }
                acc = wide as u64;
            },
        }
        i += 1;
    }
    assert(body.take(body.len() as int) =~= body);
    Some(acc)
}

/// Reads a decimal integer of 64 bits.
pub fn parse_u64(s: &[char]) -> (r: Option<u64>)
    ensures
        match r {
            Some(v) => unsigned(s@, Radix::Decimal, u64::MAX as nat) == Some(v as nat),
            None => unsigned(s@, Radix::Decimal, u64::MAX as nat).is_none(),
        },
{
    parse_unsigned(s, Radix::Decimal, u64::MAX)
}

/// The character that writes the decimal digit `d`.
pub open spec fn digit_char(d: nat) -> char {
    ((48 + d) as u8) as char
}

/// `n` written in base ten, without a sign and without leading zeros.
pub open spec fn decimal_text(n: nat) -> Seq<char>
    decreases n,
{
    if n < 10 {
        seq![digit_char(n)]
    } else {
        decimal_text(n / 10).push(digit_char(n % 10))
    }
}

/// Puts `n`, written in base ten, at the end of `out`.
fn push_decimal(n: u64, out: &mut Vec<char>)
    ensures
        final(out)@ == old(out)@ + decimal_text(n as nat),
    decreases n,
{
    if n >= 10 {
        push_decimal(n / 10, out);
    }
    let d: u8 = (n % 10) as u8;
    out.push((48 + d) as char);
    proof {
        if n >= 10 {
            assert(final(out)@ =~= old(out)@ + decimal_text(n as nat));
        } else {
            assert(final(out)@ =~= old(out)@ + decimal_text(n as nat));
        }
    }
}

/// Writes `n` in base ten.
pub fn decimal_of(n: u64) -> (out: Vec<char>)
    ensures
        out@ == decimal_text(n as nat),
{
    let mut out: Vec<char> = Vec::new();
    push_decimal(n, &mut out);
    assert(out@ =~= decimal_text(n as nat));
    out
}

/// `c`, in lower case where it is an upper-case letter of ASCII.
pub open spec fn lower(c: char) -> char {
    if 'A' <= c <= 'Z' {
        ((c as u32 + 32) as u8) as char
    } else {
        c
    }
}

/// Whether `s` spells `word` when upper and lower case count as the same.
/// `word` is in lower case.
pub open spec fn spells(s: Seq<char>, word: Seq<char>) -> bool {
    s.len() == word.len() && forall|i: int| 0 <= i < s.len() ==> lower(#[trigger] s[i]) == word[i]
}

/// `s` without the plus or minus sign that may stand at its start.
pub open spec fn without_sign(s: Seq<char>) -> Seq<char> {
    if s.len() > 0 && (s[0] == '+' || s[0] == '-') {
        s.skip(1)
    } else {
        s
    }
}

/// Whether `s` is an exponent: `e` or `E`, an optional sign, then one digit
/// or more.
pub open spec fn is_exponent(s: Seq<char>) -> bool {
    s.len() > 0 && (s[0] == 'e' || s[0] == 'E') && {
        let d = without_sign(s.skip(1));
        d.len() > 0 && run_len(d, CharClass::Digit) == d.len()
    }
}

/// Whether `s` is a number in decimal notation: digits with at most one
/// point among them, at least one digit in all, and an optional exponent.
pub open spec fn is_decimal_number(s: Seq<char>) -> bool {
    let whole = run_len(s, CharClass::Digit);
    let t = s.skip(whole as int);
    let point = t.len() > 0 && t[0] == '.';
    let u = if point {
        t.skip(1)
    } else {
        t
    };
    let fraction = if point {
        run_len(u, CharClass::Digit)
    } else {
        0
    };
    let e = u.skip(fraction as int);
    whole + fraction > 0 && (e.len() == 0 || is_exponent(e))
}

/// Whether `s` is the text of a floating-point literal: an optional sign,
/// then `inf`, `infinity` or `nan` in any case, or a number in decimal
/// notation.
pub open spec fn is_float_literal(s: Seq<char>) -> bool {
    let body = without_sign(s);
    ||| spells(body, seq!['i', 'n', 'f'])
    ||| spells(body, seq!['i', 'n', 'f', 'i', 'n', 'i', 't', 'y'])
    ||| spells(body, seq!['n', 'a', 'n'])
    ||| is_decimal_number(body)
}

/// `c` in lower case.
fn to_lower(c: char) -> (r: char)
    ensures
        r == lower(c),
{
    if 'A' <= c && c <= 'Z' {
        ((c as u32 + 32) as u8) as char
    } else {
        c
    }
}

/// Tests whether what `s` holds from `from` on spells `word`.
fn spells_from(s: &[char], from: usize, word: &[char]) -> (r: bool)
    requires
        from <= s@.len(),
    ensures
        r == spells(s@.skip(from as int), word@),
{
    let ghost t = s@.skip(from as int);
    if s.len() - from != word.len() {
        return false;
    }
    let mut i: usize = 0;
    while i < word.len()
        invariant
            i <= word@.len(),
            from + word@.len() == s@.len(),
            s@.len() <= usize::MAX,
            t == s@.skip(from as int),
            forall|j: int| 0 <= j < i ==> lower(#[trigger] t[j]) == word@[j],
        decreases word@.len() - i,
    {
        assert(t[i as int] == s@[from + i]);
        if to_lower(s[from + i]) != word[i] {
            return false;
        }
        i += 1;
    }
    true
}

/// Where the text of `s` starts once a sign at `from` is passed over.
fn after_sign(s: &[char], from: usize) -> (to: usize)
    requires
        from <= s@.len(),
    ensures
        from <= to <= s@.len(),
        s@.skip(to as int) == without_sign(s@.skip(from as int)),
{
    if from < s.len() && (s[from] == '+' || s[from] == '-') {
        assert(s@.skip(from as int).skip(1) =~= s@.skip(from + 1));
        from + 1
    } else {
        from
    }
}

/// Tests whether what `s` holds from `from` on is an exponent.
fn exponent_from(s: &[char], from: usize) -> (r: bool)
    requires
        from <= s@.len(),
    ensures
        r == is_exponent(s@.skip(from as int)),
{
    let ghost e = s@.skip(from as int);
    if from == s.len() {
        return false;
    }
    assert(e[0] == s@[from as int]);
    if s[from] != 'e' && s[from] != 'E' {
        return false;
    }
    assert(e.skip(1) =~= s@.skip(from + 1));
    let digits_start = after_sign(s, from + 1);
    let digits_end = scan(s, digits_start, CharClass::Digit);
    digits_start < s.len() && digits_end == s.len()
}

/// Tests whether what `s` holds from `from` on is a number in decimal
/// notation.
fn decimal_number_from(s: &[char], from: usize) -> (r: bool)
    requires
        from <= s@.len(),
    ensures
        r == is_decimal_number(s@.skip(from as int)),
{
    let ghost body = s@.skip(from as int);
    let whole_end = scan(s, from, CharClass::Digit);
    let ghost t = s@.skip(whole_end as int);
    assert(body.skip(whole_end - from) =~= t);
    let point = whole_end < s.len() && s[whole_end] == '.';
    assert(whole_end < s@.len() ==> t[0] == s@[whole_end as int]);
    let fraction_start = if point {
        whole_end + 1
    } else {
        whole_end
    };
    let ghost u = s@.skip(fraction_start as int);
    assert(point ==> t.skip(1) =~= u);
    let fraction_end = if point {
        scan(s, fraction_start, CharClass::Digit)
    } else {
        fraction_start
    };
    assert(u.skip(fraction_end - fraction_start) =~= s@.skip(fraction_end as int));
    if whole_end - from + (fraction_end - fraction_start) == 0 {
        return false;
    }
    if fraction_end == s.len() {
        return true;
    }
    exponent_from(s, fraction_end)
}

/// Tests whether `s` is the text of a floating-point literal.
pub fn float_literal(s: &[char]) -> (r: bool)
    ensures
        r == is_float_literal(s@),
{
    assert(s@.skip(0) =~= s@);
    let start = after_sign(s, 0);
    let inf = ['i', 'n', 'f'];
    let infinity = ['i', 'n', 'f', 'i', 'n', 'i', 't', 'y'];
    let nan = ['n', 'a', 'n'];
    assert(inf@ =~= seq!['i', 'n', 'f']);
    assert(infinity@ =~= seq!['i', 'n', 'f', 'i', 'n', 'i', 't', 'y']);
    assert(nan@ =~= seq!['n', 'a', 'n']);
    spells_from(s, start, inf.as_slice()) || spells_from(s, start, infinity.as_slice())
        || spells_from(s, start, nan.as_slice()) || decimal_number_from(s, start)
}

} // verus!
