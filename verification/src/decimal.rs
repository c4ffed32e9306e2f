//! Decimal integers in text: parsing with the rules of Rust's `FromStr` for
//! integers, and zero-padded formatting as `format!("{:0w}")` writes it.
use vstd::prelude::*;

verus! {

// ---- Parsing ---------------------------------------------------------------------

/// An ASCII decimal digit.
pub open spec fn is_digit(c: char) -> bool {
    '0' <= c <= '9'
}

/// Value of an ASCII digit.
pub open spec fn digit_value(c: char) -> int {
    c as int - 48
}

/// `s` consists of ASCII digits only.
pub open spec fn all_digits(s: Seq<char>) -> bool {
    forall|i: int| 0 <= i < s.len() ==> is_digit(#[trigger] s[i])
}

/// The number written by the digits `s` (most significant first).
pub open spec fn digits_value(s: Seq<char>) -> int
    decreases s.len(),
{
    if s.len() == 0 {
        0
    } else {
        10 * digits_value(s.drop_last()) + digit_value(s.last())
    }
}

/// The value an unsigned integer type reads from `s`, before its range
/// check: an optional `+`, then one or more ASCII digits.
pub open spec fn unsigned_text_value(s: Seq<char>) -> Option<int> {
    let body = if s.len() > 0 && s[0] == '+' { s.drop_first() } else { s };
    if body.len() > 0 && all_digits(body) {
        Some(digits_value(body))
    } else {
        None
    }
}

/// Text that an unsigned integer type reads holds only digits and `+`.
pub proof fn lemma_unsigned_text_chars(s: Seq<char>, i: int)
    requires
        unsigned_text_value(s) is Some,
        0 <= i < s.len(),
    ensures
        is_digit(s[i]) || s[i] == '+',
{
    if s[0] == '+' && i > 0 {
        assert(s[i] == s.drop_first()[i - 1]);
    }
}

/// The value a signed integer type reads from `s`, before its range check:
/// `-` and digits, or what an unsigned type reads.
pub open spec fn signed_text_value(s: Seq<char>) -> Option<int> {
    if s.len() > 0 && s[0] == '-' {
        let body = s.drop_first();
        if body.len() > 0 && all_digits(body) {
            Some(-digits_value(body))
        } else {
            None
        }
    } else {
        unsigned_text_value(s)
    }
}

/// `s.parse::<u32>()`, as an option.
pub open spec fn parse_u32_spec(s: Seq<char>) -> Option<u32> {
    match unsigned_text_value(s) {
        Some(v) => if v <= u32::MAX { Some(v as u32) } else { None },
        None => None,
    }
}

/// `s.parse::<u64>()`, as an option.
pub open spec fn parse_u64_spec(s: Seq<char>) -> Option<u64> {
    match unsigned_text_value(s) {
        Some(v) => if v <= u64::MAX { Some(v as u64) } else { None },
        None => None,
    }
}

/// `s.parse::<i64>()`, as an option.
pub open spec fn parse_i64_spec(s: Seq<char>) -> Option<i64> {
    match signed_text_value(s) {
        Some(v) => if i64::MIN <= v <= i64::MAX { Some(v as i64) } else { None },
        None => None,
    }
}

proof fn lemma_digits_value_nonneg(s: Seq<char>)
    requires
        all_digits(s),
    ensures
        digits_value(s) >= 0,
    decreases s.len(),
{
    if s.len() > 0 {
        lemma_digits_value_nonneg(s.drop_last());
    }
}

/// A run of digits is worth at least any of its prefixes.
proof fn lemma_digits_value_prefix(s: Seq<char>, k: int)
    requires
        all_digits(s),
        0 <= k <= s.len(),
    ensures
        digits_value(s.take(k)) <= digits_value(s),
    decreases s.len(),
{
    if k < s.len() {
        let t = s.drop_last();
        lemma_digits_value_prefix(t, k);
        lemma_digits_value_nonneg(t);
        assert(t.take(k) == s.take(k));
    } else {
        assert(s.take(k) == s);
    }
}

/// The value of the digits `v[start..]` when all of them are digits and the
/// value is at most `cap`.
fn parse_digits_capped(v: &Vec<char>, start: usize, cap: u64) -> (r: Option<u64>)
    requires
        start <= v.len(),
    ensures
        ({
            let body = v@.subrange(start as int, v.len() as int);
            r == if body.len() > 0 && all_digits(body) && digits_value(body) <= cap {
                Some(digits_value(body) as u64)
            } else {
                None::<u64>
            }
        }),
        r matches Some(x) ==> x <= cap && x as int == digits_value(
            v@.subrange(start as int, v.len() as int),
        ),
{
    let ghost body = v@.subrange(start as int, v.len() as int);
    if start == v.len() {
        return None;
    }
    let mut acc: u64 = 0;
    let mut i: usize = start;
    while i < v.len()
        invariant
            start <= i <= v.len(),
            body == v@.subrange(start as int, v.len() as int),
            all_digits(v@.subrange(start as int, i as int)),
            acc as int == digits_value(v@.subrange(start as int, i as int)),
            acc <= cap,
        decreases v.len() - i,
    {
        let c = v[i];
        if !('0' <= c && c <= '9') {
            assert(body[i - start] == c);
            return None;
        }
        let d = (c as u32 - '0' as u32) as u64;
        let next: u128 = acc as u128 * 10 + d as u128;
        let ghost pre = v@.subrange(start as int, i as int);
        let ghost pre1 = v@.subrange(start as int, i + 1);
        assert(pre1.drop_last() == pre);
        assert(all_digits(pre1));
        if next > cap as u128 {
            proof {
                if all_digits(body) {
                    assert(body.take(i + 1 - start) == pre1);
                    lemma_digits_value_prefix(body, i + 1 - start);
                }
            }
            return None;
        }
        acc = next as u64;
        i = i + 1;
    }
    Some(acc)
}

/// `s.parse::<u32>().ok()`.
pub fn parse_u32(s: &Vec<char>) -> (r: Option<u32>)
    ensures
        r == parse_u32_spec(s@),
{
    let start: usize = if s.len() > 0 && s[0] == '+' { 1 } else { 0 };
    assert(s@.subrange(start as int, s.len() as int) == if s@.len() > 0 && s@[0] == '+' {
        s@.drop_first()
    } else {
        s@
    });
    match parse_digits_capped(s, start, 0xffff_ffff) {
        Some(v) => Some(v as u32),
        None => None,
    }
}

/// `s.parse::<u64>().ok()`.
pub fn parse_u64(s: &Vec<char>) -> (r: Option<u64>)
    ensures
        r == parse_u64_spec(s@),
{
    let start: usize = if s.len() > 0 && s[0] == '+' { 1 } else { 0 };
    assert(s@.subrange(start as int, s.len() as int) == if s@.len() > 0 && s@[0] == '+' {
        s@.drop_first()
    } else {
        s@
    });
    parse_digits_capped(s, start, 0xffff_ffff_ffff_ffff)
}

/// `s.parse::<i64>().ok()`.
pub fn parse_i64(s: &Vec<char>) -> (r: Option<i64>)
    ensures
        r == parse_i64_spec(s@),
{
    if s.len() > 0 && s[0] == '-' {
        assert(s@.subrange(1, s.len() as int) == s@.drop_first());
        match parse_digits_capped(s, 1, 0x8000_0000_0000_0000) {
            Some(v) => {
                if v == 0x8000_0000_0000_0000 {
                    Some(i64::MIN)
                } else {
                    Some(-(v as i64))
                }
            },
            None => {
                proof {
                    let body = s@.drop_first();
                    if body.len() > 0 && all_digits(body) {
                        assert(digits_value(body) > 0x8000_0000_0000_0000);
                    }
                }
                None
            },
        }
    } else {
        let start: usize = if s.len() > 0 && s[0] == '+' { 1 } else { 0 };
        assert(s@.subrange(start as int, s.len() as int) == if s@.len() > 0 && s@[0] == '+' {
            s@.drop_first()
        } else {
            s@
        });
        match parse_digits_capped(s, start, 0x7fff_ffff_ffff_ffff) {
            Some(v) => Some(v as i64),
            None => None,
        }
    }
}

// ---- Formatting ------------------------------------------------------------------

/// The ASCII digit for `d` in `0..10`.
pub open spec fn digit_char(d: int) -> char {
    (d + 48) as char
}

/// Decimal digits of `n` without leading zeros (`"0"` for zero).
pub open spec fn decimal(n: nat) -> Seq<char>
    decreases n,
{
    if n < 10 {
        seq![digit_char(n as int)]
    } else {
        decimal(n / 10).push(digit_char((n % 10) as int))
    }
}

/// `s` preceded by zeros up to `width` characters.
pub open spec fn zero_pad(s: Seq<char>, width: nat) -> Seq<char> {
    if s.len() >= width {
        s
    } else {
        Seq::new((width - s.len()) as nat, |i: int| '0') + s
    }
}

/// `n` written as `format!("{:0width$}", n)` writes it: a minus sign for a
/// negative number, then digits padded with zeros so that the whole is at
/// least `width` characters.
pub open spec fn padded_decimal(n: int, width: nat) -> Seq<char> {
    if n < 0 {
        seq!['-'] + zero_pad(decimal((-n) as nat), if width >= 1 { (width - 1) as nat } else { 0 })
    } else {
        zero_pad(decimal(n as nat), width)
    }
}

/// The decimal digits of `n`.
pub fn decimal_chars(n: u64) -> (r: Vec<char>)
    ensures
        r@ == decimal(n as nat),
{
    let mut acc: Vec<char> = Vec::new();
    let mut x: u64 = n;
    loop
        invariant
            decimal(n as nat) == decimal(x as nat) + acc@,
        decreases x,
    {
        let d = (x % 10) as u8;
        let c = (d + 48u8) as char;
        let ghost old_acc = acc@;
        acc.insert(0, c);
        assert(acc@ == seq![c] + old_acc);
        if x < 10 {
            assert(decimal(x as nat) == seq![c]);
            assert(decimal(n as nat) == acc@);
            return acc;
        }
        assert(decimal(x as nat) == decimal((x / 10) as nat).push(c));
        assert(decimal((x / 10) as nat).push(c) + old_acc == decimal((x / 10) as nat) + acc@);
        x = x / 10;
    }
}

/// `s` preceded by zeros up to `width` characters.
pub fn pad_zeros(s: Vec<char>, width: usize) -> (r: Vec<char>)
    ensures
        r@ == zero_pad(s@, width as nat),
{
    if s.len() >= width {
        return s;
    }
    let fill = width - s.len();
    let mut out: Vec<char> = Vec::new();
    while out.len() < fill
        invariant
            out.len() <= fill,
            forall|k: int| 0 <= k < out.len() ==> out@[k] == '0',
        decreases fill - out.len(),
    {
        out.push('0');
    }
    let ghost zeros = out@;
    let mut k: usize = 0;
    while k < s.len()
        invariant
            k <= s.len(),
            zeros.len() == fill,
            out@ == zeros + s@.take(k as int),
        decreases s.len() - k,
    {
        out.push(s[k]);
        k = k + 1;
    }
    assert(s@.take(s.len() as int) == s@);
    assert(zeros =~= Seq::new(fill as nat, |i: int| '0'));
    out
}

/// `format!("{:0width$}", n)` for an unsigned number.
pub fn format_u32_padded(n: u32, width: usize) -> (r: Vec<char>)
    ensures
        r@ == padded_decimal(n as int, width as nat),
{
    pad_zeros(decimal_chars(n as u64), width)
}

/// `format!("{:0width$}", n)` for a signed number.
pub fn format_i32_padded(n: i32, width: usize) -> (r: Vec<char>)
    ensures
        r@ == padded_decimal(n as int, width as nat),
{
    if n < 0 {
        let mag = (-(n as i64)) as u64;
        let digits = pad_zeros(decimal_chars(mag), if width >= 1 { width - 1 } else { 0 });
        let mut out: Vec<char> = Vec::new();
        out.push('-');
        let mut k: usize = 0;
        while k < digits.len()
            invariant
                k <= digits.len(),
                out@ == seq!['-'] + digits@.take(k as int),
            decreases digits.len() - k,
        {
            out.push(digits[k]);
            k = k + 1;
        }
        assert(digits@.take(digits.len() as int) == digits@);
        out
    } else {
        pad_zeros(decimal_chars(n as u64), width)
    }
}

} // verus!
