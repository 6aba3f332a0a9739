use vstd::prelude::*;
use vstd::utf8::encode_utf8;

verus! {

broadcast use vstd::utf8::encode_utf8_decode_utf8;

/// Byte-wise equality of two slices.
pub fn bytes_eq(a: &[u8], b: &[u8]) -> (r: bool)
    ensures
        r == (a@ == b@),
{
    if a.len() != b.len() {
        return false;
    }
    let mut i: usize = 0;
    while i < a.len()
        invariant
            a@.len() == b@.len(),
            i <= a@.len(),
            forall|j: int| 0 <= j < i ==> a@[j] == b@[j],
        decreases a@.len() - i,
    {
        if a[i] != b[i] {
            return false;
        }
        i = i + 1;
    }
    assert(a@ =~= b@);
    true
}

/// Equality of two string slices, by their characters.
pub fn str_eq(a: &str, b: &str) -> (r: bool)
    ensures
        r == (a@ == b@),
{
    let r = bytes_eq(a.as_bytes(), b.as_bytes());
    proof {
        if r {
            assert(vstd::utf8::decode_utf8(vstd::utf8::encode_utf8(a@)) == a@);
            assert(vstd::utf8::decode_utf8(vstd::utf8::encode_utf8(b@)) == b@);
        }
    }
    r
}

} // verus!
verus! {

/// Whether a string has exactly the characters of a literal.
pub fn string_is(s: &String, lit: &str) -> (r: bool)
    ensures
        r == (s@ == lit@),
{
    str_eq(s.as_str(), lit)
}

} // verus!

verus! {

/// The character of a decimal digit.
pub open spec fn digit_char(d: int) -> char {
    if d == 0 {
        '0'
    } else if d == 1 {
        '1'
    } else if d == 2 {
        '2'
    } else if d == 3 {
        '3'
    } else if d == 4 {
        '4'
    } else if d == 5 {
        '5'
    } else if d == 6 {
        '6'
    } else if d == 7 {
        '7'
    } else if d == 8 {
        '8'
    } else {
        '9'
    }
}

/// Decimal notation of a number, without leading zeros.
pub open spec fn decimal(n: nat) -> Seq<char>
    decreases n,
{
    if n < 10 {
        seq![digit_char(n as int)]
    } else {
        decimal(n / 10).push(digit_char((n % 10) as int))
    }
}

/// The one-character string of a decimal digit.
fn digit_str(d: u32) -> (r: &'static str)
    requires
        d < 10,
    ensures
        r@ == seq![digit_char(d as int)],
{
    proof {
        reveal_strlit("0");
        reveal_strlit("1");
        reveal_strlit("2");
        reveal_strlit("3");
        reveal_strlit("4");
        reveal_strlit("5");
        reveal_strlit("6");
        reveal_strlit("7");
        reveal_strlit("8");
        reveal_strlit("9");
    }
    match d {
        0 => "0",
        1 => "1",
        2 => "2",
        3 => "3",
        4 => "4",
        5 => "5",
        6 => "6",
        7 => "7",
        8 => "8",
        _ => "9",
    }
}

/// Appends the decimal notation of `n`.
pub fn push_decimal(s: &mut String, n: u64)
    ensures
        final(s)@ == old(s)@ + decimal(n as nat),
    decreases n,
{
    if n >= 10 {
        push_decimal(s, n / 10);
    }
    s.append(digit_str((n % 10) as u32));
    proof {
        if n >= 10 {
            assert(old(s)@ + decimal(n as nat) =~= old(s)@ + decimal((n / 10) as nat) + seq![
                digit_char((n % 10) as int),
            ]);
        }
    }
}

} // verus!

verus! {

/// The outcome of reading an unsigned integer literal.
#[derive(Clone, Copy, Debug, PartialEq, Eq, Structural)]
pub enum ParsedUint {
    Value(u64),
    /// The digits denote a number above the bound.
    Overflow,
    /// The text is empty or holds a character that is not a digit.
    Invalid,
}

/// The first `n` bytes with the `_` separators left out.
pub open spec fn drop_underscores(b: Seq<u8>, n: int) -> Seq<u8>
    decreases n,
{
    if n <= 0 {
        Seq::empty()
    } else if b[n - 1] == 0x5f {
        drop_underscores(b, n - 1)
    } else {
        drop_underscores(b, n - 1).push(b[n - 1])
    }
}

/// The value of a digit byte in a base (10 or 16), if it is one.
pub open spec fn digit_value(c: u8, base: nat) -> Option<nat> {
    if 0x30 <= c <= 0x39 {
        Some((c - 0x30) as nat)
    } else if base == 16 && 0x61 <= c <= 0x66 {
        Some((c - 0x61 + 10) as nat)
    } else if base == 16 && 0x41 <= c <= 0x46 {
        Some((c - 0x41 + 10) as nat)
    } else {
        None
    }
}

/// Reads the first `n` digits, most significant first: `Invalid` at the
/// first byte that is not a digit, `Overflow` at the first step whose value
/// passes `max`, whichever comes first.
pub open spec fn scan_digits(b: Seq<u8>, base: nat, max: nat, n: int) -> ParsedUint
    decreases n,
{
    if n <= 0 {
        ParsedUint::Value(0)
    } else {
        match scan_digits(b, base, max, n - 1) {
            ParsedUint::Value(acc) => match digit_value(b[n - 1], base) {
                Some(d) => if acc * base + d <= max {
                    ParsedUint::Value((acc * base + d) as u64)
                } else {
                    ParsedUint::Overflow
                },
                None => ParsedUint::Invalid,
            },
            other => other,
        }
    }
}

/// Reads digits after an optional `+` as std's unsigned parsing does: an
/// empty text, or a lone sign, is `Invalid`.
pub open spec fn parse_digits(b: Seq<u8>, base: nat, max: nat) -> ParsedUint {
    if b.len() == 0 {
        ParsedUint::Invalid
    } else if b[0] == 0x2b {
        if b.len() == 1 {
            ParsedUint::Invalid
        } else {
            scan_digits(b.subrange(1, b.len() as int), base, max, b.len() - 1)
        }
    } else {
        scan_digits(b, base, max, b.len() as int)
    }
}

/// Reads an unsigned integer literal of the text format: `_` separators are
/// left out, a `0x` prefix selects hexadecimal, and the value may not pass
/// `max`.
pub open spec fn parse_uint_spec(text: Seq<u8>, max: nat) -> ParsedUint {
    let b = drop_underscores(text, text.len() as int);
    if b.len() >= 2 && b[0] == 0x30 && b[1] == 0x78 {
        parse_digits(b.subrange(2, b.len() as int), 16, max)
    } else {
        parse_digits(b, 10, max)
    }
}

fn digit_value_of(c: u8, base: u64) -> (r: Option<u64>)
    requires
        base == 10 || base == 16,
    ensures
        match digit_value(c, base as nat) {
            Some(d) => r == Some(d as u64),
            None => r is None,
        },
{
    if 0x30 <= c && c <= 0x39 {
        Some((c - 0x30) as u64)
    } else if base == 16 && 0x61 <= c && c <= 0x66 {
        Some((c - 0x61 + 10) as u64)
    } else if base == 16 && 0x41 <= c && c <= 0x46 {
        Some((c - 0x41 + 10) as u64)
    } else {
        None
    }
}

fn scan(b: &[u8], from: usize, base: u64, max: u64) -> (r: ParsedUint)
    requires
        base == 10 || base == 16,
        from <= b@.len(),
    ensures
        r == scan_digits(b@.subrange(from as int, b@.len() as int), base as nat, max as nat, b@.len() - from),
{
    let ghost s = b@.subrange(from as int, b@.len() as int);
    let mut acc: u64 = 0;
    let mut i = from;
    while i < b.len()
        invariant
            from <= i <= b@.len(),
            base == 10 || base == 16,
            s == b@.subrange(from as int, b@.len() as int),
            scan_digits(s, base as nat, max as nat, i - from) == ParsedUint::Value(acc),
        decreases b@.len() - i,
    {
        assert(s[i - from] == b@[i as int]);
        let d = match digit_value_of(b[i], base) {
            Some(d) => d,
            None => {
                proof {
                    lemma_scan_stuck(s, base as nat, max as nat, i - from + 1, s.len() as int);
                }
                return ParsedUint::Invalid;
            },
        };
        proof {
            assert(acc <= max);
            assert(acc * base <= max * base) by (nonlinear_arith)
                requires acc <= max;
        }
        let next = match acc.checked_mul(base) {
            Some(m) => m.checked_add(d),
            None => None,
        };
        match next {
            Some(v) if v <= max => {
                acc = v;
            },
            _ => {
                proof {
                    lemma_scan_stuck(s, base as nat, max as nat, i - from + 1, s.len() as int);
                }
                return ParsedUint::Overflow;
            },
        }
        i = i + 1;
    }
    ParsedUint::Value(acc)
}

/// Once reading has stopped on an error, further digits do not change it.
proof fn lemma_scan_stuck(b: Seq<u8>, base: nat, max: nat, k: int, n: int)
    requires
        0 <= k <= n,
        !(scan_digits(b, base, max, k) is Value),
    ensures
        scan_digits(b, base, max, n) == scan_digits(b, base, max, k),
    decreases n - k,
{
    if n > k {
        lemma_scan_stuck(b, base, max, k, n - 1);
    }
}

/// The text without its `_` separators.
fn without_underscores(text: &[u8]) -> (r: Vec<u8>)
    ensures
        r@ == drop_underscores(text@, text@.len() as int),
{
    let mut r: Vec<u8> = Vec::new();
    let mut i: usize = 0;
    while i < text.len()
        invariant
            i <= text@.len(),
            r@ == drop_underscores(text@, i as int),
        decreases text@.len() - i,
    {
        if text[i] != 0x5f {
            r.push(text[i]);
        }
        i = i + 1;
    }
    r
}

pub(crate) fn parse_digits_from(b: &[u8], from: usize, base: u64, max: u64) -> (r: ParsedUint)
    requires
        base == 10 || base == 16,
        from <= b@.len(),
    ensures
        r == parse_digits(b@.subrange(from as int, b@.len() as int), base as nat, max as nat),
{
    let ghost s = b@.subrange(from as int, b@.len() as int);
    if from == b.len() {
        return ParsedUint::Invalid;
    }
    assert(s[0] == b@[from as int]);
    if b[from] == 0x2b {
        if from + 1 == b.len() {
            return ParsedUint::Invalid;
        }
        assert(s.subrange(1, s.len() as int) == b@.subrange(from + 1, b@.len() as int));
        scan(b, from + 1, base, max)
    } else {
        scan(b, from, base, max)
    }
}

/// Reads an unsigned integer literal of the text format whose value may
/// not pass `max`: see `parse_uint_spec`.
pub fn parse_uint(text: &str, max: u64) -> (r: ParsedUint)
    ensures
        r == parse_uint_spec(encode_utf8(text@), max as nat),
{
    let b = without_underscores(text.as_bytes());
    if b.len() >= 2 && b[0] == 0x30 && b[1] == 0x78 {
        parse_digits_from(b.as_slice(), 2, 16, max)
    } else {
        assert(b@.subrange(0, b@.len() as int) == b@);
        parse_digits_from(b.as_slice(), 0, 10, max)
    }
}

} // verus!
