//! Numbers written in decimal digits, read back, and bytes written for URLs.
use vstd::prelude::*;
use vstd::utf8::encode_utf8;

use crate::text::chars_of;

verus! {

/// A decimal digit.
pub open spec fn is_digit(c: char) -> bool {
    '0' <= c && c <= '9'
}

/// The value of a decimal digit.
pub open spec fn digit_value(c: char) -> nat {
    (c as int - '0' as int) as nat
}

/// One or more decimal digits.
pub open spec fn all_digits(s: Seq<char>) -> bool {
    s.len() > 0 && forall|i: int| 0 <= i < s.len() ==> is_digit(#[trigger] s[i])
}

/// The number that decimal digits stand for.
pub open spec fn digits_value(s: Seq<char>) -> nat
    decreases s.len(),
{
    if s.len() == 0 {
        0
    } else {
        digits_value(s.drop_last()) * 10 + digit_value(s.last())
    }
}

/// The number that a text stands for: decimal digits, with a sign before them or
/// without.
pub open spec fn number(s: Seq<char>) -> Option<int> {
    if all_digits(s) {
        Some(digits_value(s) as int)
    } else if s.len() > 0 && s[0] == '+' && all_digits(s.skip(1)) {
        Some(digits_value(s.skip(1)) as int)
    } else if s.len() > 0 && s[0] == '-' && all_digits(s.skip(1)) {
        Some(-(digits_value(s.skip(1)) as int))
    } else {
        None
    }
}

/// The number that a text stands for, where it fits 64 bits with sign.
pub open spec fn signed_number(s: Seq<char>) -> Option<i64> {
    match number(s) {
        Some(n) => if i64::MIN <= n <= i64::MAX {
            Some(n as i64)
        } else {
            None
        },
        None => None,
    }
}

/// The number that a text stands for, where it has no minus sign and fits 64
/// bits.
pub open spec fn unsigned_number(s: Seq<char>) -> Option<u64> {
    if s.len() > 0 && s[0] == '-' {
        None
    } else {
        match number(s) {
            Some(n) => if 0 <= n <= u64::MAX {
                Some(n as u64)
            } else {
                None
            },
            None => None,
        }
    }
}

/// The value of the digits from `from` on, if they are all digits and there is
/// one; the second part says whether it fits 64 bits.
fn read_digits(v: &Vec<char>, from: usize) -> (r: Option<Option<u64>>)
    requires
        from <= v@.len(),
    ensures
        ({
            let s = v@.skip(from as int);
            match r {
                Some(Some(n)) => all_digits(s) && digits_value(s) == n,
                Some(None) => all_digits(s) && digits_value(s) > u64::MAX,
                None => !all_digits(s),
            }
        }),
{
    let ghost s = v@.skip(from as int);
    if from == v.len() {
        return None;
    }
    let mut value: Option<u64> = Some(0);
    let mut i: usize = from;
    assert(s.take(0) =~= Seq::<char>::empty());
    while i < v.len()
        invariant
            from <= i <= v@.len(),
            s == v@.skip(from as int),
            forall|j: int| 0 <= j < i - from ==> is_digit(#[trigger] s[j]),
            match value {
                Some(n) => digits_value(s.take(i - from)) == n,
                None => digits_value(s.take(i - from)) > u64::MAX,
            },
        decreases v@.len() - i,
    {
        let c = v[i];
        proof {
            crate::order::lemma_take_step(s, i - from);
            assert(s[i - from] == c);
        }
        if !('0' <= c && c <= '9') {
            return None;
        }
        let d: u64 = (c as u32 - '0' as u32) as u64;
        value = match value {
            Some(n) => {
                let next: u128 = (n as u128) * 10 + d as u128;
                if next <= u64::MAX as u128 {
                    Some(next as u64)
                } else {
                    None
                }
            },
            None => None,
        };
        i = i + 1;
    }
    assert(s.take(i - from) =~= s);
    Some(value)
}

/// The number that a text stands for, where it fits 64 bits with sign.
pub fn parse_signed(t: &str) -> (r: Option<i64>)
    ensures
        r == signed_number(t@),
{
    let v = chars_of(t);
    assert(v@.skip(0) =~= v@);
    if v.len() == 0 {
        return None;
    }
    if v[0] == '+' || v[0] == '-' {
        assert(!is_digit(v@[0]));
        match read_digits(&v, 1) {
            Some(Some(n)) => {
                if v[0] == '-' {
                    if n <= i64::MAX as u64 {
                        Some(-(n as i64))
                    } else if n == 0x8000_0000_0000_0000 {
                        Some(i64::MIN)
                    } else {
                        None
                    }
                } else if n <= i64::MAX as u64 {
                    Some(n as i64)
                } else {
                    None
                }
            },
            _ => None,
        }
    } else {
        match read_digits(&v, 0) {
            Some(Some(n)) => if n <= i64::MAX as u64 {
                Some(n as i64)
            } else {
                None
            },
            _ => None,
        }
    }
}

/// The number that a text stands for, where it has no minus sign and fits 64
/// bits.
pub fn parse_unsigned(t: &str) -> (r: Option<u64>)
    ensures
        r == unsigned_number(t@),
{
    let v = chars_of(t);
    assert(v@.skip(0) =~= v@);
    if v.len() == 0 {
        return None;
    }
    if v[0] == '-' {
        return None;
    }
    if v[0] == '+' {
        assert(!is_digit(v@[0]));
        match read_digits(&v, 1) {
            Some(n) => n,
            None => None,
        }
    } else {
        match read_digits(&v, 0) {
            Some(n) => n,
            None => None,
        }
    }
}

/// What the decimal notation of a number reads back as: the number.
pub proof fn lemma_read_back(n: u64)
    ensures
        unsigned_number(crate::text::decimal(n as nat)) == Some(n),
{
    lemma_decimal_digits(n as nat);
    let s = crate::text::decimal(n as nat);
    assert(is_digit(s[0]));
}

proof fn lemma_decimal_digits(n: nat)
    ensures
        all_digits(crate::text::decimal(n)),
        digits_value(crate::text::decimal(n)) == n,
    decreases n,
{
    let s = crate::text::decimal(n);
    if n < 10 {
        assert(s.drop_last() =~= Seq::<char>::empty());
        assert(digits_value(s.drop_last()) == 0);
        assert(s.last() == crate::text::digit(n));
    } else {
        lemma_decimal_digits(n / 10);
        assert(s.drop_last() =~= crate::text::decimal(n / 10));
        assert(s.last() == crate::text::digit(n % 10));
    }
}

/// A byte that stands for itself in a URL path: a letter, a digit, `-`, `_`, `.`
/// or `/`.
pub open spec fn plain_byte(b: u8) -> bool {
    (0x41 <= b <= 0x5A) || (0x61 <= b <= 0x7A) || (0x30 <= b <= 0x39) || b == 0x2D || b == 0x5F
        || b == 0x2E || b == 0x2F
}

/// The hexadecimal digit with value `d`, in upper case.
pub open spec fn hex_digit(d: int) -> char {
    if d < 10 {
        (0x30 + d) as char
    } else {
        (0x37 + d) as char
    }
}

/// A byte as it is written in a URL path.
pub open spec fn url_byte(b: u8) -> Seq<char> {
    if plain_byte(b) {
        seq![b as char]
    } else {
        seq!['%', hex_digit(b as int / 16), hex_digit(b as int % 16)]
    }
}

/// Bytes as they are written in a URL path.
pub open spec fn url_bytes(b: Seq<u8>) -> Seq<char>
    decreases b.len(),
{
    if b.len() == 0 {
        Seq::empty()
    } else {
        url_bytes(b.drop_last()) + url_byte(b.last())
    }
}

fn hex_char(d: u8) -> (r: char)
    requires
        d < 16,
    ensures
        r == hex_digit(d as int),
{
    if d < 10 {
        (0x30 + d) as char
    } else {
        (0x37 + d) as char
    }
}

/// A text as it is written in a URL path.
pub fn url_encode(s: &str) -> (r: String)
    ensures
        r@ == url_bytes(encode_utf8(s@)),
{
    let b = s.as_bytes();
    let mut out = String::new();
    let mut i: usize = 0;
    assert(b@.take(0) =~= Seq::<u8>::empty());
    assert(out@ =~= Seq::<char>::empty());
    while i < b.len()
        invariant
            i <= b@.len(),
            out@ == url_bytes(b@.take(i as int)),
        decreases b@.len() - i,
    {
        let ghost was = out@;
        let x: u8 = b[i];
        proof {
            crate::order::lemma_take_step(b@, i as int);
        }
        if (0x41 <= x && x <= 0x5A) || (0x61 <= x && x <= 0x7A) || (0x30 <= x && x <= 0x39) || x
            == 0x2D || x == 0x5F || x == 0x2E || x == 0x2F {
            out.push(x as char);
        } else {
            out.push('%');
            out.push(hex_char(x / 16));
            out.push(hex_char(x % 16));
        }
        assert(out@ =~= was + url_byte(x));
        i = i + 1;
    }
    assert(b@.take(i as int) =~= b@);
    out
}

} // verus!
