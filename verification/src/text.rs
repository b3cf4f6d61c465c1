//! Numbers as text, and comparison of strings.

use vstd::prelude::*;
use vstd::string::*;
use vstd::utf8::*;

verus! {

/// The character of a decimal digit.
pub open spec fn digit(d: nat) -> char {
    (48 + d) as char
}

/// The digits of `n` in the given base, without leading zeros.
pub open spec fn radix(n: nat, base: nat) -> Seq<char>
    decreases n,
{
    if base < 2 || n < base {
        seq![digit(n)]
    } else {
        proof {
            assert(n / base < n) by (nonlinear_arith)
                requires
                    2 <= base <= n,
            ;
        }
        radix(n / base, base).push(digit(n % base))
    }
}

/// The decimal digits of `n`.
pub open spec fn decimal(n: nat) -> Seq<char> {
    radix(n, 10)
}

/// The octal digits of `n`.
pub open spec fn octal(n: nat) -> Seq<char> {
    radix(n, 8)
}

fn digit_text(d: u64) -> (s: &'static str)
    requires
        d < 10,
    ensures
        s@ == seq![digit(d as nat)],
{
    proof {
        reveal_strlit("0");
        reveal_strlit("1");
        reveal_strlit("2");
        reveal_strlit("3");
        reveal_strlit("4");
        reveal_strlit("5");
        reveal_strlit("6");
        reveal_strlit("7");
        reveal_strlit("8");
        reveal_strlit("9");
    }
    match d {
        0 => "0",
        1 => "1",
        2 => "2",
        3 => "3",
        4 => "4",
        5 => "5",
        6 => "6",
        7 => "7",
        8 => "8",
        _ => "9",
    }
}

fn push_radix(out: &mut String, n: u64, base: u64)
    requires
        2 <= base <= 10,
    ensures
        final(out)@ == old(out)@ + radix(n as nat, base as nat),
    decreases n,
{
    if n < base {
        out.append(digit_text(n));
    } else {
        proof {
            assert(n / base < n) by (nonlinear_arith)
                requires
                    2 <= base <= n,
            ;
        }
        push_radix(out, n / base, base);
        out.append(digit_text(n % base));
    }
}

/// Appends the decimal digits of `n`.
pub fn push_decimal(out: &mut String, n: u64)
    ensures
        final(out)@ == old(out)@ + decimal(n as nat),
{
    push_radix(out, n, 10)
}

/// Appends the octal digits of `n`.
pub fn push_octal(out: &mut String, n: u64)
    ensures
        final(out)@ == old(out)@ + octal(n as nat),
{
    push_radix(out, n, 8)
}

/// Whether all characters are octal digits.
pub open spec fn octal_digits(s: Seq<char>) -> bool {
    forall|i: int| 0 <= i < s.len() ==> '0' <= #[trigger] s[i] <= '7'
}

/// The number that octal digits stand for.
pub open spec fn octal_number(s: Seq<char>) -> nat
    decreases s.len(),
{
    if s.len() == 0 {
        0
    } else {
        octal_number(s.drop_last()) * 8 + (s.last() as nat - '0' as nat) as nat
    }
}

/// The 32-bit number that a text stands for in octal: digits, perhaps behind a
/// plus sign.
pub open spec fn parse_octal(s: Seq<char>) -> Option<u32> {
    let d = if s.len() > 0 && s[0] == '+' {
        s.skip(1)
    } else {
        s
    };
    if d.len() > 0 && octal_digits(d) && octal_number(d) <= u32::MAX {
        Some(octal_number(d) as u32)
    } else {
        None
    }
}

/// The text with which `std` describes a text that is no octal number.
pub uninterp spec fn octal_error_text(s: Seq<char>) -> Seq<char>;

/// `u32::from_str_radix` with radix 8: an optional plus sign and then octal
/// digits only become the number that they stand for, if it fits. Any other
/// text is refused; the description of the refusal is named, not spelt out.
#[verifier::external_body]
pub(crate) fn u32_from_octal(s: &str) -> (r: Result<u32, String>)
    ensures
        match parse_octal(s@) {
            Some(v) => r matches Ok(w) && w == v,
            None => r matches Err(text) && text@ == octal_error_text(s@),
        },
{
    match u32::from_str_radix(s, 8) {
        Ok(v) => Ok(v),
        Err(e) => Err(e.to_string()),
    }
}

proof fn lemma_octal_digits(n: nat)
    ensures
        octal(n).len() > 0,
        octal_digits(octal(n)),
        octal_number(octal(n)) == n,
    decreases n,
{
    let s = octal(n);
    if n >= 8 {
        lemma_octal_digits(n / 8);
        assert(s.drop_last() =~= octal(n / 8));
    } else {
        assert(s.drop_last() =~= seq![]);
        assert(octal_number(s.drop_last()) == 0);
    }
}

/// A number is read back from its octal digits.
pub proof fn law_octal_round_trip(n: u32)
    ensures
        parse_octal(octal(n as nat)) == Some(n),
{
    lemma_octal_digits(n as nat);
    assert(octal(n as nat)[0] != '+');
}

/// A digit more makes an octal number eight times as large and adds the digit;
/// what is too large then is no number any more. One plus sign may stand before
/// the digits.
pub proof fn law_octal_digits_weigh_eight(s: Seq<char>, m: u32, d: nat)
    requires
        parse_octal(s) == Some(m),
        d < 8,
    ensures
        parse_octal(seq![digit(d)]) == Some(d as u32),
        parse_octal(s.push(digit(d))) == (if m * 8 + d <= u32::MAX {
            Some((m * 8 + d) as u32)
        } else {
            None
        }),
        s[0] != '+' ==> parse_octal(seq!['+'] + s) == Some(m),
{
    let one = seq![digit(d)];
    assert(one.drop_last() =~= seq![]);
    assert(octal_number(one.drop_last()) == 0);
    let t = s.push(digit(d));
    let signed = s[0] == '+';
    let x = if signed {
        s.skip(1)
    } else {
        s
    };
    let y = if signed {
        t.skip(1)
    } else {
        t
    };
    assert(y =~= x.push(digit(d)));
    assert(y.drop_last() =~= x);
    assert forall|i: int| 0 <= i < y.len() implies '0' <= #[trigger] y[i] <= '7' by {
        if i < x.len() {
            assert(y[i] == x[i]);
        }
    }
    assert((seq!['+'] + s).skip(1) =~= s);
}

/// A text without a digit, or with a character that is no octal digit, is no
/// octal number.
pub proof fn law_other_texts_are_no_octal_numbers(s: Seq<char>, i: int)
    requires
        0 < i < s.len() || (i == 0 && s.len() > 0 && s[0] != '+'),
        !('0' <= s[i] <= '7'),
    ensures
        parse_octal(s) is None,
        parse_octal(seq![]) is None,
        parse_octal(seq!['+']) is None,
{
    let d = if s[0] == '+' {
        s.skip(1)
    } else {
        s
    };
    if s[0] == '+' {
        assert(d[i - 1] == s[i]);
    }
    assert(!octal_digits(d));
    assert(seq!['+'].skip(1) =~= seq![]);
}

/// Whether two strings hold the same characters.
pub fn str_eq(a: &str, b: &str) -> (r: bool)
    ensures
        r == (a@ == b@),
{
    let x = a.as_bytes();
    let y = b.as_bytes();
    proof {
        encode_utf8_decode_utf8(a@);
        encode_utf8_decode_utf8(b@);
    }
    if x.len() != y.len() {
        return false;
    }
    let mut i: usize = 0;
    while i < x.len()
        invariant
            i <= x@.len(),
            x@.len() == y@.len(),
            x@ == encode_utf8(a@),
            y@ == encode_utf8(b@),
            forall|j: int| 0 <= j < i ==> x@[j] == y@[j],
        decreases x@.len() - i,
    {
        if x[i] != y[i] {
            return false;
        }
        i += 1;
    }
    assert(x@ =~= y@);
    true
}

/// Whether `s` begins with the character `c`.
pub fn begins_with(s: &str, c: char) -> (r: bool)
    ensures
        r == (s@.len() > 0 && s@.first() == c),
{
    s.unicode_len() > 0 && s.get_char(0) == c
}

/// Whether `s` ends with the character `c`.
pub fn ends_with(s: &str, c: char) -> (r: bool)
    ensures
        r == (s@.len() > 0 && s@.last() == c),
{
    let n = s.unicode_len();
    n > 0 && s.get_char(n - 1) == c
}

} // verus!
