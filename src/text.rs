//! Character-level pieces of a password: ASCII case folding and decimal digits.
use vstd::prelude::*;

verus! {

/// An uppercase ASCII letter.
pub open spec fn is_ascii_upper(c: char) -> bool {
    'A' <= c && c <= 'Z'
}

/// A lowercase ASCII letter.
pub open spec fn is_ascii_lower(c: char) -> bool {
    'a' <= c && c <= 'z'
}

/// A decimal digit.
pub open spec fn is_decimal_digit(c: char) -> bool {
    '0' <= c && c <= '9'
}

/// The character with an uppercase ASCII letter lowered; any other character is kept.
pub open spec fn lower_char(c: char) -> char {
    if is_ascii_upper(c) {
        ((c as u32) + 32) as char
    } else {
        c
    }
}

/// The character with a lowercase ASCII letter raised; any other character is kept.
pub open spec fn upper_char(c: char) -> char {
    if is_ascii_lower(c) {
        ((c as u32) - 32) as char
    } else {
        c
    }
}

/// Every character of the word lowered.
pub open spec fn lower_word(w: Seq<char>) -> Seq<char> {
    w.map_values(|c: char| lower_char(c))
}

/// Every character of the word raised.
pub open spec fn upper_word(w: Seq<char>) -> Seq<char> {
    w.map_values(|c: char| upper_char(c))
}

/// The digit character of a value below ten.
pub open spec fn digit_char(d: nat) -> char {
    ((d + 48) as u32) as char
}

/// The decimal rendering of a number, without leading zeros.
pub open spec fn decimal(n: nat) -> Seq<char>
    decreases n,
{
    if n < 10 {
        seq![digit_char(n)]
    } else {
        decimal(n / 10).push(digit_char(n % 10))
    }
}

/// Ten to the power `n`.
pub open spec fn pow10(n: nat) -> nat
    decreases n,
{
    if n == 0 {
        1
    } else {
        10 * pow10((n - 1) as nat)
    }
}

/// The greatest number of decimal digits whose range fits in a `u64`.
pub const MAX_DIGITS: u8 = 19;

/// The character with an uppercase ASCII letter lowered.
pub fn to_ascii_lower(c: char) -> (r: char)
    ensures
        r == lower_char(c),
{
    if 'A' <= c && c <= 'Z' {
        ((c as u8) + 32) as char
    } else {
        c
    }
}

/// The character with a lowercase ASCII letter raised.
pub fn to_ascii_upper(c: char) -> (r: char)
    ensures
        r == upper_char(c),
{
    if 'a' <= c && c <= 'z' {
        ((c as u8) - 32) as char
    } else {
        c
    }
}

/// The word with every ASCII letter lowered.
pub fn to_lower_case(w: &Vec<char>) -> (r: Vec<char>)
    ensures
        r@ == lower_word(w@),
{
    let mut r: Vec<char> = Vec::new();
    let mut i: usize = 0;
    while i < w.len()
        invariant
            i <= w@.len(),
            r@ == lower_word(w@.take(i as int)),
        decreases w@.len() - i,
    {
        r.push(to_ascii_lower(w[i]));
        i += 1;
        assert(lower_word(w@.take(i as int)) =~= lower_word(w@.take(i - 1)).push(lower_char(w@[i - 1])));
    }
    assert(w@.take(i as int) =~= w@);
    r
}

/// The word with every ASCII letter raised.
pub fn to_upper_case(w: &Vec<char>) -> (r: Vec<char>)
    ensures
        r@ == upper_word(w@),
{
    let mut r: Vec<char> = Vec::new();
    let mut i: usize = 0;
    while i < w.len()
        invariant
            i <= w@.len(),
            r@ == upper_word(w@.take(i as int)),
        decreases w@.len() - i,
    {
        r.push(to_ascii_upper(w[i]));
        i += 1;
        assert(upper_word(w@.take(i as int)) =~= upper_word(w@.take(i - 1)).push(upper_char(w@[i - 1])));
    }
    assert(w@.take(i as int) =~= w@);
    r
}

/// Appends the decimal rendering of `n`.
pub fn push_decimal(out: &mut Vec<char>, n: u64)
    ensures
        final(out)@ == old(out)@ + decimal(n as nat),
    decreases n,
{
    if n >= 10 {
        push_decimal(out, n / 10);
    }
    let d: u8 = (n % 10) as u8;
    out.push((d + 48) as char);
    assert(old(out)@ + decimal(n as nat) =~= final(out)@) by {
        if n >= 10 {
            assert(old(out)@ + decimal(n as nat) =~= (old(out)@ + decimal((n / 10) as nat)).push(
                digit_char((n % 10) as nat),
            ));
        }
    }
}

/// Powers of ten grow with the exponent.
pub proof fn lemma_pow10_grows(i: nat, j: nat)
    requires
        i <= j,
    ensures
        pow10(i) <= pow10(j),
    decreases j - i,
{
    if i < j {
        lemma_pow10_grows(i, (j - 1) as nat);
    }
}

/// Ten to the power `n`, for `n` up to the largest that fits.
pub fn power_of_ten(n: u8) -> (r: u64)
    requires
        n <= MAX_DIGITS,
    ensures
        r as nat == pow10(n as nat),
{
    proof {
        reveal_with_fuel(pow10, 20);
        lemma_pow10_grows(n as nat, 19);
    }
    let mut r: u64 = 1;
    let mut i: u8 = 0;
    while i < n
        invariant
            i <= n <= 19,
            r as nat == pow10(i as nat),
            pow10(n as nat) <= 10000000000000000000,
        decreases n - i,
    {
        proof {
            lemma_pow10_grows((i + 1) as nat, n as nat);
        }
        r = r * 10;
        i += 1;
    }
    r
}

} // verus!

verus! {

/// Relies on `String`'s `FromIterator<&char>` (`collect`): the string holds the
/// characters in their order.
#[verifier::external_body]
pub(crate) fn string_from_chars(v: &Vec<char>) -> (r: String)
    ensures
        r@ == v@,
{
    v.iter().collect()
}

/// The characters of a string, in order.
pub fn chars_of(s: &str) -> (r: Vec<char>)
    ensures
        r@ == s@,
{
    let n = s.unicode_len();
    let mut r: Vec<char> = Vec::new();
    let mut i: usize = 0;
    while i < n
        invariant
            n == s@.len(),
            i <= n,
            r@ == s@.take(i as int),
        decreases n - i,
    {
        r.push(s.get_char(i));
        i += 1;
        assert(r@ =~= s@.take(i as int));
    }
    assert(s@.take(n as int) =~= s@);
    r
}

} // verus!
