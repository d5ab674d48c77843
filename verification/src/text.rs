//! Character-level helpers shared by the rest of the library: turning string
//! slices into character vectors and back, and decimal rendering of integers.
use vstd::prelude::*;

verus! {

/// The character for a decimal digit `d` (`0 <= d < 10`).
pub open spec fn digit_char(d: int) -> char {
    (d + 48) as char
}

/// Decimal digits of a natural number, most significant first, no leading zeros.
pub open spec fn nat_decimal(n: nat) -> Seq<char>
    decreases n,
{
    if n < 10 {
        seq![digit_char(n as int)]
    } else {
        nat_decimal(n / 10).push(digit_char((n % 10) as int))
    }
}

/// Decimal rendering of an integer, as `{}` formatting writes it: a leading
/// `-` for negative numbers, then the digits of the magnitude.
pub open spec fn int_decimal(n: int) -> Seq<char> {
    if n < 0 {
        seq!['-'] + nat_decimal((-n) as nat)
    } else {
        nat_decimal(n as nat)
    }
}

/// Different digits have different characters.
proof fn lemma_digit_char_injective(a: int, b: int)
    requires
        0 <= a < 10,
        0 <= b < 10,
        digit_char(a) == digit_char(b),
    ensures
        a == b,
{
    assert(digit_char(a) as int == a + 48);
    assert(digit_char(b) as int == b + 48);
}

/// Every character of a natural number's decimal digits is a digit, and
/// there is at least one.
pub proof fn lemma_nat_decimal_digits(n: nat)
    ensures
        nat_decimal(n).len() >= 1,
        forall|i: int| 0 <= i < nat_decimal(n).len() ==> '0' <= #[trigger] nat_decimal(n)[i] <= '9',
    decreases n,
{
    if n >= 10 {
        lemma_nat_decimal_digits(n / 10);
    }
}

/// Different natural numbers have different decimal digits.
pub proof fn lemma_nat_decimal_injective(m: nat, n: nat)
    requires
        nat_decimal(m) == nat_decimal(n),
    ensures
        m == n,
    decreases m + n,
{
    if m < 10 && n < 10 {
        assert(nat_decimal(m) == seq![digit_char(m as int)]);
        assert(nat_decimal(n) == seq![digit_char(n as int)]);
        assert(nat_decimal(m)[0] == digit_char(m as int));
        assert(nat_decimal(n)[0] == digit_char(n as int));
        lemma_digit_char_injective(m as int, n as int);
    } else if m < 10 {
        lemma_nat_decimal_digits(n / 10);
        assert(nat_decimal(n).len() >= 2);
    } else if n < 10 {
        lemma_nat_decimal_digits(m / 10);
        assert(nat_decimal(m).len() >= 2);
    } else {
        let dm = nat_decimal(m);
        let dn = nat_decimal(n);
        assert(dm.last() == dn.last());
        lemma_digit_char_injective(m as int % 10, n as int % 10);
        assert(dm.drop_last() =~= nat_decimal(m / 10));
        assert(dn.drop_last() =~= nat_decimal(n / 10));
        lemma_nat_decimal_injective(m / 10, n / 10);
    }
}

/// Different integers have different decimal renderings.
pub proof fn lemma_int_decimal_injective(m: int, n: int)
    requires
        int_decimal(m) == int_decimal(n),
    ensures
        m == n,
{
    if m < 0 && n < 0 {
        assert(int_decimal(m).drop_first() =~= nat_decimal((-m) as nat));
        assert(int_decimal(n).drop_first() =~= nat_decimal((-n) as nat));
        lemma_nat_decimal_injective((-m) as nat, (-n) as nat);
    } else if m < 0 {
        lemma_nat_decimal_digits(n as nat);
        assert(int_decimal(m)[0] == '-');
        assert('0' <= nat_decimal(n as nat)[0] <= '9');
    } else if n < 0 {
        lemma_nat_decimal_digits(m as nat);
        assert(int_decimal(n)[0] == '-');
        assert('0' <= nat_decimal(m as nat)[0] <= '9');
    } else {
        lemma_nat_decimal_injective(m as nat, n as nat);
    }
}

/// Builds a `String` holding exactly the given characters, with std's
/// `String::from_iter` over the slice's characters.
///
/// Claimed: the string's characters are the slice's, in order.
#[verifier::external_body]
pub fn string_from_chars(chars: &[char]) -> (s: String)
    ensures
        s@ == chars@,
{
    String::from_iter(chars.iter())
}

/// The characters of a string slice, in order.
pub fn chars_of(s: &str) -> (v: Vec<char>)
    ensures
        v@ == s@,
{
    let mut v: Vec<char> = Vec::new();
    for c in it: s.chars()
        invariant
            v@ == it.seq().take(it.index() as int),
    {
        v.push(c);
    }
    proof {
        broadcast use vstd::string::group_string_axioms;
    }
    assert(v@ =~= s@);
    v
}

/// Appends the characters of `lit` to `out`.
pub fn push_str_chars(out: &mut Vec<char>, lit: &str)
    ensures
        final(out)@ == old(out)@ + lit@,
{
    let mut v = chars_of(lit);
    out.append(&mut v);
}

/// Appends the characters of `src` to `out`.
pub fn push_chars(out: &mut Vec<char>, src: &Vec<char>)
    ensures
        final(out)@ == old(out)@ + src@,
{
    let mut k: usize = 0;
    while k < src.len()
        invariant
            k <= src@.len(),
            out@ == old(out)@ + src@.take(k as int),
        decreases src@.len() - k,
    {
        out.push(src[k]);
        k = k + 1;
        assert(src@.take(k as int) =~= src@.take((k - 1) as int).push(src@[k - 1]));
    }
    assert(src@.take(k as int) =~= src@);
}

fn digit_of(d: u64) -> (c: char)
    requires
        d < 10,
    ensures
        c == digit_char(d as int),
{
    let b: u8 = (d as u8) + 48u8;
    b as char
}

/// Appends the decimal digits of `m` to `out`.
pub fn push_nat_decimal(out: &mut Vec<char>, m: u64)
    ensures
        final(out)@ == old(out)@ + nat_decimal(m as nat),
    decreases m,
{
    if m >= 10 {
        push_nat_decimal(out, m / 10);
    }
    let c = digit_of(m % 10);
    out.push(c);
    proof {
        if m >= 10 {
            assert(nat_decimal(m as nat) == nat_decimal((m / 10) as nat).push(digit_char((m % 10) as int)));
        }
    }
}

} // verus!
