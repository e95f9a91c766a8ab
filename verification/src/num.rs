//! Decimal rendering of integers, for coordinate and attribute values.
//!
//! `dec_u64` / `dec_i64` give the exact character sequence a number is
//! written as; the executable renderers are proved to produce it, and
//! `parse_digits` is proved to read it back.

use vstd::prelude::*;
use vstd::string::StringExecFns;

verus! {

/// The character for one decimal digit.
pub open spec fn digit_char(d: nat) -> char {
    if d == 0 {
        '0'
    } else if d == 1 {
        '1'
    } else if d == 2 {
        '2'
    } else if d == 3 {
        '3'
    } else if d == 4 {
        '4'
    } else if d == 5 {
        '5'
    } else if d == 6 {
        '6'
    } else if d == 7 {
        '7'
    } else if d == 8 {
        '8'
    } else {
        '9'
    }
}

/// Whether `c` is a decimal digit.
pub open spec fn is_digit_char(c: char) -> bool {
    c == '0' || c == '1' || c == '2' || c == '3' || c == '4' || c == '5' || c == '6' || c == '7'
        || c == '8' || c == '9'
}

/// The value of one digit character.
pub open spec fn digit_val(c: char) -> nat {
    if c == '0' {
        0
    } else if c == '1' {
        1
    } else if c == '2' {
        2
    } else if c == '3' {
        3
    } else if c == '4' {
        4
    } else if c == '5' {
        5
    } else if c == '6' {
        6
    } else if c == '7' {
        7
    } else if c == '8' {
        8
    } else {
        9
    }
}

/// The decimal digits of `n`, most significant first, with no leading
/// zero except for `n == 0` itself.
pub open spec fn dec_nat(n: nat) -> Seq<char>
    decreases n,
{
    if n < 10 {
        seq![digit_char(n)]
    } else {
        dec_nat(n / 10).push(digit_char(n % 10))
    }
}

/// The decimal form of an unsigned number.
pub open spec fn dec_u64(n: u64) -> Seq<char> {
    dec_nat(n as nat)
}

/// The decimal form of a signed number: a minus sign, for a negative
/// number, followed by the digits of its magnitude.
pub open spec fn dec_i64(n: i64) -> Seq<char> {
    if n < 0 {
        seq!['-'] + dec_nat((-(n as int)) as nat)
    } else {
        dec_nat(n as nat)
    }
}

/// Every character of a rendered number's digit part is a digit.
pub proof fn lemma_dec_nat_digits(n: nat)
    ensures
        forall|i: int| 0 <= i < dec_nat(n).len() ==> is_digit_char(#[trigger] dec_nat(n)[i]),
        dec_nat(n).len() >= 1,
    decreases n,
{
    if n >= 10 {
        lemma_dec_nat_digits(n / 10);
    }
}

/// Reading digit characters back as a number, most significant first.
pub open spec fn parse_digits(s: Seq<char>) -> nat
    decreases s.len(),
{
    if s.len() == 0 {
        0
    } else {
        parse_digits(s.drop_last()) * 10 + digit_val(s.last())
    }
}

/// Round trip: parsing the decimal form of `n` gives back `n`.
pub proof fn lemma_parse_dec_nat(n: nat)
    ensures
        parse_digits(dec_nat(n)) == n,
    decreases n,
{
    if n < 10 {
        assert(dec_nat(n).drop_last() =~= Seq::<char>::empty());
        assert(parse_digits(Seq::<char>::empty()) == 0);
        assert(dec_nat(n).last() == digit_char(n));
        assert(parse_digits(dec_nat(n)) == parse_digits(dec_nat(n).drop_last()) * 10 + digit_val(
            dec_nat(n).last(),
        ));
    } else {
        lemma_parse_dec_nat(n / 10);
        assert(dec_nat(n).drop_last() =~= dec_nat(n / 10));
        assert(dec_nat(n).last() == digit_char(n % 10));
        assert(parse_digits(dec_nat(n)) == parse_digits(dec_nat(n).drop_last()) * 10 + digit_val(
            dec_nat(n).last(),
        ));
        assert(digit_val(digit_char(n % 10)) == n % 10);
        assert((n / 10) * 10 + n % 10 == n);
    }
}

/// Reading a decimal form back, sign first.
pub open spec fn parse_int(s: Seq<char>) -> int {
    if s.len() > 0 && s[0] == '-' {
        -(parse_digits(s.drop_first()) as int)
    } else {
        parse_digits(s) as int
    }
}

/// No character of a rendered signed number is a separator: each is a
/// digit or the leading minus sign.
pub proof fn lemma_dec_i64_chars(n: i64)
    ensures
        forall|i: int|
            0 <= i < dec_i64(n).len() ==> is_digit_char(#[trigger] dec_i64(n)[i]) || dec_i64(n)[i]
                == '-',
        dec_i64(n).len() >= 1,
{
    if n < 0 {
        lemma_dec_nat_digits((-(n as int)) as nat);
        assert(forall|i: int|
            1 <= i < dec_i64(n).len() ==> #[trigger] dec_i64(n)[i] == dec_nat(
                (-(n as int)) as nat,
            )[i - 1]);
    } else {
        lemma_dec_nat_digits(n as nat);
    }
}

/// Round trip with the sign: parsing the decimal form of `n` gives
/// back `n`.
pub proof fn lemma_parse_dec_i64(n: i64)
    ensures
        parse_int(dec_i64(n)) == n as int,
{
    if n < 0 {
        let mag = (-(n as int)) as nat;
        lemma_parse_dec_nat(mag);
        assert(dec_i64(n)[0] == '-');
        assert(dec_i64(n).drop_first() =~= dec_nat(mag));
    } else {
        lemma_parse_dec_nat(n as nat);
        lemma_dec_nat_digits(n as nat);
        assert(dec_i64(n)[0] != '-');
    }
}

/// The position of the first occurrence of `c` in `s`, or the length
/// of `s` if there is none.
pub open spec fn find_char(s: Seq<char>, c: char) -> nat
    decreases s.len(),
{
    if s.len() == 0 {
        0
    } else if s[0] == c {
        0
    } else {
        1 + find_char(s.drop_first(), c)
    }
}

/// Where a text starts with a `c`-free part followed by `c`, the first
/// occurrence is right after that part.
pub proof fn lemma_find_char_after(a: Seq<char>, b: Seq<char>, c: char)
    requires
        forall|i: int| 0 <= i < a.len() ==> #[trigger] a[i] != c,
        b.len() > 0,
        b[0] == c,
    ensures
        find_char(a + b, c) == a.len(),
    decreases a.len(),
{
    let s = a + b;
    if a.len() == 0 {
        assert(s =~= b);
    } else {
        assert(s[0] == a[0]);
        assert(s[0] != c);
        lemma_find_char_after(a.drop_first(), b, c);
        assert(s.drop_first() =~= a.drop_first() + b);
    }
}

/// Append the digits of `n` to `out`.
fn push_dec_nat(out: &mut String, n: u64)
    ensures
        final(out)@ == old(out)@ + dec_nat(n as nat),
    decreases n,
{
    if n >= 10 {
        push_dec_nat(out, n / 10);
    }
    let d = n % 10;
    let piece: &str = if d == 0 {
        "0"
    } else if d == 1 {
        "1"
    } else if d == 2 {
        "2"
    } else if d == 3 {
        "3"
    } else if d == 4 {
        "4"
    } else if d == 5 {
        "5"
    } else if d == 6 {
        "6"
    } else if d == 7 {
        "7"
    } else if d == 8 {
        "8"
    } else {
        "9"
    };
    proof {
        reveal_strlit("0");
        reveal_strlit("1");
        reveal_strlit("2");
        reveal_strlit("3");
        reveal_strlit("4");
        reveal_strlit("5");
        reveal_strlit("6");
        reveal_strlit("7");
        reveal_strlit("8");
        reveal_strlit("9");
        assert(piece@ =~= seq![digit_char((n % 10) as nat)]);
        if n < 10 {
            assert(dec_nat(n as nat) == seq![digit_char(n as nat)]);
        }
    }
    out.append(piece);
    proof {
        if n >= 10 {
            assert(final(out)@ =~= old(out)@ + dec_nat((n / 10) as nat).push(
                digit_char((n % 10) as nat),
            ));
        }
    }
}

/// Append the decimal form of a signed number to `out`.
pub fn push_i64(out: &mut String, n: i64)
    ensures
        final(out)@ == old(out)@ + dec_i64(n),
{
    if n < 0 {
        out.append("-");
        // The magnitude of `n` can exceed `i64::MAX` by one, so it is
        // computed without negating `n` itself.
        let mag: u64 = ((-(n + 1)) as u64) + 1;
        proof {
            reveal_strlit("-");
            assert("-"@ =~= seq!['-']);
        }
        push_dec_nat(out, mag);
        proof {
            assert(out@ =~= old(out)@ + dec_i64(n));
        }
    } else {
        push_dec_nat(out, n as u64);
    }
}

/// Render an unsigned number in decimal.
pub fn fmt_u64(n: u64) -> (r: String)
    ensures
        r@ == dec_u64(n),
{
    let mut out = String::new();
    push_dec_nat(&mut out, n);
    out
}

/// Render a signed number in decimal.
pub fn fmt_i64(n: i64) -> (r: String)
    ensures
        r@ == dec_i64(n),
{
    let mut out = String::new();
    if n < 0 {
        out.append("-");
        // The magnitude of `n` can exceed `i64::MAX` by one, so it is
        // computed without negating `n` itself.
        let mag: u64 = ((-(n + 1)) as u64) + 1;
        proof {
            reveal_strlit("-");
            assert("-"@ =~= seq!['-']);
        }
        push_dec_nat(&mut out, mag);
    } else {
        push_dec_nat(&mut out, n as u64);
    }
    out
}

} // verus!
