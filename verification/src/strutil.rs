//! Small verified string utilities shared across the crate.

use vstd::prelude::*;
use crate::parse::{is_digit, digit_val, digits_val, all_digits};

verus! {

/// Character-wise string equality.
pub fn str_eq(a: &str, b: &str) -> (r: bool)
    ensures
        r == (a@ == b@),
{
    let n = a.unicode_len();
    if n != b.unicode_len() {
        return false;
    }
    let mut i: usize = 0;
    while i < n
        invariant
            i <= n,
            n == a@.len(),
            n == b@.len(),
            forall|x: int| 0 <= x < i ==> a@[x] == b@[x],
        decreases n - i,
    {
        if a.get_char(i) != b.get_char(i) {
            return false;
        }
        i = i + 1;
    }
    assert(a@ =~= b@);
    true
}

/// Relies on `String::push`: appends exactly one character.
#[verifier::external_body]
pub fn push_char(s: &mut String, c: char)
    ensures
        final(s)@ == old(s)@.push(c),
{
    s.push(c);
}

/// The digit character of a value below ten.
pub open spec fn digit_char(n: int) -> char {
    (48 + n) as char
}

/// Decimal digits of a number, most significant first, without leading
/// zeroes.
pub open spec fn dec_rep(n: int) -> Seq<char>
    decreases n,
{
    if n < 10 {
        seq![digit_char(n)]
    } else {
        dec_rep(n / 10).push(digit_char(n % 10))
    }
}

proof fn lemma_dec_rep_props(n: int)
    requires
        n >= 0,
    ensures
        all_digits(dec_rep(n)),
        digits_val(dec_rep(n)) == n,
        dec_rep(n).len() >= 1,
        dec_rep(n).len() > 1 ==> dec_rep(n)[0] != '0',
    decreases n,
{
    if n < 10 {
        let s = dec_rep(n);
        assert(s.len() == 1);
        assert(s[0] == digit_char(n));
        assert(digit_char(n) as int == 48 + n);
        assert(is_digit(s[0]));
        assert(s.drop_last() =~= Seq::<char>::empty());
        assert(digits_val(Seq::<char>::empty()) == 0);
        assert(digits_val(s.drop_last()) == 0);
        assert(s.last() == s[0]);
        assert(digits_val(s) == digits_val(s.drop_last()) * 10 + digit_val(s.last()));
        assert(digits_val(s) == digit_val(s[0]));
    } else {
        lemma_dec_rep_props(n / 10);
        let front = dec_rep(n / 10);
        let s = dec_rep(n);
        assert(s.drop_last() =~= front);
        assert(s.last() == digit_char(n % 10));
        assert(digit_char(n % 10) as int == 48 + n % 10);
        assert(is_digit(s.last()));
        assert(forall|i: int| 0 <= i < s.len() ==> is_digit(s[i])) by {
            assert(forall|i: int| 0 <= i < front.len() ==> s[i] == front[i]);
        }
        assert(digits_val(s) == digits_val(front) * 10 + digit_val(s.last()));
        assert(n / 10 * 10 + n % 10 == n);
        assert(s[0] == front[0]);
        if n / 10 < 10 {
            assert(front == seq![digit_char(n / 10)]);
            assert(front[0] == digit_char(n / 10));
            assert(digit_char(n / 10) as int == 48 + n / 10);
            assert(n / 10 >= 1);
            assert('0' as int == 48);
            assert(front[0] != '0');
        } else {
            lemma_dec_rep_props(n / 100);
            assert(front == dec_rep(n / 100).push(digit_char(n / 10 % 10)));
            assert(front.len() > 1);
            assert(front[0] != '0');
        }
    }
}

fn push_decimal(s: &mut String, n: u64)
    ensures
        final(s)@ == old(s)@ + dec_rep(n as int),
    decreases n,
{
    if n >= 10 {
        push_decimal(s, n / 10);
    }
    let d = (48 + (n % 10) as u8) as char;
    assert(d == digit_char(n as int % 10));
    push_char(s, d);
    proof {
        if n < 10 {
            assert(n as int % 10 == n as int);
            assert(final(s)@ =~= old(s)@ + dec_rep(n as int));
        } else {
            assert(final(s)@ =~= old(s)@ + dec_rep(n as int));
        }
    }
}

/// Render a number in decimal: digits only, no leading zero.
pub fn u64_to_string(n: u64) -> (r: String)
    ensures
        r@ == dec_rep(n as int),
        all_digits(r@),
        digits_val(r@) == n,
        r@.len() >= 1,
        r@.len() > 1 ==> r@[0] != '0',
{
    let mut r = String::new();
    push_decimal(&mut r, n);
    proof {
        lemma_dec_rep_props(n as int);
        assert(r@ =~= dec_rep(n as int));
    }
    r
}

} // verus!
