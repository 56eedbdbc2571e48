//! The Luhn checksum, stated over sequences of characters.

use vstd::prelude::*;
use crate::text::{digit_char, digit_value, is_digit, char_is_digit};

verus! {

/// The values of the digit characters of `s`, in order; other characters are skipped.
pub open spec fn digits_of(s: Seq<char>) -> Seq<nat>
    decreases s.len(),
{
    if s.len() == 0 {
        seq![]
    } else if is_digit(s.last()) {
        digits_of(s.drop_last()).push(digit_value(s.last()))
    } else {
        digits_of(s.drop_last())
    }
}

/// The contribution of one digit: doubled digits above nine lose nine.
pub open spec fn luhn_term(d: nat, doubled: bool) -> nat {
    if !doubled {
        d
    } else if 2 * d > 9 {
        (2 * d - 9) as nat
    } else {
        2 * d
    }
}

/// The Luhn sum of `ds`, read from the right; the rightmost digit is
/// doubled when `doubled` holds, and doubling alternates from there.
pub open spec fn luhn_sum(ds: Seq<nat>, doubled: bool) -> nat
    decreases ds.len(),
{
    if ds.len() == 0 {
        0
    } else {
        luhn_term(ds.last(), doubled) + luhn_sum(ds.drop_last(), !doubled)
    }
}

/// The Luhn checksum of the digits of `s`, a value in `0..10`.
pub open spec fn checksum_of(s: Seq<char>) -> nat {
    luhn_sum(digits_of(s), false) % 10
}

/// Whether the digits of `s` pass the Luhn check.
pub open spec fn luhn_valid(s: Seq<char>) -> bool {
    checksum_of(s) == 0
}

/// The digit that, appended to `prefix`, makes it pass the Luhn check.
pub open spec fn check_digit_of(prefix: Seq<char>) -> nat {
    ((10 - checksum_of(prefix.push('0'))) % 10) as nat
}

/// Appending its check digit to a digit string makes a Luhn-valid number.
/// (Characters other than digits are skipped by the checksum, so this holds
/// of every string.)
pub proof fn lemma_check_digit_completes(d: Seq<char>)
    ensures
        luhn_valid(d.push(digit_char(check_digit_of(d)))),
{
    let c = check_digit_of(d);
    let with_zero = d.push('0');
    let with_check = d.push(digit_char(c));
    assert(with_zero.drop_last() =~= d);
    assert(with_check.drop_last() =~= d);
    assert(digit_value(digit_char(c)) == c);
    let rest = luhn_sum(digits_of(d), true);
    assert(digits_of(with_zero) == digits_of(d).push(0));
    assert(digits_of(with_check) == digits_of(d).push(c));
    assert(digits_of(d).push(0).drop_last() =~= digits_of(d));
    assert(digits_of(d).push(c).drop_last() =~= digits_of(d));
    assert(luhn_sum(digits_of(with_zero), false) == rest);
    assert(luhn_sum(digits_of(with_check), false) == c + rest);
    assert((c + rest) % 10 == 0) by (nonlinear_arith)
        requires
            c == ((10 - rest % 10) % 10) as nat,
    {}
}

/// The digit values of `s`, as `digits_of` describes them.
pub fn digit_values(s: &str) -> (r: Vec<u8>)
    ensures
        r@.len() == digits_of(s@).len(),
        forall|i: int| 0 <= i < r@.len() ==> r@[i] as nat == #[trigger] digits_of(s@)[i],
{
    let n = s.unicode_len();
    let mut r: Vec<u8> = Vec::new();
    let mut i: usize = 0;
    while i < n
        invariant
            n == s@.len(),
            i <= n,
            r@.len() == digits_of(s@.subrange(0, i as int)).len(),
            forall|k: int| 0 <= k < r@.len() ==> r@[k] as nat == #[trigger] digits_of(s@.subrange(0, i as int))[k],
        decreases n - i,
    {
        let c = s.get_char(i);
        assert(s@.subrange(0, i + 1).drop_last() =~= s@.subrange(0, i as int));
        if char_is_digit(c) {
            r.push((c as u32 - 48) as u8);
        }
        i = i + 1;
    }
    assert(s@.subrange(0, n as int) =~= s@);
    r
}

/// The Luhn checksum of the digits of `s`.
pub fn checksum(s: &str) -> (r: u32)
    ensures
        r as nat == checksum_of(s@),
        r < 10,
{
    let ds = digit_values(s);
    let ghost all = digits_of(s@);
    assert(ds@.len() == all.len());
    let n = ds.len();
    let mut acc: u32 = 0;
    let mut k: usize = 0;
    assert(all.subrange(0, n as int) =~= all);
    while k < n
        invariant
            n == ds@.len(),
            n == all.len(),
            all == digits_of(s@),
            forall|i: int| 0 <= i < n ==> ds@[i] as nat == #[trigger] all[i],
            k <= n,
            acc < 10,
            (acc + luhn_sum(all.subrange(0, n - k), k % 2 == 1)) % 10 == luhn_sum(all, false) % 10,
        decreases n - k,
    {
        let d = ds[n - 1 - k] as u32;
        assert(d as nat == all[n - 1 - k]);
        proof {
            let j: int = n - 1 - k;
            lemma_digits_below_ten(s@, j);
        }
        let doubled = k % 2 == 1;
        let t: u32 = if !doubled {
            d
        } else if 2 * d > 9 {
            2 * d - 9
        } else {
            2 * d
        };
        let ghost p = all.subrange(0, n - k);
        assert(p.drop_last() =~= all.subrange(0, n - (k + 1)));
        assert(t as nat == luhn_term(p.last(), doubled));
        let ghost rest = luhn_sum(all.subrange(0, n - (k + 1)), !doubled);
        assert(luhn_sum(p, doubled) == t + rest);
        let ghost old_acc = acc;
        acc = (acc + t) % 10;
        assert((acc + rest) % 10 == (old_acc + t + rest) % 10) by (nonlinear_arith)
            requires
                acc == (old_acc + t) % 10,
        {}
        assert((k + 1) % 2 == 1 <==> !doubled);
        k = k + 1;
    }
    assert(all.subrange(0, 0) =~= Seq::<nat>::empty());
    acc
}

/// Every value in `digits_of(s)` is below ten.
pub proof fn lemma_digits_below_ten(s: Seq<char>, i: int)
    requires
        0 <= i < digits_of(s).len(),
    ensures
        digits_of(s)[i] < 10,
    decreases s.len(),
{
    if s.len() > 0 {
        let p = digits_of(s.drop_last());
        if is_digit(s.last()) {
            if i < p.len() {
                lemma_digits_below_ten(s.drop_last(), i);
            }
        } else {
            lemma_digits_below_ten(s.drop_last(), i);
        }
    }
}

} // verus!
