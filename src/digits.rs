//! Hexadecimal and decimal renderings of machine words for the diagnostic
//! byte sink, built without allocation.

use vstd::prelude::*;

verus! {

/// Capacity of a [`Digits`] buffer: enough for any 64-bit value in decimal.
pub const MAX_DIGITS: usize = 20;

/// The ASCII digit for `d` (0-9, then uppercase A-F).
pub open spec fn digit_char(d: nat) -> u8 {
    if d < 10 {
        (48 + d) as u8
    } else {
        (55 + d) as u8
    }
}

/// The digits of `v` in base `base`, most significant first, without leading
/// zeros; zero is the single digit "0".
pub open spec fn digits_of(v: nat, base: nat) -> Seq<u8>
    decreases v
    via digits_of_decreases
{
    if base < 2 || v < base {
        seq![digit_char(v)]
    } else {
        digits_of(v / base, base).push(digit_char(v % base))
    }
}

#[via_fn]
proof fn digits_of_decreases(v: nat, base: nat) {
    if !(base < 2 || v < base) {
        vstd::arithmetic::div_mod::lemma_div_decreases(v as int, base as int);
    }
}

/// `b` to the power `k`.
pub open spec fn power(b: nat, k: nat) -> nat
    decreases k,
{
    if k == 0 {
        1
    } else {
        b * power(b, (k - 1) as nat)
    }
}

/// The rendered digits of a number.
pub struct Digits {
    buf: [u8; MAX_DIGITS],
    len: usize,
}

impl View for Digits {
    type V = Seq<u8>;

    closed spec fn view(&self) -> Seq<u8> {
        self.buf@.take(self.len as int)
    }
}

impl Digits {
    pub closed spec fn wf(&self) -> bool {
        self.len <= MAX_DIGITS
    }

    /// Number of digits.
    pub fn len(&self) -> (r: usize)
        requires
            self.wf(),
        ensures
            r == self@.len(),
    {
        self.len
    }

    /// Digit `i`, most significant first.
    pub fn get(&self, i: usize) -> (r: u8)
        requires
            self.wf(),
            i < self@.len(),
        ensures
            r == self@[i as int],
    {
        self.buf[i]
    }
}

proof fn lemma_digits_len(v: nat, b: nat, k: nat)
    requires
        b >= 2,
        k >= 1,
        v < power(b, k),
    ensures
        digits_of(v, b).len() <= k,
    decreases v,
{
    if v >= b {
        assert(power(b, k) == b * power(b, (k - 1) as nat));
        if k == 1 {
            assert(power(b, 0) == 1);
            assert(power(b, 1) == b * power(b, 0));
            assert(b * 1 == b);
            assert(power(b, k) == b);
        }
        vstd::arithmetic::div_mod::lemma_multiply_divide_lt(v as int, b as int, power(b, (k - 1) as nat) as int);
        vstd::arithmetic::div_mod::lemma_div_decreases(v as int, b as int);
        lemma_digits_len(v / b, b, (k - 1) as nat);
    }
}

proof fn lemma_word_fits(v: usize, b: nat)
    requires
        b == 10 || b == 16,
    ensures
        digits_of(v as nat, b).len() <= MAX_DIGITS,
{
    reveal_with_fuel(power, 21);
    if b == 10 {
        assert(power(10, 20) == 100_000_000_000_000_000_000nat);
    } else {
        assert(power(16, 20) == 0x1_0000_0000_0000_0000_0000nat);
    }
    lemma_digits_len(v as nat, b, 20);
}

/// The digits of `val` in base `base` (10 or 16).
fn render(val: usize, base: usize) -> (d: Digits)
    requires
        base == 10 || base == 16,
    ensures
        d.wf(),
        d@ == digits_of(val as nat, base as nat),
{
    proof {
        lemma_word_fits(val, base as nat);
    }
    let ghost all = digits_of(val as nat, base as nat);
    let mut tmp = [0u8; MAX_DIGITS];
    let mut n: usize = 0;
    let mut v: usize = val;
    loop
        invariant_except_break
            n + digits_of(v as nat, base as nat).len() == all.len(),
            all == digits_of(v as nat, base as nat) + Seq::new(n as nat, |i: int| tmp@[n - 1 - i]),
        invariant
            base == 10 || base == 16,
            all == digits_of(val as nat, base as nat),
            all.len() <= MAX_DIGITS,
        ensures
            n <= MAX_DIGITS,
            all == Seq::new(n as nat, |i: int| tmp@[n - 1 - i]),
        decreases v,
    {
        let d = v % base;
        let c: u8 = if d < 10 {
            48 + d as u8
        } else {
            55 + d as u8
        };
        let ghost before = Seq::new(n as nat, |i: int| tmp@[n - 1 - i]);
        assert(digits_of(v as nat, base as nat).len() >= 1);
        tmp[n] = c;
        n = n + 1;
        let ghost after = Seq::new(n as nat, |i: int| tmp@[n - 1 - i]);
        assert(after =~= seq![c] + before);
        if v < base {
            proof {
                vstd::arithmetic::div_mod::lemma_small_mod(v as nat, base as nat);
                assert(digits_of(v as nat, base as nat) == seq![c]);
            }
            assert(all =~= after);
            break;
        }
        let ghost vv = v;
        v = v / base;
        proof {
            vstd::arithmetic::div_mod::lemma_div_decreases(vv as int, base as int);
            assert(digits_of(vv as nat, base as nat) == digits_of(v as nat, base as nat).push(c));
            assert(all =~= digits_of(v as nat, base as nat) + after);
        }
    }
    let mut buf = [0u8; MAX_DIGITS];
    let mut j: usize = 0;
    while j < n
        invariant
            n <= MAX_DIGITS,
            j <= n,
            all == Seq::new(n as nat, |i: int| tmp@[n - 1 - i]),
            forall|i: int| 0 <= i < j ==> buf@[i] == all[i],
        decreases n - j,
    {
        buf[j] = tmp[n - 1 - j];
        j = j + 1;
    }
    let d = Digits { buf, len: n };
    assert(d@ =~= all);
    d
}

/// The uppercase hexadecimal digits of `val`, without prefix or leading
/// zeros ("0" for zero), as the diagnostic sink prints them.
pub fn put_hex(val: usize) -> (d: Digits)
    ensures
        d.wf(),
        d@ == digits_of(val as nat, 16),
{
    render(val, 16)
}

/// The decimal digits of `val`, without leading zeros ("0" for zero), as the
/// diagnostic sink prints them.
pub fn put_dec(val: usize) -> (d: Digits)
    ensures
        d.wf(),
        d@ == digits_of(val as nat, 10),
{
    render(val, 10)
}

} // verus!
