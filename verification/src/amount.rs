//! Exact decimal payment amounts.
//!
//! An [`Amount`] is a signed count of millionths, so every value a contract
//! can carry renders to an exact decimal string with no binary floating-point
//! artifacts, and parsing that string recovers the same value
//! (`lemma_parse_amount_text`).

use vstd::prelude::*;
use crate::num::{
    dec_of, dec_val, digit_char, digit_val, is_dec_seq, is_digit, parse_u64, parse_u64_spec,
    pow10, push_dec_u64, lemma_dec_of_digits, lemma_dec_val_of, lemma_dec_of_len,
    lemma_dec_val_lead_zero,
};

verus! {

/// How many millionths make one unit.
pub const MICROS_PER_UNIT: u64 = 1000000;

/// A decimal amount with six fractional digits, counted in millionths.
#[derive(Debug, Clone, Copy, PartialEq, Eq, Structural)]
pub struct Amount {
    /// The value in millionths of a unit; negative values are representable
    /// so that validation can describe them.
    pub micros: i64,
}

impl View for Amount {
    type V = int;

    open spec fn view(&self) -> int {
        self.micros as int
    }
}

impl Amount {
    /// The amount of zero units.
    pub fn zero() -> (r: Amount)
        ensures
            r@ == 0,
    {
        Amount { micros: 0 }
    }

    /// The amount counting `micros` millionths.
    pub fn from_micros(micros: i64) -> (r: Amount)
        ensures
            r@ == micros as int,
    {
        Amount { micros }
    }

    /// The amount of `units` whole units.
    pub fn from_units(units: i64) -> (r: Amount)
        requires
            -9000000000000 <= units <= 9000000000000,
        ensures
            r@ == units as int * 1000000,
    {
        Amount { micros: units * 1000000 }
    }

    /// Whether the amount is negative.
    pub fn is_negative(&self) -> (r: bool)
        ensures
            r == (self@ < 0),
    {
        self.micros < 0
    }

    /// Render the exact decimal text of the amount.
    pub fn render(&self) -> (r: String)
        ensures
            r@ == amount_text(self@),
    {
        let mut out = String::new();
        let mag: u64 = if self.micros < 0 {
            proof {
                assert(-(self.micros as i128) <= 0x8000000000000000i128);
            }
            (-(self.micros as i128)) as u64
        } else {
            self.micros as u64
        };
        if self.micros < 0 {
            proof {
                reveal_strlit("-");
            }
            out.append("-");
            proof {
                assert(out@ =~= seq!['-']);
            }
        }
        push_mag(&mut out, mag);
        proof {
            if self.micros < 0 {
                assert(out@ =~= amount_text(self@));
            }
        }
        out
    }
}

/// The decimal text of an amount of `m` millionths.
pub open spec fn amount_text(m: int) -> Seq<char> {
    if m < 0 {
        seq!['-'] + mag_text((-m) as nat)
    } else {
        mag_text(m as nat)
    }
}

/// The decimal text of a non-negative count of millionths.
pub open spec fn mag_text(u: nat) -> Seq<char> {
    if u % 1000000 == 0 {
        dec_of(u / 1000000)
    } else {
        dec_of(u / 1000000) + seq!['.'] + frac_text(u % 1000000)
    }
}

/// Drop trailing zero digits: the value and digit count left of a fraction
/// `f` rendered in `w` digits.
pub open spec fn strip10(f: nat, w: nat) -> (nat, nat)
    decreases w,
{
    if w <= 1 || f % 10 != 0 {
        (f, w)
    } else {
        strip10(f / 10, (w - 1) as nat)
    }
}

/// Zeros to bring `s` up to `w` characters.
pub open spec fn zeros(k: nat) -> Seq<char> {
    Seq::new(k, |i: int| '0')
}

/// `s` left-padded with zeros to width `w`.
pub open spec fn zero_pad(s: Seq<char>, w: nat) -> Seq<char> {
    if s.len() >= w {
        s
    } else {
        zeros((w - s.len()) as nat) + s
    }
}

/// The fractional digits of `f` millionths, trailing zeros dropped.
pub open spec fn frac_text(f: nat) -> Seq<char> {
    zero_pad(dec_of(strip10(f, 6).0), strip10(f, 6).1)
}

/// Append the decimal text of `mag` millionths to `out`.
fn push_mag(out: &mut String, mag: u64)
    ensures
        final(out)@ == old(out)@ + mag_text(mag as nat),
{
    let units = mag / MICROS_PER_UNIT;
    let frac = mag % MICROS_PER_UNIT;
    push_dec_u64(out, units);
    if frac == 0 {
        return;
    }
    proof {
        reveal_strlit(".");
    }
    out.append(".");
    let mut g = frac;
    let mut w: u64 = 6;
    proof {
        reveal_with_fuel(pow10, 8);
        assert(pow10(6) == 1000000);
    }
    while g % 10 == 0 && w > 1
        invariant
            1 <= w <= 6,
            strip10(g as nat, w as nat) == strip10(frac as nat, 6),
            g >= 1,
            (g as nat) < pow10(w as nat),
        decreases w,
    {
        proof {
            assert(pow10(w as nat) == 10 * pow10((w - 1) as nat));
            assert(((g / 10) as nat) < pow10((w - 1) as nat));
        }
        g = g / 10;
        w = w - 1;
    }
    proof {
        lemma_dec_of_len(g as nat, w as nat);
    }
    let digits = crate::num::u64_to_dec(g);
    let dlen = digits.as_str().unicode_len();
    let mut k: u64 = dlen as u64;
    while k < w
        invariant
            dlen as int <= k <= w <= 6,
            dlen == dec_of(g as nat).len(),
            out@ == old(out)@ + dec_of((mag / 1000000) as nat) + seq!['.'] + zeros(
                (k - dlen) as nat,
            ),
        decreases w - k,
    {
        proof {
            reveal_strlit("0");
        }
        out.append("0");
        proof {
            assert(zeros((k + 1 - dlen) as nat) =~= zeros((k - dlen) as nat).push('0'));
            assert(out@ =~= old(out)@ + dec_of((mag / 1000000) as nat) + seq!['.'] + zeros(
                (k + 1 - dlen) as nat,
            ));
        }
        k = k + 1;
    }
    out.append(digits.as_str());
    proof {
        assert(strip10(frac as nat, 6) == (g as nat, w as nat));
        assert(frac_text(frac as nat) == zero_pad(dec_of(g as nat), w as nat));
        if dlen >= w {
            assert(zeros((w - dlen) as nat) =~= Seq::<char>::empty());
            assert(zero_pad(dec_of(g as nat), w as nat) == dec_of(g as nat));
            assert(out@ =~= old(out)@ + mag_text(mag as nat));
        } else {
            assert(zero_pad(dec_of(g as nat), w as nat) == zeros((w - dlen) as nat) + dec_of(
                g as nat,
            ));
            assert(out@ =~= old(out)@ + mag_text(mag as nat));
        }
    }
}

/// The index of the first dot in `s`, or `s.len()` if there is none.
pub open spec fn first_dot(s: Seq<char>) -> int
    decreases s.len(),
{
    if s.len() == 0 {
        0
    } else if s[0] == '.' {
        0
    } else {
        1 + first_dot(s.subrange(1, s.len() as int))
    }
}

/// `first_dot` is characterised by its two defining properties.
pub proof fn lemma_first_dot_is(s: Seq<char>, k: int)
    requires
        0 <= k <= s.len(),
        k < s.len() ==> s[k] == '.',
        forall|j: int| 0 <= j < k ==> #[trigger] s[j] != '.',
    ensures
        first_dot(s) == k,
    decreases s.len(),
{
    if s.len() == 0 {
    } else if s[0] == '.' {
        assert(k == 0);
    } else {
        assert(k >= 1);
        let rest = s.subrange(1, s.len() as int);
        assert(k - 1 < rest.len() ==> rest[k - 1] == '.');
        assert forall|j: int| 0 <= j < k - 1 implies #[trigger] rest[j] != '.' by {
            assert(rest[j] == s[j + 1]);
        }
        lemma_first_dot_is(rest, k - 1);
    }
}

/// What parsing the whole-and-fraction part of an amount must yield: the
/// count of millionths, for a canonical rendering.
pub open spec fn parse_mag_spec(s: Seq<char>) -> Option<nat> {
    let k = first_dot(s);
    if k == s.len() {
        if s.len() >= 1 && is_dec_seq(s) {
            Some((dec_val(s) * 1000000) as nat)
        } else {
            None
        }
    } else {
        let ip = s.take(k);
        let fp = s.skip(k + 1);
        if ip.len() >= 1 && is_dec_seq(ip) && 1 <= fp.len() <= 6 && is_dec_seq(fp) && fp.last()
            != '0' {
            Some((dec_val(ip) * 1000000 + dec_val(fp) * pow10((6 - fp.len()) as nat)) as nat)
        } else {
            None
        }
    }
}

/// What parsing an amount must yield: a signed count of millionths that fits
/// the representation.
pub open spec fn parse_amount_spec(s: Seq<char>) -> Option<int> {
    if s.len() >= 1 && s[0] == '-' {
        match parse_mag_spec(s.skip(1)) {
            Some(u) => if u <= 0x8000000000000000 {
                Some(-(u as int))
            } else {
                None
            },
            None => None,
        }
    } else {
        match parse_mag_spec(s) {
            Some(u) => if u <= 0x7fffffffffffffff {
                Some(u as int)
            } else {
                None
            },
            None => None,
        }
    }
}

/// The value of a digit sequence is bounded by its width.
pub proof fn lemma_dec_val_bound(s: Seq<char>)
    requires
        is_dec_seq(s),
    ensures
        dec_val(s) < pow10(s.len()),
    decreases s.len(),
{
    if s.len() == 0 {
    } else {
        let d = s.drop_last();
        assert(is_dec_seq(d)) by {
            assert(forall|i: int| 0 <= i < d.len() ==> d[i] == s[i]);
        }
        lemma_dec_val_bound(d);
        assert(is_digit(s.last()));
        assert(digit_val(s.last()) <= 9);
        assert(pow10(s.len()) == 10 * pow10((s.len() - 1) as nat));
        assert(dec_val(d) * 10 <= (pow10(d.len()) - 1) * 10);
    }
}

/// Leading zeros do not change the value of a digit sequence.
pub proof fn lemma_dec_val_zeros(k: nat, s: Seq<char>)
    ensures
        dec_val(zeros(k) + s) == dec_val(s),
    decreases k,
{
    if k == 0 {
        assert(zeros(0) + s =~= s);
    } else {
        assert(zeros(k) + s =~= seq!['0'] + (zeros((k - 1) as nat) + s));
        crate::num::lemma_dec_val_lead_zero(zeros((k - 1) as nat) + s);
        lemma_dec_val_zeros((k - 1) as nat, s);
    }
}

/// What `strip10` guarantees about the stripped fraction.
pub proof fn lemma_strip10(f: nat, w: nat)
    requires
        1 <= f,
        f < pow10(w),
        1 <= w,
    ensures
        1 <= strip10(f, w).1 <= w,
        1 <= strip10(f, w).0,
        strip10(f, w).0 < pow10(strip10(f, w).1),
        f == strip10(f, w).0 * pow10((w - strip10(f, w).1) as nat),
        strip10(f, w).0 % 10 != 0 || strip10(f, w).0 <= 9,
    decreases w,
{
    if w <= 1 || f % 10 != 0 {
        assert(pow10(0) == 1);
        assert(f == f * pow10(0));
        if w == 1 {
            assert(pow10(1nat) == 10);
        }
    } else {
        assert(pow10(w) == 10 * pow10((w - 1) as nat));
        assert(f >= 10);
        assert(((f / 10) as nat) < pow10((w - 1) as nat));
        lemma_strip10(f / 10, (w - 1) as nat);
        let g = strip10(f, w).0;
        let w2 = strip10(f, w).1;
        let p = pow10(((w - 1) - w2) as nat);
        assert(f / 10 == g * p);
        assert(pow10((w - w2) as nat) == 10 * p);
        assert(f == 10 * (f / 10));
        assert(10 * (g * p) == g * (10 * p)) by (nonlinear_arith);
        assert(f == g * pow10((w - w2) as nat));
        assert(strip10(f, w) == strip10(f / 10, (w - 1) as nat));
    }
}

/// Parsing inverts the rendering of a magnitude.
pub proof fn lemma_parse_mag_text(u: nat)
    ensures
        parse_mag_spec(mag_text(u)) == Some(u),
{
    let units = u / 1000000;
    let frac = u % 1000000;
    let a = dec_of(units);
    lemma_dec_of_digits(units);
    lemma_dec_val_of(units);
    if frac == 0 {
        let s = mag_text(u);
        assert(s == a);
        assert forall|j: int| 0 <= j < s.len() implies #[trigger] s[j] != '.' by {
            assert(is_digit(s[j]));
        }
        lemma_first_dot_is(s, s.len() as int);
        assert(parse_mag_spec(s) == Some((dec_val(s) * 1000000) as nat));
    } else {
        reveal_with_fuel(pow10, 8);
        lemma_strip10(frac, 6);
        let g = strip10(frac, 6).0;
        let w2 = strip10(frac, 6).1;
        lemma_dec_of_digits(g);
        lemma_dec_val_of(g);
        lemma_dec_of_len(g, w2);
        let b = frac_text(frac);
        assert(b == zero_pad(dec_of(g), w2));
        assert(b.len() == w2) by {
            if dec_of(g).len() >= w2 {
                assert(dec_of(g).len() == w2);
            } else {
                assert(zeros((w2 - dec_of(g).len()) as nat).len() == w2 - dec_of(g).len());
            }
        }
        assert(is_dec_seq(b)) by {
            assert forall|j: int| 0 <= j < b.len() implies is_digit(#[trigger] b[j]) by {
                if dec_of(g).len() >= w2 {
                    assert(b[j] == dec_of(g)[j]);
                } else {
                    let nz = w2 - dec_of(g).len();
                    if j < nz {
                        assert(b[j] == '0');
                    } else {
                        assert(b[j] == dec_of(g)[j - nz]);
                    }
                }
            }
        }
        assert(dec_val(b) == g) by {
            if dec_of(g).len() >= w2 {
            } else {
                lemma_dec_val_zeros((w2 - dec_of(g).len()) as nat, dec_of(g));
            }
        }
        assert(b.last() != '0') by {
            assert(b.last() == dec_of(g).last()) by {
                if dec_of(g).len() < w2 {
                    assert(b[b.len() - 1] == dec_of(g)[dec_of(g).len() - 1]);
                }
            }
            if g < 10 {
                assert(dec_of(g).last() == digit_char(g as int));
            } else {
                assert(dec_of(g).last() == digit_char((g % 10) as int));
                assert(g % 10 != 0);
            }
        }
        let s = mag_text(u);
        assert(s == a + seq!['.'] + b);
        assert(s[a.len() as int] == '.');
        assert forall|j: int| 0 <= j < a.len() implies #[trigger] s[j] != '.' by {
            assert(s[j] == a[j]);
            assert(is_digit(a[j]));
        }
        lemma_first_dot_is(s, a.len() as int);
        let k = first_dot(s);
        assert(s.take(k) =~= a);
        assert(s.skip(k + 1) =~= b);
        assert(parse_mag_spec(s) == Some(
            (dec_val(a) * 1000000 + dec_val(b) * pow10((6 - b.len()) as nat)) as nat,
        ));
        assert(dec_val(a) * 1000000 + g * pow10((6 - w2) as nat) == u);
    }
}

/// Parsing inverts rendering for every representable amount.
pub proof fn lemma_parse_amount_text(m: int)
    requires
        -0x8000000000000000 <= m <= 0x7fffffffffffffff,
    ensures
        parse_amount_spec(amount_text(m)) == Some(m),
{
    if m < 0 {
        let u = (-m) as nat;
        lemma_parse_mag_text(u);
        let s = amount_text(m);
        assert(s == seq!['-'] + mag_text(u));
        assert(s[0] == '-');
        assert(s.skip(1) =~= mag_text(u));
        assert(u <= 0x8000000000000000);
    } else {
        let u = m as nat;
        lemma_parse_mag_text(u);
        let s = amount_text(m);
        assert(s == mag_text(u));
        lemma_dec_of_digits(u / 1000000);
        assert(s[0] != '-') by {
            assert(s[0] == dec_of(u / 1000000)[0]);
            assert(is_digit(dec_of(u / 1000000)[0]));
        }
        assert(u <= 0x7fffffffffffffff);
    }
}

/// Ten to a small power, executably.
pub fn pow10_u64(k: u64) -> (r: u64)
    requires
        k <= 6,
    ensures
        r == pow10(k as nat),
        r <= 1000000,
{
    proof {
        reveal_with_fuel(pow10, 8);
    }
    if k == 0 {
        1
    } else if k == 1 {
        10
    } else if k == 2 {
        100
    } else if k == 3 {
        1000
    } else if k == 4 {
        10000
    } else if k == 5 {
        100000
    } else {
        1000000
    }
}

/// Parse the magnitude part of an amount, exactly as `parse_mag_spec` says;
/// `None` also covers values too large for any representable amount.
fn parse_mag_exec(b: &str) -> (r: Option<u128>)
    ensures
        match r {
            Some(v) => parse_mag_spec(b@) == Some(v as nat),
            None => parse_mag_spec(b@) is None || (parse_mag_spec(b@) matches Some(u) && u
                > 0x8000000000000000),
        },
{
    let n = b.unicode_len();
    let mut j: usize = 0;
    while j < n && b.get_char(j) != '.'
        invariant
            0 <= j <= n,
            n == b@.len(),
            forall|m: int| 0 <= m < j ==> #[trigger] b@[m] != '.',
        decreases n - j,
    {
        j = j + 1;
    }
    proof {
        assert(j < n ==> b@[j as int] == '.');
        lemma_first_dot_is(b@, j as int);
    }
    if j == n {
        match parse_u64(b) {
            Some(u) => {
                let v = (u as u128) * 1000000;
                proof {
                    assert(parse_u64_spec(b@) == Some(u));
                    assert(dec_val(b@) == u as nat);
                }
                Some(v)
            },
            None => {
                proof {
                    if b@.len() >= 1 && is_dec_seq(b@) {
                        assert(dec_val(b@) > u64::MAX);
                        assert(dec_val(b@) * 1000000 >= dec_val(b@) * 1) by (nonlinear_arith);
                    }
                }
                None
            },
        }
    } else {
        let ip = b.substring_char(0, j);
        let fp = b.substring_char(j + 1, n);
        proof {
            assert(ip@ =~= b@.take(j as int));
            assert(fp@ =~= b@.skip(j as int + 1));
        }
        let flen = n - (j + 1);
        if flen < 1 || flen > 6 {
            return None;
        }
        if fp.get_char(flen - 1) == '0' {
            proof {
                assert(fp@.last() == fp@[flen - 1]);
            }
            return None;
        }
        let fu = match parse_u64(fp) {
            Some(fu) => fu,
            None => {
                proof {
                    if fp@.len() >= 1 && is_dec_seq(fp@) {
                        lemma_dec_val_bound(fp@);
                        reveal_with_fuel(pow10, 8);
                        assert(pow10(fp@.len()) <= pow10(6)) by {
                            if fp@.len() <= 5 {
                                assert(pow10(fp@.len()) <= 1000000);
                            }
                        }
                        assert(false);
                    }
                }
                return None;
            },
        };
        match parse_u64(ip) {
            Some(u) => {
                proof {
                    lemma_dec_val_bound(fp@);
                    reveal_with_fuel(pow10, 8);
                }
                let pw = pow10_u64(6 - flen as u64);
                proof {
                    assert((fu as int) * (pw as int) <= 0xffffffffffffffff * 1000000)
                        by (nonlinear_arith)
                        requires
                            0 <= fu <= 0xffffffffffffffff,
                            0 <= pw <= 1000000,
                    ;
                }
                let whole: u128 = (u as u128) * 1000000;
                let part: u128 = (fu as u128) * (pw as u128);
                let v = whole + part;
                Some(v)
            },
            None => {
                proof {
                    if ip@.len() >= 1 && is_dec_seq(ip@) {
                        assert(dec_val(ip@) > u64::MAX);
                        assert(dec_val(ip@) * 1000000 >= dec_val(ip@) * 1) by (nonlinear_arith);
                    }
                }
                None
            },
        }
    }
}

/// Parse the decimal text of an amount.
pub fn parse_amount(s: &str) -> (r: Option<Amount>)
    ensures
        match r {
            Some(a) => parse_amount_spec(s@) == Some(a@),
            None => parse_amount_spec(s@) is None,
        },
{
    let n = s.unicode_len();
    if n == 0 {
        return None;
    }
    let neg = s.get_char(0) == '-';
    let body = if neg {
        s.substring_char(1, n)
    } else {
        s
    };
    proof {
        if neg {
            assert(body@ =~= s@.skip(1));
        }
    }
    match parse_mag_exec(body) {
        Some(v) => {
            if neg {
                if v <= 0x8000000000000000u128 {
                    let micros: i64 = (-(v as i128)) as i64;
                    proof {
                        assert(micros as int == -(v as int));
                    }
                    Some(Amount { micros })
                } else {
                    None
                }
            } else {
                if v <= 0x7fffffffffffffffu128 {
                    Some(Amount { micros: v as i64 })
                } else {
                    None
                }
            }
        },
        None => None,
    }
}

} // verus!
