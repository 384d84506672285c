//! Exact fractions: configured limits in parts per million, and measured ratios of two counts.

use vstd::prelude::*;

use crate::text::{all_digits, dec, digits_value, is_digit, lemma_dec_value, u128_text};

verus! {

/// A fraction in parts per million: one percent is 10 000.
#[derive(Debug, Clone, Copy, PartialEq, Eq, PartialOrd, Ord, Structural)]
pub struct Fraction {
    pub ppm: u32,
}

/// The ratio `part / whole`.
#[derive(Debug, Clone, Copy, PartialEq, Eq, Structural)]
pub struct Ratio {
    pub part: u128,
    pub whole: u128,
}

/// The largest count that a ratio is made of.
pub const RATIO_MAX: u128 = 0x1_0000_0000_0000_0000_0000_0000;

/// `n / d` to the nearest integer; halfway between two, to the even one.
pub open spec fn rounded(n: nat, d: nat) -> nat
    recommends
        d > 0,
{
    let q = n / d;
    let r = n % d;
    if 2 * r > d || (2 * r == d && q % 2 == 1) {
        q + 1
    } else {
        q
    }
}

/// `digits` zeros, as far as `n` has fewer digits than `digits`.
pub open spec fn zero_padded(n: nat, digits: nat) -> Seq<char> {
    let s = dec(n);
    if s.len() < digits {
        Seq::new((digits - s.len()) as nat, |i: int| '0') + s
    } else {
        s
    }
}

/// `n` as a decimal fraction whose last `digits` digits stand behind the point.
pub open spec fn point_text(n: nat, digits: nat, scale: nat) -> Seq<char> {
    dec(n / scale) + "."@ + zero_padded(n % scale, digits)
}

impl Ratio {
    /// A ratio of counts within range, with a whole that is not zero.
    pub open spec fn wf(self) -> bool {
        &&& self.part <= RATIO_MAX
        &&& 0 < self.whole <= RATIO_MAX
    }

    /// Whether the ratio is at least the fraction of `ppm` parts per million.
    pub open spec fn reaches(self, limit: Fraction) -> bool {
        self.part * 1_000_000 >= limit.ppm * self.whole
    }

    /// The ratio as a percentage with `digits` decimals, where `scale` is ten to that power.
    pub open spec fn percent_text(self, digits: nat, scale: nat) -> Seq<char> {
        point_text(rounded((self.part * 100 * scale) as nat, self.whole as nat), digits, scale)
    }

    /// Whether the ratio is at least `limit`.
    pub fn at_least(&self, limit: Fraction) -> (r: bool)
        requires
            self.wf(),
        ensures
            r == self.reaches(limit),
    {
        assert(limit.ppm * self.whole <= 0xffff_ffff * RATIO_MAX) by (nonlinear_arith)
            requires
                self.whole <= RATIO_MAX,
                limit.ppm <= 0xffff_ffff,
        ;
        self.part * 1_000_000 >= limit.ppm as u128 * self.whole
    }

    /// The ratio as a percentage with three decimals.
    pub fn percent_three(&self) -> (r: String)
        requires
            self.wf(),
        ensures
            r@ == self.percent_text(3, 1000),
    {
        let n: u128 = round_div(self.part * 100 * 1000, self.whole);
        u128_text(n / 1000).concat(".").concat(padded_text(n % 1000, 3).as_str())
    }

    /// The ratio as a percentage with one decimal.
    pub fn percent_one(&self) -> (r: String)
        requires
            self.wf(),
        ensures
            r@ == self.percent_text(1, 10),
    {
        let n: u128 = round_div(self.part * 100 * 10, self.whole);
        u128_text(n / 10).concat(".").concat(padded_text(n % 10, 1).as_str())
    }
}

/// `n / d` to the nearest integer; halfway between two, to the even one.
fn round_div(n: u128, d: u128) -> (r: u128)
    requires
        0 < d <= RATIO_MAX,
        n <= 100_000 * RATIO_MAX,
    ensures
        r == rounded(n as nat, d as nat),
        r <= n + 1,
{
    let q: u128 = n / d;
    let m: u128 = n % d;
    assert(q <= n) by (nonlinear_arith)
        requires
            q == n / d,
            d > 0,
            n >= 0,
    ;
    if 2 * m > d || (2 * m == d && q % 2 == 1) {
        q + 1
    } else {
        q
    }
}

/// The numeral of `n`, filled up with leading zeros to `digits` digits.
fn padded_text(n: u128, digits: usize) -> (r: String)
    ensures
        r@ == zero_padded(n as nat, digits as nat),
{
    let s = u128_text(n);
    let len: usize = crate::text::char_count(s.as_str());
    let mut out = String::new();
    let mut i: usize = len;
    while i < digits
        invariant
            len == dec(n as nat).len(),
            len <= i,
            i <= digits || i == len,
            out@ == Seq::new((i - len) as nat, |j: int| '0'),
        decreases digits - i,
    {
        out.push('0');
        i = i + 1;
        assert(out@ =~= Seq::new((i - len) as nat, |j: int| '0'));
    }
    out.append(s.as_str());
    assert(out@ =~= zero_padded(n as nat, digits as nat));
    out
}

// ---------------------------------------------------------------------------
// Laws

/// A rounded quotient is off by no more than half of one, and is even where it is off by just that.
pub proof fn rounding_is_to_the_nearest(n: nat, d: nat)
    requires
        d > 0,
    ensures
        2 * (rounded(n, d) * d - n) <= d,
        2 * (n - rounded(n, d) * d) <= d,
        n % d == 0 ==> rounded(n, d) * d == n,
        2 * (rounded(n, d) * d - n) == d || 2 * (n - rounded(n, d) * d) == d ==> rounded(n, d) % 2 == 0,
{
    let q = n / d;
    let r = n % d;
    assert(q * d + r == n && r < d) by (nonlinear_arith)
        requires
            d > 0,
            q == n / d,
            r == n % d,
    ;
    assert((q + 1) * d == q * d + d) by (nonlinear_arith);
}

/// A ratio reaches a limit exactly where the limit's share of the whole is no more than the part.
pub proof fn limits_are_shares(r: Ratio, limit: Fraction)
    ensures
        r.reaches(limit) <==> limit.ppm * r.whole <= 1_000_000 * r.part,
        r.whole > 0 && r.part == r.whole && limit.ppm <= 1_000_000 ==> r.reaches(limit),
        r.part == 0 && r.whole > 0 && limit.ppm > 0 ==> !r.reaches(limit),
{
    let (p, w, l) = (r.part as int, r.whole as int, limit.ppm as int);
    if w > 0 && p == w && l <= 1_000_000 {
        assert(p * 1_000_000 >= l * w) by (nonlinear_arith)
            requires
                p == w,
                w > 0,
                l <= 1_000_000,
        ;
    }
    if p == 0 && w > 0 && l > 0 {
        assert(l * w > 0) by (nonlinear_arith)
            requires
                l > 0,
                w > 0,
        ;
    }
}

proof fn lemma_zero_padded(n: nat, digits: nat)
    ensures
        all_digits(zero_padded(n, digits)),
        digits_value(zero_padded(n, digits)) == n,
        zero_padded(n, digits).len() >= digits,
        dec(n).len() <= digits ==> zero_padded(n, digits).len() == digits,
{
    lemma_dec_value(n);
    let s = dec(n);
    if s.len() < digits {
        let z = (digits - s.len()) as nat;
        let zeros = Seq::new(z, |i: int| '0');
        assert forall|i: int| 0 <= i < (zeros + s).len() implies is_digit(
            #[trigger] (zeros + s)[i],
        ) by {
            if i >= z {
                assert((zeros + s)[i] == s[i - z]);
            }
        }
        lemma_leading_zeros(z, s);
    }
}

proof fn lemma_leading_zeros(z: nat, s: Seq<char>)
    ensures
        digits_value(Seq::new(z, |i: int| '0') + s) == digits_value(s),
    decreases s.len(), z,
{
    let zeros = Seq::new(z, |i: int| '0');
    if s.len() == 0 {
        assert(zeros + s =~= zeros);
        if z > 0 {
            let fewer = Seq::new((z - 1) as nat, |i: int| '0');
            assert(zeros.drop_last() =~= fewer);
            lemma_leading_zeros((z - 1) as nat, s);
            assert(fewer + s =~= fewer);
        }
    } else {
        assert((zeros + s).drop_last() =~= zeros + s.drop_last());
        lemma_leading_zeros(z, s.drop_last());
    }
}

/// A percentage is written with a point: what stands before and behind it, read as numbers, is the
/// percentage, rounded to so many places.
pub proof fn percentages_are_written_out(r: Ratio, digits: nat, scale: nat)
    requires
        r.wf(),
        scale > 0,
    ensures
        exists|whole: Seq<char>, behind: Seq<char>|
            {
                &&& r.percent_text(digits, scale) == #[trigger] (whole + "."@ + behind)
                &&& all_digits(whole) && all_digits(behind)
                &&& behind.len() >= digits
                &&& digits_value(behind) < scale
                &&& digits_value(whole) * scale + digits_value(behind) == rounded(
                    (r.part * 100 * scale) as nat,
                    r.whole as nat,
                )
            },
{
    let n = rounded((r.part * 100 * scale) as nat, r.whole as nat);
    lemma_dec_value(n / scale);
    lemma_zero_padded(n % scale, digits);
    assert((n / scale) * scale + n % scale == n && n % scale < scale) by (nonlinear_arith)
        requires
            scale > 0,
    ;
    let whole = dec(n / scale);
    let behind = zero_padded(n % scale, digits);
    assert(r.percent_text(digits, scale) == whole + "."@ + behind);
}

} // verus!
