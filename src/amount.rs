//! Monetary amounts, held as whole numbers of ten-thousandths.

use vstd::prelude::*;

verus! {

/// Ten to the power `n`.
pub open spec fn pow10(n: nat) -> int
    decreases n,
{
    if n == 0 {
        1
    } else {
        10 * pow10((n - 1) as nat)
    }
}

/// The largest mantissa that a decimal of the outside crate holds: 2^96 - 1.
pub const MAX_MANTISSA: i128 = 0xFFFF_FFFF_FFFF_FFFF_FFFF_FFFF;

/// The largest scale that a decimal of the outside crate holds.
pub const MAX_SCALE: u32 = 28;

/// `mantissa / 10^scale` rounded to four fractional digits, ties away from
/// zero, counted in ten-thousandths.
pub open spec fn round_units(mantissa: int, scale: nat) -> int {
    if scale <= 4 {
        mantissa * pow10((4 - scale) as nat)
    } else {
        let d = pow10((scale - 4) as nat);
        let a = if mantissa < 0 { -mantissa } else { mantissa };
        let q = if 2 * (a % d) >= d { a / d + 1 } else { a / d };
        if mantissa < 0 { -q } else { q }
    }
}

/// What the outside decimal parser reads from a text: its mantissa and scale,
/// or nothing where the text is no decimal.
pub uninterp spec fn decimal_parts(s: Seq<char>) -> Option<(int, nat)>;

/// The outside decimal `units / 10^4` written out, with its four fractional digits.
pub uninterp spec fn decimal_text(units: int) -> Seq<char>;

/// Relies on rust_decimal's `Decimal::from_str` (with `mantissa` and `scale`
/// to read the result): a decimal has a 96-bit mantissa and a scale of at
/// most 28, and the empty text is refused.
#[verifier::external_body]
fn parse_decimal(s: &str) -> (r: Option<(i128, u32)>)
    ensures
        match r {
            Some(p) => {
                &&& decimal_parts(s@) == Some((p.0 as int, p.1 as nat))
                &&& -MAX_MANTISSA <= p.0 <= MAX_MANTISSA
                &&& p.1 <= MAX_SCALE
            },
            None => decimal_parts(s@) is None,
        },
        s@.len() == 0 ==> r is None,
{
    match <rust_decimal::Decimal as std::str::FromStr>::from_str(s) {
        Ok(d) => Some((d.mantissa(), d.scale())),
        Err(_) => None,
    }
}

/// Relies on rust_decimal's `Decimal::from_i128_with_scale` (which panics
/// beyond a 96-bit mantissa) and its `Display`, to write `units / 10^4`.
#[verifier::external_body]
fn render_units(units: i128) -> (r: String)
    requires
        -MAX_MANTISSA <= units <= MAX_MANTISSA,
    ensures
        r@ == decimal_text(units as int),
{
    rust_decimal::Decimal::from_i128_with_scale(units, 4).to_string()
}

/// The amount that a text denotes under the rounding policy.
pub open spec fn text_amount(s: Seq<char>) -> Option<Amount> {
    match decimal_parts(s) {
        Some((mantissa, scale)) => Some(Amount { units: round_units(mantissa, scale) as i128 }),
        None => None,
    }
}

/// An amount of money: `units` ten-thousandths.
#[derive(Clone, Copy, Debug, PartialEq, Eq, Structural)]
pub struct Amount {
    pub units: i128,
}

proof fn lemma_pow10_positive(n: nat)
    ensures
        pow10(n) >= 1,
    decreases n,
{
    if n > 0 {
        lemma_pow10_positive((n - 1) as nat);
    }
}

proof fn lemma_pow10_monotonic(i: nat, j: nat)
    requires
        i <= j,
    ensures
        pow10(i) <= pow10(j),
    decreases j,
{
    if i < j {
        lemma_pow10_monotonic(i, (j - 1) as nat);
        lemma_pow10_positive((j - 1) as nat);
    }
}

/// Ten to the power `n`, for the powers that the rounding needs.
fn pow10_exec(n: u32) -> (r: i128)
    requires
        n <= 24,
    ensures
        r as int == pow10(n as nat),
{
    proof {
        reveal_with_fuel(pow10, 25);
        lemma_pow10_monotonic(n as nat, 24);
    }
    let mut p: i128 = 1;
    let mut i: u32 = 0;
    while i < n
        invariant
            i <= n,
            n <= 24,
            p as int == pow10(i as nat),
            pow10(n as nat) <= pow10(24),
            pow10(24) == 1_000_000_000_000_000_000_000_000,
        decreases n - i,
    {
        proof {
            lemma_pow10_monotonic((i + 1) as nat, n as nat);
            lemma_pow10_positive(i as nat);
            assert(pow10((i + 1) as nat) == 10 * pow10(i as nat));
        }
        p = p * 10;
        i = i + 1;
    }
    p
}

impl Amount {
    /// The amount `mantissa / 10^scale`, rounded to four fractional digits
    /// with ties away from zero.
    pub fn from_parts(mantissa: i128, scale: u32) -> (r: Amount)
        requires
            -MAX_MANTISSA <= mantissa <= MAX_MANTISSA,
            scale <= MAX_SCALE,
        ensures
            r.units == round_units(mantissa as int, scale as nat),
    {
        if scale <= 4 {
            let p = pow10_exec(4 - scale);
            proof {
                reveal_with_fuel(pow10, 5);
                lemma_pow10_monotonic((4 - scale) as nat, 4);
                lemma_pow10_positive((4 - scale) as nat);
                assert(-MAX_MANTISSA * 10000 <= mantissa * p <= MAX_MANTISSA * 10000)
                    by (nonlinear_arith)
                    requires
                        -MAX_MANTISSA <= mantissa <= MAX_MANTISSA,
                        1 <= p <= 10000,
                ;
            }
            Amount { units: mantissa * p }
        } else {
            let d = pow10_exec(scale - 4);
            proof {
                lemma_pow10_positive((scale - 4) as nat);
            }
            let a: i128 = if mantissa < 0 { -mantissa } else { mantissa };
            let rem = a % d;
            let q: i128 = if rem >= d - rem { a / d + 1 } else { a / d };
            proof {
                assert(a / d <= a) by (nonlinear_arith)
                    requires
                        a >= 0,
                        d >= 1,
                ;
            }
            Amount { units: if mantissa < 0 { -q } else { q } }
        }
    }

    /// The amount that a text gives under the rounding policy: `None` where
    /// the text is no decimal number.
    pub fn parse(s: &str) -> (r: Option<Amount>)
        ensures
            r == text_amount(s@),
            s@.len() == 0 ==> r is None,
    {
        match parse_decimal(s) {
            Some((mantissa, scale)) => Some(Amount::from_parts(mantissa, scale)),
            None => None,
        }
    }

    /// The amount written with exactly four fractional digits; `None` where it
    /// lies beyond what a decimal can hold.
    pub fn to_text(&self) -> (r: Option<String>)
        ensures
            r is Some <==> -MAX_MANTISSA <= self.units <= MAX_MANTISSA,
            r is Some ==> r->0@ == decimal_text(self.units as int),
    {
        if -MAX_MANTISSA <= self.units && self.units <= MAX_MANTISSA {
            Some(render_units(self.units))
        } else {
            None
        }
    }
}

} // verus!
