//! Exact decimal amounts.
//!
//! An [`Amount`] is a signed integer mantissa of at most 96 bits together with
//! a scale between 0 and 28: it stands for `mantissa / 10^scale`. Its view is
//! that number counted in units of `10^-28`, an unbounded integer, so that two
//! amounts are the same number exactly when their views are equal.

use vstd::prelude::*;

verus! {

/// The largest number of fractional digits an amount can carry.
pub const MAX_SCALE: u32 = 28;

/// The largest magnitude of a mantissa: `2^96 - 1`.
pub const MAX_MANTISSA: i128 = 79_228_162_514_264_337_593_543_950_335;

/// Twice `MAX_MANTISSA`: a mantissa rewritten at a larger scale is followed up
/// to this magnitude, beyond which no sum or difference with an amount fits.
pub const WIDE_LIMIT: i128 = 158_456_325_028_528_675_187_087_900_670;

/// A tenth of `WIDE_LIMIT`.
pub const WIDE_STEP: i128 = 15_845_632_502_852_867_518_708_790_067;

/// Ten to the power `n`.
pub open spec fn pow10(n: nat) -> int
    decreases n,
{
    if n == 0 {
        1
    } else {
        10 * pow10((n - 1) as nat)
    }
}

/// `pow10` is positive.
pub proof fn lemma_pow10_positive(n: nat)
    ensures
        pow10(n) >= 1,
    decreases n,
{
    if n > 0 {
        lemma_pow10_positive((n - 1) as nat);
    }
}

/// `pow10` turns sums of exponents into products.
pub proof fn lemma_pow10_adds(a: nat, b: nat)
    ensures
        pow10(a + b) == pow10(a) * pow10(b),
    decreases a,
{
    if a == 0 {
        assert(pow10(0 + b) == 1 * pow10(b));
    } else {
        lemma_pow10_adds((a - 1) as nat, b);
        assert(pow10(a + b) == 10 * pow10((a - 1 + b) as nat));
        assert(10 * (pow10((a - 1) as nat) * pow10(b)) == (10 * pow10((a - 1) as nat)) * pow10(b))
            by (nonlinear_arith);
    }
}

/// An exact decimal number.
#[derive(Clone, Copy, Debug)]
pub struct Amount {
    mantissa: i128,
    scale: u32,
}

impl View for Amount {
    type V = int;

    /// The amount in units of `10^-28`.
    open spec fn view(&self) -> int {
        self.mantissa() * pow10((MAX_SCALE - self.scale()) as nat)
    }
}

impl Amount {
    #[verifier::type_invariant]
    spec fn well_formed(self) -> bool {
        self.scale <= MAX_SCALE && -MAX_MANTISSA <= self.mantissa <= MAX_MANTISSA
    }

    /// Whether a mantissa and a scale are those of an amount.
    pub open spec fn representable(mantissa: int, scale: int) -> bool {
        0 <= scale <= MAX_SCALE && -MAX_MANTISSA <= mantissa <= MAX_MANTISSA
    }

    pub closed spec fn spec_mantissa(&self) -> i128 {
        self.mantissa
    }

    pub closed spec fn spec_scale(&self) -> u32 {
        self.scale
    }

    /// The integer that, divided by `10^scale`, gives the amount.
    #[verifier::when_used_as_spec(spec_mantissa)]
    pub fn mantissa(&self) -> (m: i128)
        ensures
            m == self.mantissa(),
            Self::representable(m as int, self.scale() as int),
    {
        proof {
            use_type_invariant(self);
        }
        self.mantissa
    }

    /// The number of fractional digits.
    #[verifier::when_used_as_spec(spec_scale)]
    pub fn scale(&self) -> (s: u32)
        ensures
            s == self.scale(),
            Self::representable(self.mantissa() as int, s as int),
    {
        proof {
            use_type_invariant(self);
        }
        self.scale
    }

    /// The amount `num / 10^scale`.
    pub fn new(num: i64, scale: u32) -> (a: Amount)
        requires
            scale <= MAX_SCALE,
        ensures
            a.mantissa() == num,
            a.scale() == scale,
    {
        Amount { mantissa: num as i128, scale }
    }

    /// The amount `mantissa / 10^scale`, where those are the parts of an amount.
    pub fn try_from_parts(mantissa: i128, scale: u32) -> (r: Option<Amount>)
        ensures
            r is Some <==> Self::representable(mantissa as int, scale as int),
            r matches Some(a) ==> a.mantissa() == mantissa && a.scale() == scale,
    {
        if scale <= MAX_SCALE && -MAX_MANTISSA <= mantissa && mantissa <= MAX_MANTISSA {
            Some(Amount { mantissa, scale })
        } else {
            None
        }
    }

    pub closed spec fn spec_zero() -> Amount {
        Amount { mantissa: 0, scale: 0 }
    }

    /// Zero, with no fractional digits.
    #[verifier::when_used_as_spec(spec_zero)]
    pub fn zero() -> (a: Amount)
        ensures
            a == Amount::zero(),
            a.mantissa() == 0,
            a.scale() == 0,
            a@ == 0,
    {
        Amount { mantissa: 0, scale: 0 }
    }

    /// What `zero` is.
    pub proof fn lemma_zero()
        ensures
            Amount::zero().mantissa() == 0,
            Amount::zero().scale() == 0,
            Amount::zero()@ == 0,
    {
    }
}

/// The larger of the two scales: the scale at which a sum or a difference of
/// `a` and `b` is written.
pub open spec fn common_scale(a: Amount, b: Amount) -> nat {
    if a.scale() >= b.scale() {
        a.scale() as nat
    } else {
        b.scale() as nat
    }
}

/// The mantissa that `a` has when it is written with `scale` fractional digits.
pub open spec fn aligned(a: Amount, scale: nat) -> int
    recommends
        a.scale() <= scale,
{
    a.mantissa() * pow10((scale - a.scale()) as nat)
}

/// Rewriting an amount at a larger scale does not change its view.
pub proof fn lemma_aligned_view(a: Amount, scale: nat)
    requires
        a.scale() <= scale <= MAX_SCALE,
    ensures
        aligned(a, scale) * pow10((MAX_SCALE - scale) as nat) == a@,
{
    let up = (scale - a.scale()) as nat;
    let rest = (MAX_SCALE - scale) as nat;
    lemma_pow10_adds(up, rest);
    assert(a.mantissa() * pow10(up) * pow10(rest) == a.mantissa() * (pow10(up) * pow10(rest)))
        by (nonlinear_arith);
}

/// Where a sum fits, it is an amount: the mantissas at the common scale add
/// up to a mantissa of at most 96 bits, which at that scale is the sum of the
/// two views.
pub proof fn lemma_sum_that_fits(a: Amount, b: Amount)
    requires
        a.scale() <= MAX_SCALE,
        b.scale() <= MAX_SCALE,
        a.sum_fits(b),
    ensures
        ({
            let scale = common_scale(a, b);
            let mantissa = aligned(a, scale) + aligned(b, scale);
            &&& Amount::representable(mantissa, scale as int)
            &&& mantissa * pow10((MAX_SCALE - scale) as nat) == a@ + b@
        }),
{
    let scale = common_scale(a, b);
    let rest = pow10((MAX_SCALE - scale) as nat);
    lemma_aligned_view(a, scale);
    lemma_aligned_view(b, scale);
    assert((aligned(a, scale) + aligned(b, scale)) * rest == aligned(a, scale) * rest + aligned(
        b,
        scale,
    ) * rest) by (nonlinear_arith);
}

/// Where a difference fits, it is an amount, in the same way.
pub proof fn lemma_difference_that_fits(a: Amount, b: Amount)
    requires
        a.scale() <= MAX_SCALE,
        b.scale() <= MAX_SCALE,
        a.difference_fits(b),
    ensures
        ({
            let scale = common_scale(a, b);
            let mantissa = aligned(a, scale) - aligned(b, scale);
            &&& Amount::representable(mantissa, scale as int)
            &&& mantissa * pow10((MAX_SCALE - scale) as nat) == a@ - b@
        }),
{
    let scale = common_scale(a, b);
    let rest = pow10((MAX_SCALE - scale) as nat);
    lemma_aligned_view(a, scale);
    lemma_aligned_view(b, scale);
    assert((aligned(a, scale) - aligned(b, scale)) * rest == aligned(a, scale) * rest - aligned(
        b,
        scale,
    ) * rest) by (nonlinear_arith);
}

impl Amount {
    /// Whether `self + other`, written at the larger of the two scales, has a
    /// mantissa of at most 96 bits.
    pub open spec fn sum_fits(self, other: Amount) -> bool {
        let s = common_scale(self, other);
        -MAX_MANTISSA <= aligned(self, s) + aligned(other, s) <= MAX_MANTISSA
    }

    /// Whether `self - other`, written at the larger of the two scales, has a
    /// mantissa of at most 96 bits.
    pub open spec fn difference_fits(self, other: Amount) -> bool {
        let s = common_scale(self, other);
        -MAX_MANTISSA <= aligned(self, s) - aligned(other, s) <= MAX_MANTISSA
    }

    /// The exact sum, where it is an amount at the larger of the two scales.
    pub fn checked_add(self, other: Amount) -> (r: Option<Amount>)
        ensures
            r is Some <==> self.sum_fits(other),
            r matches Some(v) ==> v@ == self@ + other@,
    {
        match aligned_pair(self, other) {
            None => None,
            Some((x, y)) => {
                let total: i128 = x + y;
                if -MAX_MANTISSA <= total && total <= MAX_MANTISSA {
                    decimal_add(self, other)
                } else {
                    None
                }
            },
        }
    }

    /// The exact difference, where it is an amount at the larger of the two scales.
    pub fn checked_sub(self, other: Amount) -> (r: Option<Amount>)
        ensures
            r is Some <==> self.difference_fits(other),
            r matches Some(v) ==> v@ == self@ - other@,
    {
        match aligned_pair(self, other) {
            None => None,
            Some((x, y)) => {
                let total: i128 = x - y;
                if -MAX_MANTISSA <= total && total <= MAX_MANTISSA {
                    decimal_sub(self, other)
                } else {
                    None
                }
            },
        }
    }

    /// Whether `self` is the smaller number.
    pub fn lt(&self, other: &Amount) -> (r: bool)
        ensures
            r == (self@ < other@),
    {
        decimal_less(*self, *other)
    }

    /// Whether `self` is not the larger number.
    pub fn le(&self, other: &Amount) -> (r: bool)
        ensures
            r == (self@ <= other@),
    {
        !decimal_less(*other, *self)
    }
}

impl PartialEq for Amount {
    /// Two amounts are equal when they are the same number, whatever their scales.
    fn eq(&self, other: &Amount) -> (r: bool) {
        !decimal_less(*self, *other) && !decimal_less(*other, *self)
    }
}

impl vstd::std_specs::cmp::PartialEqSpecImpl for Amount {
    open spec fn obeys_eq_spec() -> bool {
        true
    }

    open spec fn eq_spec(&self, other: &Amount) -> bool {
        self@ == other@
    }
}

/// `mantissa * 10^by`, as long as its magnitude stays within `WIDE_LIMIT`.
fn scaled_up(mantissa: i128, by: u32) -> (r: Option<i128>)
    requires
        -MAX_MANTISSA <= mantissa <= MAX_MANTISSA,
        by <= MAX_SCALE,
    ensures
        r matches Some(v) ==> v == mantissa * pow10(by as nat) && -WIDE_LIMIT <= v <= WIDE_LIMIT,
        r is None ==> !(-WIDE_LIMIT <= mantissa * pow10(by as nat) <= WIDE_LIMIT),
{
    let mut current: i128 = mantissa;
    let mut done: u32 = 0;
    while done < by
        invariant
            done <= by <= MAX_SCALE,
            current == mantissa * pow10(done as nat),
            -WIDE_LIMIT <= current <= WIDE_LIMIT,
        decreases by - done,
    {
        if current > WIDE_STEP || current < -WIDE_STEP {
            proof {
                let next = (done + 1) as nat;
                assert(pow10(next) == 10 * pow10(done as nat));
                assert(mantissa * pow10(next) == 10 * (mantissa * pow10(done as nat)))
                    by (nonlinear_arith)
                    requires
                        pow10(next) == 10 * pow10(done as nat),
                ;
                lemma_pow10_adds(next, (by - next) as nat);
                lemma_pow10_positive((by - next) as nat);
                let grown = mantissa * pow10(next);
                let factor = pow10((by - next) as nat);
                assert(mantissa * pow10(by as nat) == grown * factor) by (nonlinear_arith)
                    requires
                        pow10(by as nat) == pow10(next) * factor,
                        grown == mantissa * pow10(next),
                ;
                assert(grown > WIDE_LIMIT ==> grown * factor > WIDE_LIMIT) by (nonlinear_arith)
                    requires
                        factor >= 1,
                ;
                assert(grown < -WIDE_LIMIT ==> grown * factor < -WIDE_LIMIT) by (nonlinear_arith)
                    requires
                        factor >= 1,
                ;
            }
            return None;
        }
        proof {
            assert(pow10((done + 1) as nat) == 10 * pow10(done as nat));
            assert(mantissa * pow10((done + 1) as nat) == 10 * (mantissa * pow10(done as nat)))
                by (nonlinear_arith)
                requires
                    pow10((done + 1) as nat) == 10 * pow10(done as nat),
            ;
        }
        current = current * 10;
        done = done + 1;
    }
    Some(current)
}

/// Both mantissas at the larger of the two scales, unless one of them leaves
/// `WIDE_LIMIT`, in which case neither the sum nor the difference fits.
fn aligned_pair(a: Amount, b: Amount) -> (r: Option<(i128, i128)>)
    ensures
        r matches Some((x, y)) ==> {
            &&& x == aligned(a, common_scale(a, b))
            &&& y == aligned(b, common_scale(a, b))
            &&& -WIDE_LIMIT <= x <= WIDE_LIMIT
            &&& -WIDE_LIMIT <= y <= WIDE_LIMIT
        },
        r is None ==> !a.sum_fits(b) && !a.difference_fits(b),
{
    proof {
        use_type_invariant(a);
        use_type_invariant(b);
    }
    let scale: u32 = if a.scale >= b.scale {
        a.scale
    } else {
        b.scale
    };
    let x = scaled_up(a.mantissa, scale - a.scale);
    let y = scaled_up(b.mantissa, scale - b.scale);
    proof {
        // One of the two is already at the common scale.
        assert(pow10(0) == 1);
    }
    match (x, y) {
        (Some(x), Some(y)) => Some((x, y)),
        _ => None,
    }
}

/// Calls `rust_decimal::Decimal::checked_add` on the two amounts. That function
/// writes both operands at the larger scale and adds the mantissas; it rounds,
/// or reports an overflow, only where the result leaves 96 bits. The contract
/// claims the exact sum for the operands on which it does not, and nothing for
/// the others. The amount that comes back is made of the mantissa and the
/// scale that the decimal reports, which are at most 96 bits and at most 28.
#[verifier::external_body]
fn decimal_add(a: Amount, b: Amount) -> (r: Option<Amount>)
    ensures
        a.sum_fits(b) ==> r is Some && r.unwrap()@ == a@ + b@,
{
    let x = rust_decimal::Decimal::from_i128_with_scale(a.mantissa, a.scale);
    let y = rust_decimal::Decimal::from_i128_with_scale(b.mantissa, b.scale);
    match x.checked_add(y) {
        Some(z) => Some(Amount { mantissa: z.mantissa(), scale: z.scale() }),
        None => None,
    }
}

/// Calls `rust_decimal::Decimal::checked_sub` on the two amounts. As for the
/// sum, the contract claims the exact difference where the difference, written
/// at the larger scale, stays within 96 bits, and nothing elsewhere; and the
/// amount that comes back is made of the parts that the decimal reports.
#[verifier::external_body]
fn decimal_sub(a: Amount, b: Amount) -> (r: Option<Amount>)
    ensures
        a.difference_fits(b) ==> r is Some && r.unwrap()@ == a@ - b@,
{
    let x = rust_decimal::Decimal::from_i128_with_scale(a.mantissa, a.scale);
    let y = rust_decimal::Decimal::from_i128_with_scale(b.mantissa, b.scale);
    match x.checked_sub(y) {
        Some(z) => Some(Amount { mantissa: z.mantissa(), scale: z.scale() }),
        None => None,
    }
}

/// Calls `<` of `rust_decimal::Decimal`, which compares the two numbers, not
/// their representations: the contract claims the order of the views.
#[verifier::external_body]
fn decimal_less(a: Amount, b: Amount) -> (r: bool)
    ensures
        r == (a@ < b@),
{
    let x = rust_decimal::Decimal::from_i128_with_scale(a.mantissa, a.scale);
    let y = rust_decimal::Decimal::from_i128_with_scale(b.mantissa, b.scale);
    x < y
}

/// The character of a decimal digit.
pub open spec fn digit_char(d: int) -> char
    recommends
        0 <= d <= 9,
{
    if d == 0 {
        '0'
    } else if d == 1 {
        '1'
    } else if d == 2 {
        '2'
    } else if d == 3 {
        '3'
    } else if d == 4 {
        '4'
    } else if d == 5 {
        '5'
    } else if d == 6 {
        '6'
    } else if d == 7 {
        '7'
    } else if d == 8 {
        '8'
    } else {
        '9'
    }
}

/// A natural number in decimal, without leading zeros.
pub open spec fn decimal_digits(n: nat) -> Seq<char>
    decreases n,
{
    if n < 10 {
        seq![digit_char(n as int)]
    } else {
        decimal_digits(n / 10).push(digit_char((n % 10) as int))
    }
}

/// A number of units of `10^-28` written with exactly four fractional digits:
/// a minus sign if it is negative, the whole part, a point, and the first four
/// fractional digits. Further digits are cut off, not rounded.
pub open spec fn fixed4_text(units: int) -> Seq<char> {
    let magnitude = if units < 0 {
        -units
    } else {
        units
    };
    let whole = magnitude / pow10(28);
    let fraction = (magnitude / pow10(24)) % 10000;
    let sign = if units < 0 {
        seq!['-']
    } else {
        Seq::<char>::empty()
    };
    sign + decimal_digits(whole as nat) + seq![
        '.',
        digit_char(fraction / 1000),
        digit_char((fraction / 100) % 10),
        digit_char((fraction / 10) % 10),
        digit_char(fraction % 10),
    ]
}

/// Whether a number of units of `10^-28` has a whole part of at most 27
/// digits: with four fractional digits and the point it then takes at most 32
/// characters besides its sign, which is as far as amounts are written.
pub open spec fn fixed4_fits(units: int) -> bool {
    -pow10(55) < units < pow10(55)
}

/// The powers of ten that bound a whole part of 27 digits.
proof fn lemma_pow10_values()
    ensures
        pow10(27) == 1_000_000_000_000_000_000_000_000_000,
        pow10(28) == 10_000_000_000_000_000_000_000_000_000,
        pow10(29) == 100_000_000_000_000_000_000_000_000_000,
{
    reveal_with_fuel(pow10, 30);
}

impl Amount {
    /// The amount written with four fractional digits, or `None` where its
    /// whole part has more than 27 digits.
    pub fn to_fixed4(&self) -> (text: Option<String>)
        ensures
            text is Some <==> fixed4_fits(self@),
            text matches Some(t) ==> t@ == fixed4_text(self@),
    {
        proof {
            use_type_invariant(self);
            lemma_pow10_values();
        }
        let bound: i128 = if self.scale == 0 {
            1_000_000_000_000_000_000_000_000_000
        } else if self.scale == 1 {
            10_000_000_000_000_000_000_000_000_000
        } else {
            100_000_000_000_000_000_000_000_000_000
        };
        proof {
            // `bound` is `10^(27 + scale)`, or a smaller power of ten that no
            // mantissa reaches; the view is the mantissa times `10^(28 - scale)`.
            let up = (MAX_SCALE - self.scale) as nat;
            let reach = if self.scale <= 1 {
                (27 + self.scale) as nat
            } else {
                29nat
            };
            let rest = (55 - reach - up) as nat;
            assert(bound == pow10(reach));
            lemma_pow10_adds(reach, up);
            lemma_pow10_adds(reach + up, rest);
            lemma_pow10_positive(up);
            lemma_pow10_positive(rest);
            let m = self.mantissa as int;
            let p = pow10(up);
            let q = pow10(reach);
            assert(-q < m < q <==> -(q * p) < m * p < q * p) by (nonlinear_arith)
                requires
                    p >= 1,
            ;
            assert(q * p >= 0) by (nonlinear_arith)
                requires
                    q >= 1,
                    p >= 1,
            ;
            assert(q * p <= q * p * pow10(rest)) by (nonlinear_arith)
                requires
                    q * p >= 0,
                    pow10(rest) >= 1,
            ;
            assert(self.scale <= 1 ==> rest == 0 && pow10(rest) == 1);
        }
        if -bound < self.mantissa && self.mantissa < bound {
            Some(decimal_fixed4(*self))
        } else {
            None
        }
    }
}

/// Formats the amount as `rust_decimal::Decimal` does under `{:.4}`: the digits
/// of the mantissa with the point `scale` digits from the right, cut or padded
/// with zeros to four fractional digits, behind a minus sign where the
/// mantissa is negative. The contract states that text over the view. The
/// decimal crate builds the digits and the point in 32 characters and panics
/// beyond them, so the whole part may have 27 digits at most.
#[verifier::external_body]
fn decimal_fixed4(a: Amount) -> (text: String)
    requires
        fixed4_fits(a@),
    ensures
        text@ == fixed4_text(a@),
{
    format!("{:.4}", rust_decimal::Decimal::from_i128_with_scale(a.mantissa, a.scale))
}

} // verus!
