use vstd::prelude::*;
use vstd::arithmetic::div_mod::{lemma_div_multiples_vanish, lemma_fundamental_div_mod};

verus! {

/// Why an operation on a time value failed.
#[derive(Clone, Copy, Debug, PartialEq, Eq, Structural)]
pub enum TimeError {
    /// No ratio is declared between the two units.
    UnsupportedConversion,
    /// The operation has no result in the value's domain (division by zero,
    /// or a result that `i64` cannot hold).
    ArithmeticDomainError,
    /// A unit was registered with a ratio that is zero, refers to an unknown
    /// unit, or conflicts with the ratio already known for it.
    InvalidUnitRegistration,
}

/// The kind of [`Second`], the base unit that every ratio is stated against.
pub const SECOND_KIND: u64 = 0;

/// The kind of [`Minute`].
pub const MINUTE_KIND: u64 = 1;

/// Seconds in one minute.
pub const SECONDS_PER_MINUTE: u64 = 60;

/// Integer division as Rust's `/` does it: the quotient rounded toward zero.
pub open spec fn div_toward_zero(a: int, b: int) -> int {
    let q = abs(a) / abs(b);
    if (a < 0) != (b < 0) {
        -q
    } else {
        q
    }
}

/// The absolute value of `a`.
pub open spec fn abs(a: int) -> int {
    if a < 0 {
        -a
    } else {
        a
    }
}

pub open spec fn fits_i64(x: int) -> bool {
    i64::MIN <= x <= i64::MAX
}

/// A value counted in units of `from` seconds, counted again in units of `to` seconds.
pub open spec fn rescaled(value: int, from: int, to: int) -> int {
    div_toward_zero(value * from, to)
}

/// The outcome of rescaling `value` by the ratios `from` / `to`: the rescaled
/// value where both ratios are declared and nonzero and the result fits in `i64`.
pub open spec fn rescale_result(value: i64, from: Option<u64>, to: Option<u64>) -> Result<i64, TimeError> {
    if from is Some && to is Some && from->0 > 0 && to->0 > 0 {
        let x = rescaled(value as int, from->0 as int, to->0 as int);
        if fits_i64(x) {
            Ok(x as i64)
        } else {
            Err(TimeError::ArithmeticDomainError)
        }
    } else {
        Err(TimeError::UnsupportedConversion)
    }
}

/// The outcome of converting `value` from one unit to another: the value
/// itself between units of the same kind, a rescaling by their ratios otherwise.
pub open spec fn conversion(
    value: i64,
    from_kind: u64,
    from_seconds: Option<u64>,
    to_kind: u64,
    to_seconds: Option<u64>,
) -> Result<i64, TimeError> {
    if from_kind == to_kind {
        Ok(value)
    } else {
        rescale_result(value, from_seconds, to_seconds)
    }
}

proof fn lemma_product_bounds(value: i64, from: u64)
    ensures
        -0x7fff_ffff_ffff_ffff_ffff_ffff_ffff_ffff <= value * from <= 0x7fff_ffff_ffff_ffff_ffff_ffff_ffff_ffff,
{
    assert(-0x8000_0000_0000_0000 * 0xffff_ffff_ffff_ffff <= value * from <= 0x7fff_ffff_ffff_ffff
        * 0xffff_ffff_ffff_ffff) by (nonlinear_arith)
        requires
            -0x8000_0000_0000_0000 <= value <= 0x7fff_ffff_ffff_ffff,
            0 <= from <= 0xffff_ffff_ffff_ffff,
    ;
}

/// Counts `value` units of `from` seconds again in units of `to` seconds,
/// rounding toward zero.
pub fn rescale(value: i64, from: u64, to: u64) -> (r: Result<i64, TimeError>)
    requires
        from > 0,
        to > 0,
    ensures
        r == rescale_result(value, Some(from), Some(to)),
{
    proof {
        lemma_product_bounds(value, from);
    }
    let p: i128 = value as i128 * from as i128;
    let d: i128 = to as i128;
    let q: i128 = if p >= 0 {
        p / d
    } else {
        -((-p) / d)
    };
    if q < i64::MIN as i128 || q > i64::MAX as i128 {
        Err(TimeError::ArithmeticDomainError)
    } else {
        Ok(q as i64)
    }
}

/// A quotient of `i64` values overflows only for `i64::MIN / -1`.
proof fn lemma_quotient_fits(n: i64, d: i64)
    requires
        d != 0,
    ensures
        fits_i64(div_toward_zero(n as int, d as int)) == !(n == i64::MIN && d == -1),
{
    let a = abs(n as int);
    let b = abs(d as int);
    let q = a / b;
    assert(0 <= q <= a) by (nonlinear_arith)
        requires
            q == a / b,
            a >= 0,
            b >= 1,
    ;
    if b >= 2 {
        assert(q * 2 <= a) by (nonlinear_arith)
            requires
                q == a / b,
                a >= 0,
                b >= 2,
        ;
    }
}

/// `n / d`, rounded toward zero.
fn quotient(n: i64, d: i64) -> (r: i64)
    requires
        d != 0,
        fits_i64(div_toward_zero(n as int, d as int)),
    ensures
        r == div_toward_zero(n as int, d as int),
{
    let wide_n: i128 = n as i128;
    let wide_d: i128 = d as i128;
    let an: i128 = if wide_n < 0 {
        -wide_n
    } else {
        wide_n
    };
    let ad: i128 = if wide_d < 0 {
        -wide_d
    } else {
        wide_d
    };
    let q: i128 = an / ad;
    let signed: i128 = if (wide_n < 0) != (wide_d < 0) {
        -q
    } else {
        q
    };
    signed as i64
}

/// Dividing a multiple of a positive `d` by `d`, rounding toward zero, is exact.
proof fn lemma_exact_division(x: int, d: int)
    requires
        d > 0,
    ensures
        div_toward_zero(x * d, d) == x,
{
    lemma_div_multiples_vanish(abs(x), d);
    assert(abs(x * d) == d * abs(x)) by (nonlinear_arith)
        requires
            d > 0,
    ;
    assert((x * d < 0) == (x < 0)) by (nonlinear_arith)
        requires
            d > 0,
    ;
}

/// Converting a value from a unit to the same unit gives the value back,
/// whatever ratio, if any, the unit declares.
pub proof fn lemma_convert_same_unit(value: i64, kind: u64, seconds: Option<u64>)
    ensures
        conversion(value, kind, seconds, kind, seconds) == Ok::<i64, TimeError>(value),
{
}

/// Converting a value from one unit to another and back gives the value
/// back, where both units declare a ratio and the first conversion is exact:
/// no remainder is rounded away and the result fits in `i64`.
pub proof fn lemma_convert_round_trip(
    value: i64,
    kind_a: u64,
    seconds_a: u64,
    kind_b: u64,
    seconds_b: u64,
)
    requires
        seconds_a > 0,
        seconds_b > 0,
        (value * seconds_a) % (seconds_b as int) == 0,
        fits_i64((value * seconds_a) / (seconds_b as int)),
    ensures
        conversion(value, kind_a, Some(seconds_a), kind_b, Some(seconds_b)) is Ok,
        conversion(
            conversion(value, kind_a, Some(seconds_a), kind_b, Some(seconds_b))->Ok_0,
            kind_b,
            Some(seconds_b),
            kind_a,
            Some(seconds_a),
        ) == Ok::<i64, TimeError>(value),
{
    let p: int = value * seconds_a;
    let d: int = seconds_b as int;
    let x: int = p / d;
    lemma_fundamental_div_mod(p, d);
    assert(p == x * d) by (nonlinear_arith)
        requires
            p == d * (p / d) + (p % d),
            p % d == 0,
            x == p / d,
    ;
    lemma_exact_division(x, d);
    assert(rescaled(value as int, seconds_a as int, seconds_b as int) == x);
    lemma_exact_division(value as int, seconds_a as int);
    assert(rescaled(x, seconds_b as int, seconds_a as int) == value) by {
        assert(x * d == value * seconds_a);
    }
}

/// A unit of time. Each unit has a kind, its identity, and may declare how
/// many seconds one of it lasts; conversions go through that ratio.
pub trait TimeUnit: Sized {
    /// The identity of the unit: two units of one kind are the same unit.
    spec fn spec_kind(&self) -> u64;

    /// Seconds in one of this unit, where a ratio is declared.
    spec fn spec_seconds(&self) -> Option<u64>;

    fn kind(&self) -> (r: u64)
        ensures
            r == self.spec_kind(),
    ;

    fn seconds(&self) -> (r: Option<u64>)
        ensures
            r == self.spec_seconds(),
    ;
}

/// The second, the base unit.
#[derive(Clone, Copy, Debug, PartialEq, Eq, Structural)]
pub struct Second;

/// The minute, sixty seconds.
#[derive(Clone, Copy, Debug, PartialEq, Eq, Structural)]
pub struct Minute;

impl TimeUnit for Second {
    open spec fn spec_kind(&self) -> u64 {
        SECOND_KIND
    }

    open spec fn spec_seconds(&self) -> Option<u64> {
        Some(1)
    }

    fn kind(&self) -> (r: u64) {
        SECOND_KIND
    }

    fn seconds(&self) -> (r: Option<u64>) {
        Some(1)
    }
}

impl TimeUnit for Minute {
    open spec fn spec_kind(&self) -> u64 {
        MINUTE_KIND
    }

    open spec fn spec_seconds(&self) -> Option<u64> {
        Some(SECONDS_PER_MINUTE)
    }

    fn kind(&self) -> (r: u64) {
        MINUTE_KIND
    }

    fn seconds(&self) -> (r: Option<u64>) {
        Some(SECONDS_PER_MINUTE)
    }
}

/// The outcome of converting `value` from the unit `from` to the unit `to`.
pub open spec fn unit_conversion<FromUnit: TimeUnit, ToUnit: TimeUnit>(
    value: i64,
    from: FromUnit,
    to: ToUnit,
) -> Result<i64, TimeError> {
    conversion(value, from.spec_kind(), from.spec_seconds(), to.spec_kind(), to.spec_seconds())
}

/// Whether `a` and `b` denote the same unit.
pub fn same_unit<A: TimeUnit, B: TimeUnit>(a: &A, b: &B) -> (r: bool)
    ensures
        r == (a.spec_kind() == b.spec_kind()),
{
    a.kind() == b.kind()
}

/// Converts `value`, counted in `from`, into `to`. Between units of the same
/// kind the value comes back unchanged, whatever ratios are declared.
pub fn convert<FromUnit: TimeUnit, ToUnit: TimeUnit>(value: i64, from: &FromUnit, to: &ToUnit) -> (r:
    Result<i64, TimeError>)
    ensures
        r == unit_conversion(value, *from, *to),
{
    if same_unit(from, to) {
        return Ok(value);
    }
    match (from.seconds(), to.seconds()) {
        (Some(f), Some(t)) => {
            if f == 0 || t == 0 {
                Err(TimeError::UnsupportedConversion)
            } else {
                rescale(value, f, t)
            }
        },
        _ => Err(TimeError::UnsupportedConversion),
    }
}

/// A numeric value tagged with the unit it is measured in.
pub struct Time<Unit, ValueType> where Unit: TimeUnit {
    pub unit: Unit,
    pub value: ValueType,
}

impl<Unit, ValueType> Time<Unit, ValueType> where Unit: TimeUnit {
    /// Tags `value` with `unit`.
    pub fn new(value: ValueType, unit: Unit) -> (r: Self)
        ensures
            r.value == value,
            r.unit == unit,
    {
        Time { unit, value }
    }
}

impl<Unit> Time<Unit, i64> where Unit: TimeUnit {
    /// Adds a raw number to the value; the unit stays.
    pub fn add_scalar(self, rhs: i64) -> (r: Self)
        requires
            fits_i64(self.value + rhs),
        ensures
            r.value == self.value + rhs,
            r.unit == self.unit,
    {
        Time::new(self.value + rhs, self.unit)
    }

    /// Subtracts a raw number from the value; the unit stays.
    pub fn sub_scalar(self, rhs: i64) -> (r: Self)
        requires
            fits_i64(self.value - rhs),
        ensures
            r.value == self.value - rhs,
            r.unit == self.unit,
    {
        Time::new(self.value - rhs, self.unit)
    }

    /// Multiplies the value by a raw number; the unit stays.
    pub fn mul_scalar(self, rhs: i64) -> (r: Self)
        requires
            fits_i64(self.value * rhs),
        ensures
            r.value == self.value * rhs,
            r.unit == self.unit,
    {
        Time::new(self.value * rhs, self.unit)
    }

    /// Divides the value by a raw number, rounding toward zero; the unit
    /// stays. Division by zero, and a quotient that `i64` cannot hold, are
    /// domain errors.
    pub fn div_scalar(self, rhs: i64) -> (r: Result<Self, TimeError>)
        ensures
            rhs == 0 ==> r == Err::<Self, TimeError>(TimeError::ArithmeticDomainError),
            rhs != 0 && !fits_i64(div_toward_zero(self.value as int, rhs as int)) ==> r == Err::<
                Self,
                TimeError,
            >(TimeError::ArithmeticDomainError),
            rhs != 0 && fits_i64(div_toward_zero(self.value as int, rhs as int)) ==> r is Ok
                && r->Ok_0.value == div_toward_zero(self.value as int, rhs as int) && r->Ok_0.unit
                == self.unit,
    {
        if rhs == 0 || (self.value == i64::MIN && rhs == -1) {
            return Err(TimeError::ArithmeticDomainError);
        }
        proof {
            lemma_quotient_fits(self.value, rhs);
        }
        Ok(Time::new(quotient(self.value, rhs), self.unit))
    }

    /// Adds two values of one unit. Values of different units cannot be
    /// added: the unit is part of the type, and a conversion comes first.
    pub fn add_time(self, rhs: Self) -> (r: Self)
        requires
            fits_i64(self.value + rhs.value),
        ensures
            r.value == self.value + rhs.value,
            r.unit == self.unit,
    {
        Time::new(self.value + rhs.value, self.unit)
    }

    /// The same span counted in the unit `to`.
    pub fn convert_to<ToUnit: TimeUnit>(self, to: ToUnit) -> (r: Result<Time<ToUnit, i64>, TimeError>)
        ensures
            unit_conversion(self.value, self.unit, to) is Err ==> r == Err::<Time<ToUnit, i64>, TimeError>(
                unit_conversion(self.value, self.unit, to)->Err_0,
            ),
            unit_conversion(self.value, self.unit, to) is Ok ==> r is Ok && r->Ok_0.unit == to
                && r->Ok_0.value == unit_conversion(self.value, self.unit, to)->Ok_0,
    {
        match convert(self.value, &self.unit, &to) {
            Ok(v) => Ok(Time::new(v, to)),
            Err(e) => Err(e),
        }
    }
}

impl<Unit> std::ops::Add<i64> for Time<Unit, i64> where Unit: TimeUnit {
    type Output = Time<Unit, i64>;

    fn add(self, rhs: i64) -> (r: Self::Output) {
        self.add_scalar(rhs)
    }
}

impl<Unit> vstd::std_specs::ops::AddSpecImpl<i64> for Time<Unit, i64> where Unit: TimeUnit {
    open spec fn obeys_add_spec() -> bool {
        true
    }

    open spec fn add_req(self, rhs: i64) -> bool {
        fits_i64(self.value + rhs)
    }

    open spec fn add_spec(self, rhs: i64) -> Self::Output {
        Time { unit: self.unit, value: (self.value + rhs) as i64 }
    }
}

impl<Unit> std::ops::Sub<i64> for Time<Unit, i64> where Unit: TimeUnit {
    type Output = Time<Unit, i64>;

    fn sub(self, rhs: i64) -> (r: Self::Output) {
        self.sub_scalar(rhs)
    }
}

impl<Unit> vstd::std_specs::ops::SubSpecImpl<i64> for Time<Unit, i64> where Unit: TimeUnit {
    open spec fn obeys_sub_spec() -> bool {
        true
    }

    open spec fn sub_req(self, rhs: i64) -> bool {
        fits_i64(self.value - rhs)
    }

    open spec fn sub_spec(self, rhs: i64) -> Self::Output {
        Time { unit: self.unit, value: (self.value - rhs) as i64 }
    }
}

impl<Unit> std::ops::Mul<i64> for Time<Unit, i64> where Unit: TimeUnit {
    type Output = Time<Unit, i64>;

    fn mul(self, rhs: i64) -> (r: Self::Output) {
        self.mul_scalar(rhs)
    }
}

impl<Unit> vstd::std_specs::ops::MulSpecImpl<i64> for Time<Unit, i64> where Unit: TimeUnit {
    open spec fn obeys_mul_spec() -> bool {
        true
    }

    open spec fn mul_req(self, rhs: i64) -> bool {
        fits_i64(self.value * rhs)
    }

    open spec fn mul_spec(self, rhs: i64) -> Self::Output {
        Time { unit: self.unit, value: (self.value * rhs) as i64 }
    }
}

impl<Unit> std::ops::Div<i64> for Time<Unit, i64> where Unit: TimeUnit {
    type Output = Time<Unit, i64>;

    /// Division that is known to succeed; [`Time::div_scalar`] reports the
    /// cases where it cannot.
    fn div(self, rhs: i64) -> (r: Self::Output) {
        proof {
            lemma_quotient_fits(self.value, rhs);
        }
        Time::new(quotient(self.value, rhs), self.unit)
    }
}

impl<Unit> vstd::std_specs::ops::DivSpecImpl<i64> for Time<Unit, i64> where Unit: TimeUnit {
    open spec fn obeys_div_spec() -> bool {
        true
    }

    open spec fn div_req(self, rhs: i64) -> bool {
        rhs != 0 && fits_i64(div_toward_zero(self.value as int, rhs as int))
    }

    open spec fn div_spec(self, rhs: i64) -> Self::Output {
        Time { unit: self.unit, value: div_toward_zero(self.value as int, rhs as int) as i64 }
    }
}

} // verus!
