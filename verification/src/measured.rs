//! Measured values, carried as the bit pattern of an IEEE 754 binary64 number.
//!
//! The panels never compute with a measured value; they pass it on, compare it,
//! and choose how it is written. All of that is exact on the bit pattern, where
//! the order of numbers is the order of signed magnitudes.

use vstd::prelude::*;

verus! {

/// A binary64 number as its bit pattern. `==` compares the patterns; numeric
/// equality is [`Number::equals`].
#[derive(Clone, Copy, Debug, PartialEq, Eq, Structural)]
pub struct Number {
    pub bits: u64,
}

/// The sign bit.
pub const SIGN: u64 = 0x8000_0000_0000_0000;

/// The magnitude of an infinity; a greater one is a NaN.
pub const INFINITY: u64 = 0x7ff0_0000_0000_0000;

/// Zero.
#[verifier::allow_in_spec]
pub fn zero() -> Number
    returns
        (Number { bits: 0 }),
{
    Number { bits: 0 }
}

/// One.
#[verifier::allow_in_spec]
pub fn one() -> Number
    returns
        (Number { bits: 0x3ff0_0000_0000_0000 }),
{
    Number { bits: 0x3ff0_0000_0000_0000 }
}

/// The default radius for an object whose shape was just chosen: 0.15.
#[verifier::allow_in_spec]
pub fn default_authoring_radius() -> Number
    returns
        (Number { bits: 0x3fc3_3333_3333_3333 }),
{
    Number { bits: 0x3fc3_3333_3333_3333 }
}

/// The smallest radius a sphere or box is given: 1e-4.
#[verifier::allow_in_spec]
pub fn smallest_extent() -> Number
    returns
        (Number { bits: 0x3f1a_36e2_eb1c_432d }),
{
    Number { bits: 0x3f1a_36e2_eb1c_432d }
}

impl Number {
    /// The pattern without its sign.
    pub open spec fn magnitude(self) -> int {
        if self.bits >= SIGN {
            self.bits - SIGN
        } else {
            self.bits as int
        }
    }

    pub open spec fn is_nan(self) -> bool {
        self.magnitude() > INFINITY
    }

    pub open spec fn is_finite(self) -> bool {
        self.magnitude() < INFINITY
    }

    /// The signed magnitude: numbers are ordered as their keys are, and both
    /// zeros have the key zero.
    pub open spec fn key(self) -> int {
        if self.bits >= SIGN {
            -self.magnitude()
        } else {
            self.magnitude()
        }
    }

    /// Numeric equality: false of a NaN, true of the two zeros.
    pub open spec fn value_equal(self, other: Self) -> bool {
        !self.is_nan() && !other.is_nan() && self.key() == other.key()
    }

    /// Numeric order: false of a NaN.
    pub open spec fn value_less(self, other: Self) -> bool {
        !self.is_nan() && !other.is_nan() && self.key() < other.key()
    }

    /// Numeric order or equality: false of a NaN.
    pub open spec fn value_at_most(self, other: Self) -> bool {
        !self.is_nan() && !other.is_nan() && self.key() <= other.key()
    }

    fn magnitude_bits(self) -> (m: u64)
        ensures
            m == self.magnitude(),
    {
        if self.bits >= SIGN {
            self.bits - SIGN
        } else {
            self.bits
        }
    }

    /// Whether the number is neither infinite nor a NaN.
    pub fn finite(self) -> (b: bool)
        ensures
            b == self.is_finite(),
    {
        self.magnitude_bits() < INFINITY
    }

    /// Whether the number is a NaN.
    pub fn nan(self) -> (b: bool)
        ensures
            b == self.is_nan(),
    {
        self.magnitude_bits() > INFINITY
    }

    /// Whether the number is finite and greater than zero.
    pub fn positive(self) -> (b: bool)
        ensures
            b == (self.is_finite() && zero().value_less(self)),
    {
        0 < self.bits && self.bits < INFINITY
    }

    /// Numeric `<`.
    pub fn less(self, other: Self) -> (b: bool)
        ensures
            b == self.value_less(other),
    {
        if self.nan() || other.nan() {
            false
        } else if self.bits >= SIGN {
            if other.bits >= SIGN {
                self.bits > other.bits
            } else {
                self.bits > SIGN || other.bits > 0
            }
        } else {
            other.bits < SIGN && self.bits < other.bits
        }
    }

    /// Numeric `==`.
    pub fn equals(self, other: Self) -> (b: bool)
        ensures
            b == self.value_equal(other),
    {
        !self.nan() && !other.nan() && !self.less(other) && !other.less(self)
    }

    /// Numeric `<=`.
    pub fn at_most(self, other: Self) -> (b: bool)
        ensures
            b == self.value_at_most(other),
    {
        !self.nan() && !other.nan() && !other.less(self)
    }

    /// The number without its sign.
    pub fn absolute(self) -> (r: Self)
        ensures
            r.bits == self.magnitude(),
    {
        Number { bits: self.magnitude_bits() }
    }

    /// The greater of two numbers, ignoring a NaN.
    pub fn greater_of(self, other: Self) -> (r: Self)
        ensures
            self.is_nan() ==> r == other,
            !self.is_nan() && other.is_nan() ==> r == self,
            !self.is_nan() && !other.is_nan() ==> r == if self.key() < other.key() {
                other
            } else {
                self
            },
    {
        if self.nan() {
            other
        } else if self.less(other) {
            other
        } else {
            self
        }
    }
}

/// `<` on numbers is transitive.
pub proof fn less_is_transitive(a: Number, b: Number, c: Number)
    requires
        a.value_less(b),
        b.value_less(c),
    ensures
        a.value_less(c),
{
}

/// Of two numbers that are no NaN exactly one of `<`, `==` and `>` holds.
pub proof fn numbers_are_ordered(a: Number, b: Number)
    requires
        !a.is_nan(),
        !b.is_nan(),
    ensures
        a.value_less(b) || a.value_equal(b) || b.value_less(a),
        a.value_less(b) ==> !a.value_equal(b) && !b.value_less(a),
        a.value_equal(b) ==> !b.value_less(a),
{
}

/// A position, extent or velocity.
#[derive(Clone, Copy, Debug, PartialEq, Eq, Structural)]
pub struct Vec3 {
    pub x: Number,
    pub y: Number,
    pub z: Number,
}

impl Vec3 {
    /// Numeric equality in every component.
    pub open spec fn value_equal(self, other: Self) -> bool {
        self.x.value_equal(other.x) && self.y.value_equal(other.y) && self.z.value_equal(other.z)
    }

    /// Numeric equality in every component.
    pub fn equals(self, other: Self) -> (b: bool)
        ensures
            b == self.value_equal(other),
    {
        self.x.equals(other.x) && self.y.equals(other.y) && self.z.equals(other.z)
    }

    /// The same value in every component.
    pub fn splat(value: Number) -> (v: Self)
        ensures
            v == (Vec3 { x: value, y: value, z: value }),
    {
        Vec3 { x: value, y: value, z: value }
    }
}

/// A vector of zeros.
#[verifier::allow_in_spec]
pub fn origin() -> Vec3
    returns
        (Vec3 { x: zero(), y: zero(), z: zero() }),
{
    Vec3 { x: zero(), y: zero(), z: zero() }
}

/// An extent along two axes of a plane.
#[derive(Clone, Copy, Debug, PartialEq, Eq, Structural)]
pub struct Vec2 {
    pub x: Number,
    pub y: Number,
}

/// A rotation.
#[derive(Clone, Copy, Debug, PartialEq, Eq, Structural)]
pub struct Quat {
    pub x: Number,
    pub y: Number,
    pub z: Number,
    pub w: Number,
}

/// The rotation that leaves everything in place.
#[verifier::allow_in_spec]
pub fn identity() -> Quat
    returns
        (Quat { x: zero(), y: zero(), z: zero(), w: one() }),
{
    Quat { x: zero(), y: zero(), z: zero(), w: one() }
}

/// The unit a duration is written in.
#[derive(Clone, Copy, Debug, PartialEq, Eq, Structural)]
pub enum TimeUnit {
    Second,
    Millisecond,
    Microsecond,
    Nanosecond,
    Picosecond,
    Femtosecond,
}

impl TimeUnit {
    /// The unit's length in seconds.
    pub open spec fn length(self) -> Number {
        match self {
            TimeUnit::Second => one(),
            TimeUnit::Millisecond => Number { bits: 0x3f50_624d_d2f1_a9fc },
            TimeUnit::Microsecond => Number { bits: 0x3eb0_c6f7_a0b5_ed8d },
            TimeUnit::Nanosecond => Number { bits: 0x3e11_2e0b_e826_d695 },
            TimeUnit::Picosecond => Number { bits: 0x3d71_9799_812d_ea11 },
            TimeUnit::Femtosecond => Number { bits: 0x3cd2_03af_9ee7_5616 },
        }
    }

    /// The unit's length in seconds.
    pub fn seconds(self) -> (r: Number)
        ensures
            r == self.length(),
    {
        match self {
            TimeUnit::Second => one(),
            TimeUnit::Millisecond => Number { bits: 0x3f50_624d_d2f1_a9fc },
            TimeUnit::Microsecond => Number { bits: 0x3eb0_c6f7_a0b5_ed8d },
            TimeUnit::Nanosecond => Number { bits: 0x3e11_2e0b_e826_d695 },
            TimeUnit::Picosecond => Number { bits: 0x3d71_9799_812d_ea11 },
            TimeUnit::Femtosecond => Number { bits: 0x3cd2_03af_9ee7_5616 },
        }
    }

    /// How the unit is written after the number.
    pub fn suffix(self) -> (s: &'static str)
        ensures
            self is Second ==> s@ == "s"@,
            self is Millisecond ==> s@ == "ms"@,
            self is Microsecond ==> s@ == "µs"@,
            self is Nanosecond ==> s@ == "ns"@,
            self is Picosecond ==> s@ == "ps"@,
            self is Femtosecond ==> s@ == "fs"@,
    {
        match self {
            TimeUnit::Second => "s",
            TimeUnit::Millisecond => "ms",
            TimeUnit::Microsecond => "µs",
            TimeUnit::Nanosecond => "ns",
            TimeUnit::Picosecond => "ps",
            TimeUnit::Femtosecond => "fs",
        }
    }
}

/// The unit a duration is written in: the longest one it reaches, and
/// femtoseconds for anything shorter than a picosecond.
pub fn time_unit(seconds: Number) -> (unit: TimeUnit)
    ensures
        unit !is Femtosecond ==> unit.length().value_at_most(seconds),
        unit is Millisecond ==> !TimeUnit::Second.length().value_at_most(seconds),
        unit is Microsecond ==> !TimeUnit::Millisecond.length().value_at_most(seconds),
        unit is Nanosecond ==> !TimeUnit::Microsecond.length().value_at_most(seconds),
        unit is Picosecond ==> !TimeUnit::Nanosecond.length().value_at_most(seconds),
        unit is Femtosecond ==> !TimeUnit::Picosecond.length().value_at_most(seconds),
{
    if TimeUnit::Second.seconds().at_most(seconds) {
        TimeUnit::Second
    } else if TimeUnit::Millisecond.seconds().at_most(seconds) {
        TimeUnit::Millisecond
    } else if TimeUnit::Microsecond.seconds().at_most(seconds) {
        TimeUnit::Microsecond
    } else if TimeUnit::Nanosecond.seconds().at_most(seconds) {
        TimeUnit::Nanosecond
    } else if TimeUnit::Picosecond.seconds().at_most(seconds) {
        TimeUnit::Picosecond
    } else {
        TimeUnit::Femtosecond
    }
}

/// How a value that can range over many orders of magnitude is written.
#[derive(Clone, Copy, Debug, PartialEq, Eq, Structural)]
pub enum Notation {
    /// A bare `0`.
    Zero,
    /// Four decimals.
    Plain,
    /// Six decimals and a power of ten.
    Scientific,
}

/// Zero stays bare, a magnitude from a thousandth up to a million is plain, and
/// everything else is scientific.
pub fn engineering_notation(value: Number) -> (notation: Notation)
    ensures
        notation is Zero <==> value.value_equal(zero()),
        notation is Plain <==> 0x3f50_624d_d2f1_a9fc <= value.magnitude() < 0x412e_8480_0000_0000,
        notation is Scientific <==> !value.value_equal(zero()) && !(0x3f50_624d_d2f1_a9fc
            <= value.magnitude() < 0x412e_8480_0000_0000),
{
    if value.equals(zero()) {
        return Notation::Zero;
    }
    let magnitude: u64 = value.absolute().bits;
    if 0x3f50_624d_d2f1_a9fc <= magnitude && magnitude < 0x412e_8480_0000_0000 {
        Notation::Plain
    } else {
        Notation::Scientific
    }
}

/// Whether `bound` is the least (or greatest) finite value of `values`.
pub open spec fn bounds_finite(values: Seq<Number>, low: Number, high: Number) -> bool {
    &&& exists|i: int| 0 <= i < values.len() && values[i].is_finite() && values[i] == low
    &&& exists|i: int| 0 <= i < values.len() && values[i].is_finite() && values[i] == high
    &&& forall|i: int|
        0 <= i < values.len() && (#[trigger] values[i]).is_finite() ==> low.value_at_most(values[i])
            && values[i].value_at_most(high)
}

/// The least and the greatest finite value, if there is a finite one.
pub fn value_bounds(values: &Vec<Number>) -> (bounds: Option<(Number, Number)>)
    ensures
        bounds is None <==> forall|i: int| 0 <= i < values.len() ==> !(#[trigger] values[i]).is_finite(),
        bounds matches Some(b) ==> bounds_finite(values@, b.0, b.1),
{
    let mut bounds: Option<(Number, Number)> = None;
    let mut i: usize = 0;
    while i < values.len()
        invariant
            i <= values.len(),
            bounds is None <==> forall|k: int| 0 <= k < i ==> !(#[trigger] values[k]).is_finite(),
            bounds matches Some(b) ==> bounds_finite(values@.take(i as int), b.0, b.1),
        decreases values.len() - i,
    {
        let value: Number = values[i];
        let ghost before = values@.take(i as int);
        let ghost after = values@.take(i + 1);
        assert(after =~= before.push(value));
        if value.finite() {
            let extended: (Number, Number) = match bounds {
                None => (value, value),
                Some(b) => (
                    if value.less(b.0) {
                        value
                    } else {
                        b.0
                    },
                    if b.1.less(value) {
                        value
                    } else {
                        b.1
                    },
                ),
            };
            proof {
                assert(after[i as int] == value);
                if let Some(b) = bounds {
                    let l = choose|k: int|
                        0 <= k < before.len() && before[k].is_finite() && before[k] == b.0;
                    let h = choose|k: int|
                        0 <= k < before.len() && before[k].is_finite() && before[k] == b.1;
                    assert(after[l] == b.0 && after[h] == b.1);
                }
                assert forall|k: int| 0 <= k < after.len() && (#[trigger] after[k]).is_finite() implies
                    extended.0.value_at_most(after[k]) && after[k].value_at_most(extended.1) by {
                    if k < i {
                        assert(after[k] == before[k]);
                        assert(values[k] == before[k]);
                    }
                }
            }
            bounds = Some(extended);
        } else {
            proof {
                if let Some(b) = bounds {
                    let l = choose|k: int|
                        0 <= k < before.len() && before[k].is_finite() && before[k] == b.0;
                    let h = choose|k: int|
                        0 <= k < before.len() && before[k].is_finite() && before[k] == b.1;
                    assert(after[l] == b.0 && after[h] == b.1);
                    assert forall|k: int| 0 <= k < after.len() && (#[trigger] after[k]).is_finite() implies
                        b.0.value_at_most(after[k]) && after[k].value_at_most(b.1) by {
                        assert(after[k] == before[k]);
                    }
                }
            }
        }
        i = i + 1;
    }
    assert(values@.take(i as int) =~= values@);
    bounds
}

/// The sign is the highest bit of a pattern, the next eleven are its exponent and the rest its
/// fraction: a number is finite unless its exponent is all ones, and a NaN where that is so
/// and its fraction is not zero.
pub proof fn a_pattern_is_sign_exponent_and_fraction(n: Number)
    ensures
        n.is_finite() <==> n.bits as int / 0x10_0000_0000_0000 % 0x800 != 0x7ff,
        n.is_nan() <==> n.bits as int / 0x10_0000_0000_0000 % 0x800 == 0x7ff && n.bits as int
            % 0x10_0000_0000_0000 != 0,
        n.magnitude() == n.bits as int % 0x8000_0000_0000_0000,
{
}

/// Numbers without a sign are ordered as their patterns are and numbers with one the other way
/// round, every other number with a sign is less than one without, and both zeros are equal.
/// A NaN is neither equal to, nor less than, nor at most any number.
pub proof fn numbers_are_ordered_by_their_patterns(a: Number, b: Number)
    ensures
        a.is_nan() || b.is_nan() ==> !a.value_less(b) && !a.value_equal(b) && !a.value_at_most(b),
        !a.is_nan() && !b.is_nan() && a.bits < SIGN && b.bits < SIGN ==> (a.value_less(b) <==> a.bits
            < b.bits) && (a.value_equal(b) <==> a.bits == b.bits),
        !a.is_nan() && !b.is_nan() && a.bits >= SIGN && b.bits >= SIGN ==> (a.value_less(b) <==> a.bits
            > b.bits) && (a.value_equal(b) <==> a.bits == b.bits),
        !a.is_nan() && !b.is_nan() && a.bits >= SIGN && b.bits < SIGN ==> !b.value_less(a) && (
        a.value_equal(b) <==> a.bits == SIGN && b.bits == 0),
        a.value_at_most(b) <==> a.value_less(b) || a.value_equal(b),
{
}

/// Vectors are equal where they are equal along each axis.
pub proof fn vectors_are_equal_along_each_axis(a: Vec3, b: Vec3)
    ensures
        a.value_equal(b) <==> !a.x.is_nan() && !b.x.is_nan() && a.x.key() == b.x.key() && !a.y.is_nan()
            && !b.y.is_nan() && a.y.key() == b.y.key() && !a.z.is_nan() && !b.z.is_nan() && a.z.key()
            == b.z.key(),
{
}

/// The significand of a normal number, as an integer.
pub open spec fn significand_of(n: Number) -> int {
    0x10_0000_0000_0000 + n.bits as int % 0x10_0000_0000_0000
}

/// Whether a number of exponent `e`, counted from the least one, is the nearest to the fraction
/// `over / under`, where `scale` is two to the power of `1075 - e`.
pub open spec fn is_nearest(n: Number, e: int, scale: int, over: int, under: int) -> bool {
    &&& n.bits as int / 0x10_0000_0000_0000 == e
    &&& -under <= 2 * (significand_of(n) * under - over * scale) <= under
}

/// Each unit of time is the number nearest to a thousandth of the unit before it, from one
/// second down.
pub proof fn units_of_time_go_by_thousandths()
    ensures
        is_nearest(TimeUnit::Second.length(), 0x3ff, 0x10_0000_0000_0000, 1, 1),
        is_nearest(TimeUnit::Millisecond.length(), 0x3f5, 0x4000_0000_0000_0000, 1, 1_000),
        is_nearest(TimeUnit::Microsecond.length(), 0x3eb, 0x100_0000_0000_0000_0000, 1, 1_000_000),
        is_nearest(
            TimeUnit::Nanosecond.length(),
            0x3e1,
            0x4_0000_0000_0000_0000_0000,
            1,
            1_000_000_000,
        ),
        is_nearest(
            TimeUnit::Picosecond.length(),
            0x3d7,
            0x1000_0000_0000_0000_0000_0000,
            1,
            1_000_000_000_000,
        ),
        is_nearest(
            TimeUnit::Femtosecond.length(),
            0x3cd,
            0x40_0000_0000_0000_0000_0000_0000,
            1,
            1_000_000_000_000_000,
        ),
{
}

/// The fixed lengths are the numbers nearest to what they are called.
pub proof fn fixed_lengths_are_what_they_are_called()
    ensures
        zero().key() == 0,
        is_nearest(one(), 0x3ff, 0x10_0000_0000_0000, 1, 1),
        is_nearest(default_authoring_radius(), 0x3fc, 0x80_0000_0000_0000, 15, 100),
        is_nearest(smallest_extent(), 0x3f1, 0x4_0000_0000_0000_0000, 1, 10_000),
{
}

/// The bounds of a list are finite, the one is at most the other, and each is reached.
pub proof fn bounds_are_reached(values: Seq<Number>, low: Number, high: Number)
    requires
        bounds_finite(values, low, high),
    ensures
        low.is_finite() && high.is_finite(),
        low.value_at_most(high),
        values.contains(low) && values.contains(high),
        forall|i: int| 0 <= i < values.len() && (#[trigger] values[i]).is_finite() ==> !values[i].value_less(low)
            && !high.value_less(values[i]),
{
    let l = choose|i: int| 0 <= i < values.len() && values[i].is_finite() && values[i] == low;
    assert(values[l] == low);
}

} // verus!
