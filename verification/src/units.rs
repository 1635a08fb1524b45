//! Angles and the fixed-point arithmetic behind the turtle's geometry.
//!
//! An [`Angle`] is a signed number of *angle units*: millionths of one full
//! turn. A full turn is [`FULL_TURN_UNITS`]; a value built through
//! [`Angle::new`] is reduced into `[-FULL_TURN_UNITS, FULL_TURN_UNITS]`,
//! where the two boundary values themselves are kept as they are.

use vstd::prelude::*;
use vstd::arithmetic::div_mod::*;
use vstd::arithmetic::mul::*;

verus! {

/// Scalar type for coordinates, distances and stroke widths.
pub type Units = i64;

/// A point: a pair of `(x, y)` coordinates.
pub type Pt = (Units, Units);

/// A distance along the turtle's heading.
pub type Distance = Units;

/// A stroke width.
pub type Thickness = Units;

/// One full turn, in angle units (millionths of a turn).
pub const FULL_TURN_UNITS: i64 = 1_000_000;

/// Half a turn, in angle units.
pub const HALF_TURN_UNITS: i64 = 500_000;

/// A quarter of a turn, in angle units.
pub const QUARTER_TURN_UNITS: i64 = 250_000;

/// The fixed-point scale of trigonometric values: [`Angle::cos`] and
/// [`Angle::sin`] return multiples of one millionth of the unit value.
pub const TRIG_ONE: i64 = 1_000_000;

/// Coordinates are kept within `[-COORD_LIMIT, COORD_LIMIT]`; arithmetic
/// that would leave the range saturates at the bounds.
pub const COORD_LIMIT: i64 = 1_000_000_000_000;

/// An eighth of a turn, in angle units.
pub const EIGHTH_TURN_UNITS: i64 = 125_000;

/// Curvature correction of the one-octant arctangent approximation, in
/// angle units.
pub const ATAN_ADJUST: i64 = 43_449;

/// Clamps a coordinate into `[-COORD_LIMIT, COORD_LIMIT]`.
pub open spec fn sat(v: int) -> int {
    if v < -COORD_LIMIT {
        -COORD_LIMIT as int
    } else if v > COORD_LIMIT {
        COORD_LIMIT as int
    } else {
        v
    }
}

/// `d` scaled by the fixed-point trigonometric value `t`: the product
/// divided by [`TRIG_ONE`], rounded toward zero.
pub open spec fn scale_by_trig(d: int, t: int) -> int {
    if d * t >= 0 {
        (d * t) / (TRIG_ONE as int)
    } else {
        -((-(d * t)) / (TRIG_ONE as int))
    }
}

/// The sine of `u` angle units for `u` in `[0, HALF_TURN_UNITS]`, as a
/// fixed-point value scaled by [`TRIG_ONE`]: a ratio of two quadratics in
/// `u`, exact at zero, a quarter turn and a half turn.
pub open spec fn sine_half_wave(u: int) -> int {
    (TRIG_ONE * (16 * (u * (HALF_TURN_UNITS - u)))) / (5 * (HALF_TURN_UNITS * HALF_TURN_UNITS)
        - 4 * (u * (HALF_TURN_UNITS - u)))
}

/// The sine of `u` angle units for `u` in `[0, FULL_TURN_UNITS]`: the
/// half-wave, negated on the second half of the turn.
pub open spec fn sine_nonneg_units(u: int) -> int {
    if u <= HALF_TURN_UNITS {
        sine_half_wave(u)
    } else {
        -sine_half_wave(u - HALF_TURN_UNITS)
    }
}

/// The sine of `u` angle units for `u` in `[-FULL_TURN_UNITS,
/// FULL_TURN_UNITS]`, scaled by [`TRIG_ONE`]. Odd in `u`.
pub open spec fn sine_units(u: int) -> int {
    if u < 0 {
        -sine_nonneg_units(-u)
    } else {
        sine_nonneg_units(u)
    }
}

/// The cosine of `u` angle units, scaled by [`TRIG_ONE`]: the sine shifted
/// by a quarter turn.
pub open spec fn cosine_units(u: int) -> int {
    sine_units(norm_angle(u + QUARTER_TURN_UNITS))
}

/// The arctangent of `num / den` for `0 <= num <= den`, in angle units
/// (within `[0, EIGHTH_TURN_UNITS]`): linear in the ratio with a quadratic
/// correction, exact at a ratio of zero or one.
pub open spec fn atan_octant(num: int, den: int) -> int {
    let z = (num * TRIG_ONE) / den;
    let w = (z * (TRIG_ONE - z)) / (TRIG_ONE as int);
    (EIGHTH_TURN_UNITS * z + ATAN_ADJUST * w) / (TRIG_ONE as int)
}

/// The heading of the displacement `(dx, dy)`, in angle units within
/// `[-HALF_TURN_UNITS, HALF_TURN_UNITS]`: the one-octant arctangent,
/// reflected into the displacement's quadrant. Zero when the displacement
/// is zero; exact on the axes and the diagonals.
pub open spec fn atan2_units(dy: int, dx: int) -> int {
    let ax = if dx < 0 { -dx } else { dx };
    let ay = if dy < 0 { -dy } else { dy };
    let r0 = if ax == 0 && ay == 0 {
        0
    } else if ax >= ay {
        atan_octant(ay, ax)
    } else {
        QUARTER_TURN_UNITS - atan_octant(ax, ay)
    };
    if dy >= 0 {
        if dx >= 0 {
            r0
        } else {
            HALF_TURN_UNITS - r0
        }
    } else {
        if dx >= 0 {
            -r0
        } else {
            -(HALF_TURN_UNITS - r0)
        }
    }
}

/// The reduction applied by [`Angle::new`]: values of magnitude at most one
/// full turn pass through unchanged (the boundary included); larger values
/// are replaced by the remainder of the division by a full turn, keeping
/// their sign.
pub open spec fn norm_angle(v: int) -> int {
    if -FULL_TURN_UNITS <= v <= FULL_TURN_UNITS {
        v
    } else if v >= 0 {
        v % (FULL_TURN_UNITS as int)
    } else {
        -((-v) % (FULL_TURN_UNITS as int))
    }
}

/// An angle, stored in angle units and always within one full turn of zero.
#[derive(Clone, Copy, Debug)]
pub struct Angle(i64);

impl View for Angle {
    type V = int;

    closed spec fn view(&self) -> int {
        self.0 as int
    }
}

impl Angle {
    /// Every angle stays within one full turn of zero.
    #[verifier::type_invariant]
    spec fn inv(self) -> bool {
        -FULL_TURN_UNITS <= self.0 <= FULL_TURN_UNITS
    }

    /// Builds an angle from a raw number of angle units, reducing it as
    /// [`norm_angle`] describes.
    pub fn new(value: i64) -> (r: Angle)
        ensures
            r@ == norm_angle(value as int),
    {
        if -FULL_TURN_UNITS <= value && value <= FULL_TURN_UNITS {
            Angle(value)
        } else {
            let neg: bool = value < 0;
            let mag: u64 = if neg {
                (-(value as i128)) as u64
            } else {
                value as u64
            };
            let rem: u64 = mag % (FULL_TURN_UNITS as u64);
            let rem_i: i64 = rem as i64;
            if neg {
                Angle(-rem_i)
            } else {
                Angle(rem_i)
            }
        }
    }

    /// The angle's value in angle units.
    pub fn value(&self) -> (v: i64)
        ensures
            v as int == self@,
            -FULL_TURN_UNITS <= v <= FULL_TURN_UNITS,
    {
        proof {
            use_type_invariant(self);
        }
        self.0
    }

    /// The additive inverse, reduced again.
    pub fn negate(&self) -> (r: Angle)
        ensures
            r@ == norm_angle(-self@),
    {
        proof {
            use_type_invariant(self);
        }
        Angle::new(-self.0)
    }

    /// The sum of two angles, reduced again.
    pub fn add(&self, other: Angle) -> (r: Angle)
        ensures
            r@ == norm_angle(self@ + other@),
    {
        proof {
            use_type_invariant(self);
            use_type_invariant(&other);
        }
        Angle::new(self.0 + other.0)
    }

    /// The difference of two angles, reduced again.
    pub fn subtract(&self, other: Angle) -> (r: Angle)
        ensures
            r@ == norm_angle(self@ - other@),
    {
        proof {
            use_type_invariant(self);
            use_type_invariant(&other);
        }
        Angle::new(self.0 - other.0)
    }

    /// One full turn. Its value is the upper boundary that [`Angle::new`]
    /// keeps unreduced.
    pub fn turn() -> (r: Angle)
        ensures
            r@ == FULL_TURN_UNITS as int,
    {
        Angle::new(FULL_TURN_UNITS)
    }

    /// Half a turn.
    pub fn half_turn() -> (r: Angle)
        ensures
            r@ == HALF_TURN_UNITS as int,
    {
        Angle::new(HALF_TURN_UNITS)
    }

    /// A quarter of a turn.
    pub fn quarter_turn() -> (r: Angle)
        ensures
            r@ == QUARTER_TURN_UNITS as int,
    {
        Angle::new(QUARTER_TURN_UNITS)
    }

    /// The zero angle.
    pub fn zero() -> (r: Angle)
        ensures
            r@ == 0,
    {
        Angle::new(0)
    }

    /// The sine of the angle, as a fixed-point value scaled by
    /// [`TRIG_ONE`].
    pub fn sin(&self) -> (r: Units)
        ensures
            r as int == sine_units(self@),
            -TRIG_ONE <= r <= TRIG_ONE,
    {
        proof {
            use_type_invariant(self);
        }
        if self.0 < 0 {
            -sine_nonneg(-self.0)
        } else {
            sine_nonneg(self.0)
        }
    }

    /// The cosine of the angle, as a fixed-point value scaled by
    /// [`TRIG_ONE`].
    pub fn cos(&self) -> (r: Units)
        ensures
            r as int == cosine_units(self@),
            -TRIG_ONE <= r <= TRIG_ONE,
    {
        proof {
            use_type_invariant(self);
        }
        let shifted = Angle::new(self.0 + QUARTER_TURN_UNITS);
        shifted.sin()
    }

    /// The cosine scaled by the distance `r`: the projection of `r` onto
    /// the horizontal axis. `r` is clamped into the coordinate range first.
    pub fn cos_r(&self, r: Distance) -> (d: Units)
        ensures
            d as int == scale_by_trig(sat(r as int), cosine_units(self@)),
            -COORD_LIMIT <= d <= COORD_LIMIT,
    {
        let t = self.cos();
        mul_scale(clamp_coord(r), t)
    }

    /// The sine scaled by the distance `r`: the projection of `r` onto the
    /// vertical axis. `r` is clamped into the coordinate range first.
    pub fn sin_r(&self, r: Distance) -> (d: Units)
        ensures
            d as int == scale_by_trig(sat(r as int), sine_units(self@)),
            -COORD_LIMIT <= d <= COORD_LIMIT,
    {
        let t = self.sin();
        mul_scale(clamp_coord(r), t)
    }
}

/// Clamps a coordinate into the representable range, as [`sat`] describes.
pub(crate) fn clamp_coord(v: i64) -> (r: i64)
    ensures
        r as int == sat(v as int),
        -COORD_LIMIT <= r <= COORD_LIMIT,
{
    if v < -COORD_LIMIT {
        -COORD_LIMIT
    } else if v > COORD_LIMIT {
        COORD_LIMIT
    } else {
        v
    }
}

/// Multiplies a clamped coordinate by a fixed-point trigonometric value and
/// removes the scale again, rounding toward zero.
pub(crate) fn mul_scale(d: i64, t: i64) -> (r: i64)
    requires
        -COORD_LIMIT <= d <= COORD_LIMIT,
        -TRIG_ONE <= t <= TRIG_ONE,
    ensures
        r as int == scale_by_trig(d as int, t as int),
        -COORD_LIMIT <= r <= COORD_LIMIT,
{
    let dn: bool = d < 0;
    let tn: bool = t < 0;
    let ad: u64 = if dn {
        (-d) as u64
    } else {
        d as u64
    };
    let at: u64 = if tn {
        (-t) as u64
    } else {
        t as u64
    };
    proof {
        let di = d as int;
        let ti = t as int;
        let adi = ad as int;
        let ati = at as int;
        assert((adi * ati == if di * ti >= 0 {
            di * ti
        } else {
            -(di * ti)
        }) && (di * ti < 0 ==> ((di < 0) != (ti < 0))) && (((di < 0) != (ti < 0)) ==> di * ti
            <= 0) && adi * ati <= adi * 1_000_000) by (nonlinear_arith)
            requires
                adi == if di < 0 {
                    -di
                } else {
                    di
                },
                ati == if ti < 0 {
                    -ti
                } else {
                    ti
                },
                ati <= 1_000_000,
        ;
        assert(adi * 1_000_000 <= 1_000_000_000_000_000_000) by (nonlinear_arith)
            requires
                adi <= 1_000_000_000_000,
        ;
    }
    let p: u64 = ad * at;
    let q: u64 = p / (TRIG_ONE as u64);
    proof {
        lemma_div_is_ordered(p as int, (ad as int) * 1_000_000, 1_000_000);
        lemma_div_by_multiple(ad as int, 1_000_000);
    }
    let qi: i64 = q as i64;
    if dn != tn {
        -qi
    } else {
        qi
    }
}

/// The sine on `[0, HALF_TURN_UNITS]`, computed as [`sine_half_wave`]
/// states it.
fn sine_core(u: i64) -> (r: i64)
    requires
        0 <= u <= HALF_TURN_UNITS,
    ensures
        r as int == sine_half_wave(u as int),
        0 <= r <= TRIG_ONE,
{
    let uu: u64 = u as u64;
    let hu: u64 = HALF_TURN_UNITS as u64;
    proof {
        let ui = uu as int;
        assert(0 <= ui * (500_000 - ui) <= 62_500_000_000) by (nonlinear_arith)
            requires
                0 <= ui <= 500_000,
        ;
    }
    let a: u64 = uu * (hu - uu);
    let num: u64 = (TRIG_ONE as u64) * (16 * a);
    let den: u64 = 5 * (hu * hu) - 4 * a;
    proof {
        let numi = num as int;
        let deni = den as int;
        assert(numi <= 1_000_000 * deni) by (nonlinear_arith)
            requires
                numi == 1_000_000 * (16 * (a as int)),
                deni == 1_250_000_000_000 - 4 * (a as int),
                0 <= a as int <= 62_500_000_000,
        ;
        lemma_div_is_ordered(numi, 1_000_000 * deni, deni);
        lemma_div_by_multiple(1_000_000, deni);
    }
    let r: u64 = num / den;
    r as i64
}

/// The sine on `[0, FULL_TURN_UNITS]`, as [`sine_nonneg_units`] states it.
fn sine_nonneg(u: i64) -> (r: i64)
    requires
        0 <= u <= FULL_TURN_UNITS,
    ensures
        r as int == sine_nonneg_units(u as int),
        -TRIG_ONE <= r <= TRIG_ONE,
{
    if u <= HALF_TURN_UNITS {
        sine_core(u)
    } else {
        -sine_core(u - HALF_TURN_UNITS)
    }
}

/// The one-octant arctangent, as [`atan_octant`] states it.
fn atan_octant_exec(num: u64, den: u64) -> (r: i64)
    requires
        num <= den,
        0 < den <= 2 * (COORD_LIMIT as int),
    ensures
        r as int == atan_octant(num as int, den as int),
        0 <= r <= EIGHTH_TURN_UNITS,
{
    proof {
        assert((num as int) * 1_000_000 <= 2_000_000_000_000_000_000) by (nonlinear_arith)
            requires
                num as int <= 2_000_000_000_000,
        ;
        assert((num as int) * 1_000_000 <= (den as int) * 1_000_000) by (nonlinear_arith)
            requires
                num as int <= den as int,
        ;
        lemma_div_is_ordered((num as int) * 1_000_000, (den as int) * 1_000_000, den as int);
        lemma_div_by_multiple(1_000_000, den as int);
    }
    let z: u64 = (num * (TRIG_ONE as u64)) / den;
    proof {
        let zi = z as int;
        assert(0 <= zi * (1_000_000 - zi) <= 1_000_000 * (1_000_000 - zi)) by (nonlinear_arith)
            requires
                0 <= zi <= 1_000_000,
        ;
        lemma_div_is_ordered(zi * (1_000_000 - zi), 1_000_000 * (1_000_000 - zi), 1_000_000);
        lemma_div_by_multiple(1_000_000 - zi, 1_000_000);
    }
    let w: u64 = (z * ((TRIG_ONE as u64) - z)) / (TRIG_ONE as u64);
    proof {
        let zi = z as int;
        let wi = w as int;
        assert(125_000 * zi + 43_449 * wi <= 125_000 * 1_000_000) by (nonlinear_arith)
            requires
                0 <= zi <= 1_000_000,
                0 <= wi <= 1_000_000 - zi,
        ;
        lemma_div_is_ordered(125_000 * zi + 43_449 * wi, 125_000int * 1_000_000, 1_000_000);
    }
    let t: u64 = (EIGHTH_TURN_UNITS as u64) * z + (ATAN_ADJUST as u64) * w;
    let r: u64 = t / (TRIG_ONE as u64);
    r as i64
}

/// The heading of the displacement `(dx, dy)`, as [`atan2_units`] states
/// it. The inputs span at most twice the coordinate range, as any
/// difference of two clamped coordinates does.
pub(crate) fn atan2_exec(dy: i64, dx: i64) -> (r: i64)
    requires
        -2 * (COORD_LIMIT as int) <= dy <= 2 * (COORD_LIMIT as int),
        -2 * (COORD_LIMIT as int) <= dx <= 2 * (COORD_LIMIT as int),
    ensures
        r as int == atan2_units(dy as int, dx as int),
        -HALF_TURN_UNITS <= r <= HALF_TURN_UNITS,
{
    let ax: u64 = if dx < 0 {
        (-dx) as u64
    } else {
        dx as u64
    };
    let ay: u64 = if dy < 0 {
        (-dy) as u64
    } else {
        dy as u64
    };
    let r0: i64 = if ax == 0 && ay == 0 {
        0
    } else if ax >= ay {
        atan_octant_exec(ay, ax)
    } else {
        QUARTER_TURN_UNITS - atan_octant_exec(ax, ay)
    };
    if dy >= 0 {
        if dx >= 0 {
            r0
        } else {
            HALF_TURN_UNITS - r0
        }
    } else {
        if dx >= 0 {
            -r0
        } else {
            -(HALF_TURN_UNITS - r0)
        }
    }
}

/// Whatever the raw value, the reduction lands within one full turn of
/// zero.
pub proof fn lemma_norm_angle_range(v: int)
    ensures
        -FULL_TURN_UNITS <= norm_angle(v) <= FULL_TURN_UNITS,
{
}

/// Values within one full turn of zero pass through the reduction
/// unchanged — the boundary values included.
pub proof fn lemma_norm_angle_pass_through(v: int)
    requires
        -FULL_TURN_UNITS <= v <= FULL_TURN_UNITS,
    ensures
        norm_angle(v) == v,
{
}

/// Values beyond one full turn are reduced strictly inside one turn, and
/// the reduction changes them by a whole number of turns only.
pub proof fn lemma_norm_angle_reduces(v: int)
    requires
        v < -FULL_TURN_UNITS || FULL_TURN_UNITS < v,
    ensures
        -FULL_TURN_UNITS < norm_angle(v) < FULL_TURN_UNITS,
        (v - norm_angle(v)) % (FULL_TURN_UNITS as int) == 0,
{
    let f = FULL_TURN_UNITS as int;
    if v >= 0 {
        lemma_fundamental_div_mod(v, f);
        assert(v - norm_angle(v) == f * (v / f));
        lemma_mul_is_commutative(f, v / f);
        lemma_mod_multiples_basic(v / f, f);
    } else {
        lemma_fundamental_div_mod(-v, f);
        assert(v - norm_angle(v) == -(f * ((-v) / f)));
        assert(-(f * ((-v) / f)) == (-((-v) / f)) * f) by (nonlinear_arith);
        lemma_mod_multiples_basic(-((-v) / f), f);
    }
}

/// Composing two angles keeps the reduced sum within one full turn —
/// strictly inside it unless the raw sum lands exactly on plus or minus one
/// full turn — and differs from the raw sum by a whole number of turns
/// only.
pub proof fn lemma_angle_add_closure(a: int, b: int)
    requires
        -FULL_TURN_UNITS <= a <= FULL_TURN_UNITS,
        -FULL_TURN_UNITS <= b <= FULL_TURN_UNITS,
    ensures
        -FULL_TURN_UNITS <= norm_angle(a + b) <= FULL_TURN_UNITS,
        a + b != FULL_TURN_UNITS && a + b != -FULL_TURN_UNITS ==> -FULL_TURN_UNITS < norm_angle(
            a + b,
        ) < FULL_TURN_UNITS,
        ((a + b) - norm_angle(a + b)) % (FULL_TURN_UNITS as int) == 0,
{
    if -FULL_TURN_UNITS <= a + b <= FULL_TURN_UNITS {
        lemma_norm_angle_pass_through(a + b);
    } else {
        lemma_norm_angle_reduces(a + b);
    }
}

} // verus!
