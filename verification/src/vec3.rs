//! Three-component fixed-point vectors, used as points, directions and RGB
//! colors. The ghost view of a vector is `V3`, its raw components as
//! unbounded integers; every operation states its exact raw-level result.
use vstd::prelude::*;

use crate::fx::{fits, mag, sdiv, smul, ssqrt, Fx};

verus! {

/// Ghost view of a `Vec3`: the three raw components as integers.
pub struct V3 {
    pub x: int,
    pub y: int,
    pub z: int,
}

#[derive(Clone, Copy, Debug, PartialEq, Eq, Structural)]
pub struct Vec3 {
    pub x: Fx,
    pub y: Fx,
    pub z: Fx,
}

impl View for Vec3 {
    type V = V3;

    open spec fn view(&self) -> V3 {
        V3 { x: self.x@, y: self.y@, z: self.z@ }
    }
}

pub open spec fn vfits(a: V3) -> bool {
    fits(a.x) && fits(a.y) && fits(a.z)
}

pub open spec fn vadd(a: V3, b: V3) -> V3 {
    V3 { x: a.x + b.x, y: a.y + b.y, z: a.z + b.z }
}

pub open spec fn vsub(a: V3, b: V3) -> V3 {
    V3 { x: a.x - b.x, y: a.y - b.y, z: a.z - b.z }
}

pub open spec fn vneg(a: V3) -> V3 {
    V3 { x: -a.x, y: -a.y, z: -a.z }
}

/// Component-wise product.
pub open spec fn vmul(a: V3, b: V3) -> V3 {
    V3 { x: smul(a.x, b.x), y: smul(a.y, b.y), z: smul(a.z, b.z) }
}

/// Scaling by a fixed-point factor.
pub open spec fn vscale(a: V3, k: int) -> V3 {
    V3 { x: smul(a.x, k), y: smul(a.y, k), z: smul(a.z, k) }
}

/// Component-wise quotient.
pub open spec fn vdiv(a: V3, b: V3) -> V3 {
    V3 { x: sdiv(a.x, b.x), y: sdiv(a.y, b.y), z: sdiv(a.z, b.z) }
}

/// Division of every component by a fixed-point factor.
pub open spec fn vdiv_scalar(a: V3, k: int) -> V3 {
    V3 { x: sdiv(a.x, k), y: sdiv(a.y, k), z: sdiv(a.z, k) }
}

pub open spec fn sdot(a: V3, b: V3) -> int {
    smul(a.x, b.x) + smul(a.y, b.y) + smul(a.z, b.z)
}

/// The fits conditions along the computation of a dot product.
pub open spec fn dot_fits(a: V3, b: V3) -> bool {
    fits(smul(a.x, b.x)) && fits(smul(a.y, b.y)) && fits(smul(a.z, b.z)) && fits(
        smul(a.x, b.x) + smul(a.y, b.y),
    ) && fits(sdot(a, b))
}

pub open spec fn vcross(a: V3, b: V3) -> V3 {
    V3 {
        x: smul(a.y, b.z) - smul(a.z, b.y),
        y: -(smul(a.x, b.z) - smul(a.z, b.x)),
        z: smul(a.x, b.y) - smul(a.y, b.x),
    }
}

/// The fits conditions along the computation of a cross product.
pub open spec fn cross_fits(a: V3, b: V3) -> bool {
    fits(smul(a.y, b.z)) && fits(smul(a.z, b.y)) && fits(smul(a.x, b.z)) && fits(smul(a.z, b.x))
        && fits(smul(a.x, b.y)) && fits(smul(a.y, b.x)) && vfits(vcross(a, b))
}

/// Raw length: the fixed-point square root of the squared length.
pub open spec fn vlen(a: V3) -> int {
    ssqrt(sdot(a, a))
}

/// The normalized vector (unspecified when `vunit_ok` fails).
pub open spec fn vunit(a: V3) -> V3 {
    vdiv_scalar(a, vlen(a))
}

/// Normalization succeeds: the squared length is computable, nonzero, and
/// the quotients stay in range.
pub open spec fn vunit_ok(a: V3) -> bool {
    dot_fits(a, a) && vlen(a) != 0 && vfits(vunit(a))
}

impl Vec3 {
    pub fn new(x: Fx, y: Fx, z: Fx) -> (r: Vec3)
        ensures
            r@ == (V3 { x: x@, y: y@, z: z@ }),
    {
        Vec3 { x, y, z }
    }

    pub fn zero() -> (r: Vec3)
        ensures
            r@ == (V3 { x: 0, y: 0, z: 0 }),
    {
        Vec3 { x: Fx::zero(), y: Fx::zero(), z: Fx::zero() }
    }

    pub fn r(&self) -> (r: Fx)
        ensures
            r@ == self@.x,
    {
        self.x
    }

    pub fn g(&self) -> (r: Fx)
        ensures
            r@ == self@.y,
    {
        self.y
    }

    pub fn b(&self) -> (r: Fx)
        ensures
            r@ == self@.z,
    {
        self.z
    }

    pub fn plus(self, o: Vec3) -> (r: Vec3)
        requires
            vfits(vadd(self@, o@)),
        ensures
            r@ == vadd(self@, o@),
    {
        Vec3 { x: self.x.plus(o.x), y: self.y.plus(o.y), z: self.z.plus(o.z) }
    }

    pub fn minus(self, o: Vec3) -> (r: Vec3)
        requires
            vfits(vsub(self@, o@)),
        ensures
            r@ == vsub(self@, o@),
    {
        Vec3 { x: self.x.minus(o.x), y: self.y.minus(o.y), z: self.z.minus(o.z) }
    }

    pub fn neg(self) -> (r: Vec3)
        requires
            vfits(self@),
        ensures
            r@ == vneg(self@),
    {
        Vec3 { x: self.x.neg(), y: self.y.neg(), z: self.z.neg() }
    }

    /// Component-wise product.
    pub fn times(self, o: Vec3) -> (r: Vec3)
        requires
            vfits(vmul(self@, o@)),
        ensures
            r@ == vmul(self@, o@),
    {
        Vec3 { x: self.x.times(o.x), y: self.y.times(o.y), z: self.z.times(o.z) }
    }

    pub fn scale(self, k: Fx) -> (r: Vec3)
        requires
            vfits(vscale(self@, k@)),
        ensures
            r@ == vscale(self@, k@),
    {
        Vec3 { x: self.x.times(k), y: self.y.times(k), z: self.z.times(k) }
    }

    /// Component-wise quotient.
    pub fn divide(self, o: Vec3) -> (r: Vec3)
        requires
            o@.x != 0,
            o@.y != 0,
            o@.z != 0,
            vfits(vdiv(self@, o@)),
        ensures
            r@ == vdiv(self@, o@),
    {
        Vec3 { x: self.x.divide(o.x), y: self.y.divide(o.y), z: self.z.divide(o.z) }
    }

    pub fn div_scalar(self, k: Fx) -> (r: Vec3)
        requires
            k@ != 0,
            vfits(vdiv_scalar(self@, k@)),
        ensures
            r@ == vdiv_scalar(self@, k@),
    {
        Vec3 { x: self.x.divide(k), y: self.y.divide(k), z: self.z.divide(k) }
    }

    /// Checked addition: `None` exactly when a component leaves the range.
    pub fn try_plus(self, o: Vec3) -> (r: Option<Vec3>)
        ensures
            match r {
                Some(v) => vfits(vadd(self@, o@)) && v@ == vadd(self@, o@),
                None => !vfits(vadd(self@, o@)),
            },
    {
        let x: Fx = match self.x.try_plus(o.x) {
            Some(v) => v,
            None => { return None; },
        };
        let y: Fx = match self.y.try_plus(o.y) {
            Some(v) => v,
            None => { return None; },
        };
        let z: Fx = match self.z.try_plus(o.z) {
            Some(v) => v,
            None => { return None; },
        };
        Some(Vec3 { x, y, z })
    }

    /// Checked subtraction: `None` exactly when a component leaves the range.
    pub fn try_minus(self, o: Vec3) -> (r: Option<Vec3>)
        ensures
            match r {
                Some(v) => vfits(vsub(self@, o@)) && v@ == vsub(self@, o@),
                None => !vfits(vsub(self@, o@)),
            },
    {
        let x: Fx = match self.x.try_minus(o.x) {
            Some(v) => v,
            None => { return None; },
        };
        let y: Fx = match self.y.try_minus(o.y) {
            Some(v) => v,
            None => { return None; },
        };
        let z: Fx = match self.z.try_minus(o.z) {
            Some(v) => v,
            None => { return None; },
        };
        Some(Vec3 { x, y, z })
    }

    /// Checked negation: `None` exactly when a component is out of the
    /// symmetric range.
    pub fn try_neg(self) -> (r: Option<Vec3>)
        ensures
            match r {
                Some(v) => vfits(self@) && v@ == vneg(self@),
                None => !vfits(self@),
            },
    {
        let x: Fx = match self.x.try_neg() {
            Some(v) => v,
            None => { return None; },
        };
        let y: Fx = match self.y.try_neg() {
            Some(v) => v,
            None => { return None; },
        };
        let z: Fx = match self.z.try_neg() {
            Some(v) => v,
            None => { return None; },
        };
        Some(Vec3 { x, y, z })
    }

    /// Checked scaling: `None` exactly when a component leaves the range.
    pub fn try_scale(self, k: Fx) -> (r: Option<Vec3>)
        ensures
            match r {
                Some(v) => vfits(vscale(self@, k@)) && v@ == vscale(self@, k@),
                None => !vfits(vscale(self@, k@)),
            },
    {
        let x: Fx = match self.x.try_times(k) {
            Some(v) => v,
            None => { return None; },
        };
        let y: Fx = match self.y.try_times(k) {
            Some(v) => v,
            None => { return None; },
        };
        let z: Fx = match self.z.try_times(k) {
            Some(v) => v,
            None => { return None; },
        };
        Some(Vec3 { x, y, z })
    }

    /// Checked component-wise product: `None` exactly when a component leaves
    /// the range.
    pub fn try_times(self, o: Vec3) -> (r: Option<Vec3>)
        ensures
            match r {
                Some(v) => vfits(vmul(self@, o@)) && v@ == vmul(self@, o@),
                None => !vfits(vmul(self@, o@)),
            },
    {
        let x: Fx = match self.x.try_times(o.x) {
            Some(v) => v,
            None => { return None; },
        };
        let y: Fx = match self.y.try_times(o.y) {
            Some(v) => v,
            None => { return None; },
        };
        let z: Fx = match self.z.try_times(o.z) {
            Some(v) => v,
            None => { return None; },
        };
        Some(Vec3 { x, y, z })
    }

    /// Checked scalar division: `None` on a zero divisor or when a component
    /// leaves the range.
    pub fn try_div_scalar(self, k: Fx) -> (r: Option<Vec3>)
        ensures
            match r {
                Some(v) => k@ != 0 && vfits(vdiv_scalar(self@, k@)) && v@ == vdiv_scalar(
                    self@,
                    k@,
                ),
                None => k@ == 0 || !vfits(vdiv_scalar(self@, k@)),
            },
    {
        if k.raw == 0 {
            return None;
        }
        let x: Fx = match self.x.try_divide(k) {
            Some(v) => v,
            None => { return None; },
        };
        let y: Fx = match self.y.try_divide(k) {
            Some(v) => v,
            None => { return None; },
        };
        let z: Fx = match self.z.try_divide(k) {
            Some(v) => v,
            None => { return None; },
        };
        Some(Vec3 { x, y, z })
    }

    pub fn dot(&self, o: &Vec3) -> (r: Fx)
        requires
            dot_fits(self@, o@),
        ensures
            r@ == sdot(self@, o@),
    {
        self.x.times(o.x).plus(self.y.times(o.y)).plus(self.z.times(o.z))
    }

    /// Checked dot product: `None` exactly when an intermediate leaves the range.
    pub fn try_dot(&self, o: &Vec3) -> (r: Option<Fx>)
        ensures
            match r {
                Some(v) => dot_fits(self@, o@) && v@ == sdot(self@, o@),
                None => !dot_fits(self@, o@),
            },
    {
        let xx: Fx = match self.x.try_times(o.x) {
            Some(v) => v,
            None => { return None; },
        };
        let yy: Fx = match self.y.try_times(o.y) {
            Some(v) => v,
            None => { return None; },
        };
        let zz: Fx = match self.z.try_times(o.z) {
            Some(v) => v,
            None => { return None; },
        };
        let xy: Fx = match xx.try_plus(yy) {
            Some(v) => v,
            None => { return None; },
        };
        xy.try_plus(zz)
    }

    pub fn squared_length(&self) -> (r: Fx)
        requires
            dot_fits(self@, self@),
        ensures
            r@ == sdot(self@, self@),
            r@ >= 0,
    {
        proof {
            lemma_sdot_self_nonneg(self@);
        }
        self.dot(self)
    }

    pub fn length(&self) -> (r: Fx)
        requires
            dot_fits(self@, self@),
        ensures
            r@ == vlen(self@),
            r@ >= 0,
    {
        self.squared_length().sqrt()
    }

    /// A fresh unit-length copy; the caller guarantees a nonzero length.
    pub fn normalized(&self) -> (r: Vec3)
        requires
            vunit_ok(self@),
        ensures
            r@ == vunit(self@),
    {
        proof {
            lemma_sdot_self_nonneg(self@);
            crate::fx::lemma_sqrt_floor_bounds(sdot(self@, self@) * (crate::fx::SCALE as int));
        }
        let len: Fx = self.length();
        Vec3 { x: self.x.divide(len), y: self.y.divide(len), z: self.z.divide(len) }
    }

    /// In-place normalization; the caller guarantees a nonzero length.
    pub fn normalize(&mut self)
        requires
            vunit_ok(old(self)@),
        ensures
            final(self)@ == vunit(old(self)@),
    {
        *self = self.normalized();
    }

    /// Checked normalization: `None` exactly when the length is zero or an
    /// intermediate leaves the range.
    pub fn try_normalized(&self) -> (r: Option<Vec3>)
        ensures
            match r {
                Some(v) => vunit_ok(self@) && v@ == vunit(self@),
                None => !vunit_ok(self@),
            },
    {
        let d: Fx = match self.try_dot(self) {
            Some(v) => v,
            None => { return None; },
        };
        proof {
            lemma_sdot_self_nonneg(self@);
        }
        let len: Fx = d.sqrt();
        if len.raw == 0 {
            return None;
        }
        let x: Fx = match self.x.try_divide(len) {
            Some(v) => v,
            None => { return None; },
        };
        let y: Fx = match self.y.try_divide(len) {
            Some(v) => v,
            None => { return None; },
        };
        let z: Fx = match self.z.try_divide(len) {
            Some(v) => v,
            None => { return None; },
        };
        Some(Vec3 { x, y, z })
    }

    /// Checked cross product: `None` exactly when an intermediate leaves the
    /// range.
    pub fn try_cross(self, o: Vec3) -> (r: Option<Vec3>)
        ensures
            match r {
                Some(v) => cross_fits(self@, o@) && v@ == vcross(self@, o@),
                None => !cross_fits(self@, o@),
            },
    {
        let yz: Fx = match self.y.try_times(o.z) {
            Some(v) => v,
            None => { return None; },
        };
        let zy: Fx = match self.z.try_times(o.y) {
            Some(v) => v,
            None => { return None; },
        };
        let xz: Fx = match self.x.try_times(o.z) {
            Some(v) => v,
            None => { return None; },
        };
        let zx: Fx = match self.z.try_times(o.x) {
            Some(v) => v,
            None => { return None; },
        };
        let xy: Fx = match self.x.try_times(o.y) {
            Some(v) => v,
            None => { return None; },
        };
        let yx: Fx = match self.y.try_times(o.x) {
            Some(v) => v,
            None => { return None; },
        };
        let x: Fx = match yz.try_minus(zy) {
            Some(v) => v,
            None => { return None; },
        };
        let y0: Fx = match xz.try_minus(zx) {
            Some(v) => v,
            None => { return None; },
        };
        let y: Fx = match y0.try_neg() {
            Some(v) => v,
            None => { return None; },
        };
        let z: Fx = match xy.try_minus(yx) {
            Some(v) => v,
            None => { return None; },
        };
        Some(Vec3 { x, y, z })
    }

    pub fn cross(self, o: Vec3) -> (r: Vec3)
        requires
            cross_fits(self@, o@),
        ensures
            r@ == vcross(self@, o@),
    {
        Vec3 {
            x: self.y.times(o.z).minus(self.z.times(o.y)),
            y: self.x.times(o.z).minus(self.z.times(o.x)).neg(),
            z: self.x.times(o.y).minus(self.y.times(o.x)),
        }
    }
}

/// A dot product of a vector with itself is nonnegative.
pub proof fn lemma_sdot_self_nonneg(a: V3)
    ensures
        sdot(a, a) >= 0,
        smul(a.x, a.x) >= 0,
        smul(a.y, a.y) >= 0,
        smul(a.z, a.z) >= 0,
{
    lemma_smul_sq_nonneg(a.x);
    lemma_smul_sq_nonneg(a.y);
    lemma_smul_sq_nonneg(a.z);
}

proof fn lemma_smul_sq_nonneg(x: int)
    by (nonlinear_arith)
    ensures
        smul(x, x) >= 0,
{
    assert(x * x >= 0);
    assert(mag(x * x) == x * x);
    assert(smul(x, x) == mag(x * x) / (crate::fx::SCALE as int));
}

} // verus!
