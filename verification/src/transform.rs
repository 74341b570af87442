//! Local and world transforms.
//!
//! A transform is kept decomposed, as the node store expects: a uniform
//! scale, a rotation (a 3x3 integer matrix), and a displacement.  The three
//! parts can be updated independently.  Composition is exact integer
//! arithmetic, saturated component-wise at [`COMPONENT_LIMIT`] so that
//! concatenation is total and closed over well-formed transforms.

use vstd::prelude::*;

verus! {

/// Largest magnitude a transform component may carry.  Keeping every
/// component within this bound lets one concatenation be computed in 128-bit
/// intermediates without overflow.
pub const COMPONENT_LIMIT: i64 = 0x7fff_ffff;

/// The linear rotation part of a transform: a 3x3 integer matrix, applied as
/// `y = R x`.  Equality is component-wise.
#[derive(Clone, Copy, Debug, PartialEq, Eq, Structural)]
pub struct Rotation {
    pub r00: i64,
    pub r01: i64,
    pub r02: i64,
    pub r10: i64,
    pub r11: i64,
    pub r12: i64,
    pub r20: i64,
    pub r21: i64,
    pub r22: i64,
}

/// A decomposed affine transform: `y = scale * R x + d`.
#[derive(Clone, Copy, Debug, PartialEq, Eq, Structural)]
pub struct Transform {
    /// Uniform scale factor; `1` is the unit scale.
    pub scale: i64,
    /// Rotation part.
    pub rot: Rotation,
    /// Displacement along the x axis.
    pub dx: i64,
    /// Displacement along the y axis.
    pub dy: i64,
    /// Displacement along the z axis.
    pub dz: i64,
}

/// Clamp a mathematical integer into the component range.
pub open spec fn sat(x: int) -> int {
    if x > COMPONENT_LIMIT as int {
        COMPONENT_LIMIT as int
    } else if x < -(COMPONENT_LIMIT as int) {
        -(COMPONENT_LIMIT as int)
    } else {
        x
    }
}

/// Whether a component lies within the component range.
pub open spec fn in_range(x: i64) -> bool {
    -(COMPONENT_LIMIT as int) <= x <= COMPONENT_LIMIT as int
}

impl Rotation {
    /// Every component lies within the component range.
    pub open spec fn wf(self) -> bool {
        &&& in_range(self.r00)
        &&& in_range(self.r01)
        &&& in_range(self.r02)
        &&& in_range(self.r10)
        &&& in_range(self.r11)
        &&& in_range(self.r12)
        &&& in_range(self.r20)
        &&& in_range(self.r21)
        &&& in_range(self.r22)
    }

    /// The identity rotation.
    pub open spec fn identity_spec() -> Rotation {
        Rotation { r00: 1, r01: 0, r02: 0, r10: 0, r11: 1, r12: 0, r20: 0, r21: 0, r22: 1 }
    }

    /// The matrix product `self * c`, each component saturated.
    pub open spec fn compose_spec(self, c: Rotation) -> Rotation {
        Rotation {
            r00: sat(self.r00 * c.r00 + self.r01 * c.r10 + self.r02 * c.r20) as i64,
            r01: sat(self.r00 * c.r01 + self.r01 * c.r11 + self.r02 * c.r21) as i64,
            r02: sat(self.r00 * c.r02 + self.r01 * c.r12 + self.r02 * c.r22) as i64,
            r10: sat(self.r10 * c.r00 + self.r11 * c.r10 + self.r12 * c.r20) as i64,
            r11: sat(self.r10 * c.r01 + self.r11 * c.r11 + self.r12 * c.r21) as i64,
            r12: sat(self.r10 * c.r02 + self.r11 * c.r12 + self.r12 * c.r22) as i64,
            r20: sat(self.r20 * c.r00 + self.r21 * c.r10 + self.r22 * c.r20) as i64,
            r21: sat(self.r20 * c.r01 + self.r21 * c.r11 + self.r22 * c.r21) as i64,
            r22: sat(self.r20 * c.r02 + self.r21 * c.r12 + self.r22 * c.r22) as i64,
        }
    }

    /// The identity rotation.
    pub fn identity() -> (r: Rotation)
        ensures
            r == Rotation::identity_spec(),
            r.wf(),
    {
        Rotation { r00: 1, r01: 0, r02: 0, r10: 0, r11: 1, r12: 0, r20: 0, r21: 0, r22: 1 }
    }

    /// A rotation built from its nine components, row by row.
    pub fn new(
        r00: i64, r01: i64, r02: i64,
        r10: i64, r11: i64, r12: i64,
        r20: i64, r21: i64, r22: i64,
    ) -> (r: Rotation)
        requires
            in_range(r00) && in_range(r01) && in_range(r02),
            in_range(r10) && in_range(r11) && in_range(r12),
            in_range(r20) && in_range(r21) && in_range(r22),
        ensures
            r == (Rotation { r00, r01, r02, r10, r11, r12, r20, r21, r22 }),
            r.wf(),
    {
        Rotation { r00, r01, r02, r10, r11, r12, r20, r21, r22 }
    }
}

impl Transform {
    /// Every part lies within the component range.
    pub open spec fn wf(self) -> bool {
        &&& in_range(self.scale)
        &&& self.rot.wf()
        &&& in_range(self.dx)
        &&& in_range(self.dy)
        &&& in_range(self.dz)
    }

    /// The identity transform.
    pub open spec fn identity_spec() -> Transform {
        Transform { scale: 1, rot: Rotation::identity_spec(), dx: 0, dy: 0, dz: 0 }
    }

    /// The transform with every component clamped into the component range;
    /// a well-formed transform is left as it is.
    pub open spec fn clamped(self) -> Transform {
        Transform {
            scale: sat(self.scale as int) as i64,
            rot: Rotation {
                r00: sat(self.rot.r00 as int) as i64,
                r01: sat(self.rot.r01 as int) as i64,
                r02: sat(self.rot.r02 as int) as i64,
                r10: sat(self.rot.r10 as int) as i64,
                r11: sat(self.rot.r11 as int) as i64,
                r12: sat(self.rot.r12 as int) as i64,
                r20: sat(self.rot.r20 as int) as i64,
                r21: sat(self.rot.r21 as int) as i64,
                r22: sat(self.rot.r22 as int) as i64,
            },
            dx: sat(self.dx as int) as i64,
            dy: sat(self.dy as int) as i64,
            dz: sat(self.dz as int) as i64,
        }
    }

    /// Composition `self` after `child`: scales multiply, rotations compose,
    /// and the child displacement is carried through the parent's scale and
    /// rotation before the parent displacement is added.  Both operands are
    /// clamped first and every result component is saturated, so composition
    /// is total and closed over the component range.
    pub open spec fn concat_spec(self, child: Transform) -> Transform {
        let p = self.clamped();
        let c = child.clamped();
        Transform {
            scale: sat(p.scale * c.scale) as i64,
            rot: p.rot.compose_spec(c.rot),
            dx: sat(
                p.dx + p.scale * (p.rot.r00 * c.dx + p.rot.r01 * c.dy + p.rot.r02 * c.dz),
            ) as i64,
            dy: sat(
                p.dy + p.scale * (p.rot.r10 * c.dx + p.rot.r11 * c.dy + p.rot.r12 * c.dz),
            ) as i64,
            dz: sat(
                p.dz + p.scale * (p.rot.r20 * c.dx + p.rot.r21 * c.dy + p.rot.r22 * c.dz),
            ) as i64,
        }
    }

    /// The identity transform: unit scale, identity rotation, no offset.
    pub fn identity() -> (r: Transform)
        ensures
            r == Transform::identity_spec(),
            r.wf(),
    {
        Transform { scale: 1, rot: Rotation::identity(), dx: 0, dy: 0, dz: 0 }
    }

    /// A pure translation by `(x, y, z)`.
    pub fn translation(x: i64, y: i64, z: i64) -> (r: Transform)
        requires
            in_range(x),
            in_range(y),
            in_range(z),
        ensures
            r == (Transform { dx: x, dy: y, dz: z, ..Transform::identity_spec() }),
            r.wf(),
    {
        Transform { scale: 1, rot: Rotation::identity(), dx: x, dy: y, dz: z }
    }

    /// A pure uniform scale by `s`.
    pub fn scaling(s: i64) -> (r: Transform)
        requires
            in_range(s),
        ensures
            r == (Transform { scale: s, ..Transform::identity_spec() }),
            r.wf(),
    {
        Transform { scale: s, rot: Rotation::identity(), dx: 0, dy: 0, dz: 0 }
    }

    /// Concatenate: the returned transform applies `child` first, then
    /// `self`, exactly as [`Transform::concat_spec`] states.
    pub fn concat(&self, child: &Transform) -> (r: Transform)
        ensures
            r == self.concat_spec(*child),
            r.wf(),
    {
        let p = self.clamp();
        let c = child.clamp();
        p.concat_wf(&c)
    }

    /// The transform with every component clamped into the component range,
    /// exactly as [`Transform::clamped`] states.
    fn clamp(&self) -> (r: Transform)
        ensures
            r == self.clamped(),
            r.wf(),
    {
        Transform {
            scale: clamp64(self.scale),
            rot: Rotation {
                r00: clamp64(self.rot.r00),
                r01: clamp64(self.rot.r01),
                r02: clamp64(self.rot.r02),
                r10: clamp64(self.rot.r10),
                r11: clamp64(self.rot.r11),
                r12: clamp64(self.rot.r12),
                r20: clamp64(self.rot.r20),
                r21: clamp64(self.rot.r21),
                r22: clamp64(self.rot.r22),
            },
            dx: clamp64(self.dx),
            dy: clamp64(self.dy),
            dz: clamp64(self.dz),
        }
    }

    /// Concatenation of two already well-formed transforms.
    fn concat_wf(&self, child: &Transform) -> (r: Transform)
        requires
            self.wf(),
            child.wf(),
        ensures
            r == (Transform {
                scale: sat(self.scale * child.scale) as i64,
                rot: self.rot.compose_spec(child.rot),
                dx: sat(
                    self.dx + self.scale * (self.rot.r00 * child.dx + self.rot.r01 * child.dy
                        + self.rot.r02 * child.dz),
                ) as i64,
                dy: sat(
                    self.dy + self.scale * (self.rot.r10 * child.dx + self.rot.r11 * child.dy
                        + self.rot.r12 * child.dz),
                ) as i64,
                dz: sat(
                    self.dz + self.scale * (self.rot.r20 * child.dx + self.rot.r21 * child.dy
                        + self.rot.r22 * child.dz),
                ) as i64,
            }),
            r.wf(),
    {
        Transform {
            scale: sat_mul(self.scale, child.scale),
            rot: Rotation {
                r00: sat_dot(self.rot.r00, self.rot.r01, self.rot.r02, child.rot.r00,
                    child.rot.r10, child.rot.r20),
                r01: sat_dot(self.rot.r00, self.rot.r01, self.rot.r02, child.rot.r01,
                    child.rot.r11, child.rot.r21),
                r02: sat_dot(self.rot.r00, self.rot.r01, self.rot.r02, child.rot.r02,
                    child.rot.r12, child.rot.r22),
                r10: sat_dot(self.rot.r10, self.rot.r11, self.rot.r12, child.rot.r00,
                    child.rot.r10, child.rot.r20),
                r11: sat_dot(self.rot.r10, self.rot.r11, self.rot.r12, child.rot.r01,
                    child.rot.r11, child.rot.r21),
                r12: sat_dot(self.rot.r10, self.rot.r11, self.rot.r12, child.rot.r02,
                    child.rot.r12, child.rot.r22),
                r20: sat_dot(self.rot.r20, self.rot.r21, self.rot.r22, child.rot.r00,
                    child.rot.r10, child.rot.r20),
                r21: sat_dot(self.rot.r20, self.rot.r21, self.rot.r22, child.rot.r01,
                    child.rot.r11, child.rot.r21),
                r22: sat_dot(self.rot.r20, self.rot.r21, self.rot.r22, child.rot.r02,
                    child.rot.r12, child.rot.r22),
            },
            dx: sat_carry(self.dx, self.scale, self.rot.r00, self.rot.r01, self.rot.r02,
                child.dx, child.dy, child.dz),
            dy: sat_carry(self.dy, self.scale, self.rot.r10, self.rot.r11, self.rot.r12,
                child.dx, child.dy, child.dz),
            dz: sat_carry(self.dz, self.scale, self.rot.r20, self.rot.r21, self.rot.r22,
                child.dx, child.dy, child.dz),
        }
    }
}

/// Clamp one component into the component range.
fn clamp64(x: i64) -> (r: i64)
    ensures
        r == sat(x as int),
{
    if x > COMPONENT_LIMIT {
        COMPONENT_LIMIT
    } else if x < -COMPONENT_LIMIT {
        -COMPONENT_LIMIT
    } else {
        x
    }
}

/// The saturated product of two components.
fn sat_mul(a: i64, b: i64) -> (r: i64)
    requires
        in_range(a),
        in_range(b),
    ensures
        r == sat(a * b),
{
    proof {
        lemma_product_bound(a as int, b as int);
    }
    clamp128((a as i128) * (b as i128))
}

/// The saturated dot product `a*x + b*y + c*z` of bounded components.
fn sat_dot(a: i64, b: i64, c: i64, x: i64, y: i64, z: i64) -> (r: i64)
    requires
        in_range(a) && in_range(b) && in_range(c),
        in_range(x) && in_range(y) && in_range(z),
    ensures
        r == sat(a * x + b * y + c * z),
{
    proof {
        lemma_product_bound(a as int, x as int);
        lemma_product_bound(b as int, y as int);
        lemma_product_bound(c as int, z as int);
    }
    clamp128((a as i128) * (x as i128) + (b as i128) * (y as i128) + (c as i128) * (z as i128))
}

/// The saturated displacement row `t + s*(a*x + b*y + c*z)`.
fn sat_carry(t: i64, s: i64, a: i64, b: i64, c: i64, x: i64, y: i64, z: i64) -> (r: i64)
    requires
        in_range(t) && in_range(s),
        in_range(a) && in_range(b) && in_range(c),
        in_range(x) && in_range(y) && in_range(z),
    ensures
        r == sat(t + s * (a * x + b * y + c * z)),
{
    proof {
        lemma_product_bound(a as int, x as int);
        lemma_product_bound(b as int, y as int);
        lemma_product_bound(c as int, z as int);
        lemma_scale_bound(
            s as int,
            a as int * x as int + b as int * y as int + c as int * z as int,
        );
    }
    let dot: i128 = (a as i128) * (x as i128) + (b as i128) * (y as i128)
        + (c as i128) * (z as i128);
    clamp128((t as i128) + (s as i128) * dot)
}

/// Clamp a 128-bit intermediate into the component range.
fn clamp128(s: i128) -> (r: i64)
    ensures
        r == sat(s as int),
{
    if s > COMPONENT_LIMIT as i128 {
        COMPONENT_LIMIT
    } else if s < -COMPONENT_LIMIT as i128 {
        -COMPONENT_LIMIT
    } else {
        s as i64
    }
}

/// The product of two components stays well inside the 128-bit range.
proof fn lemma_product_bound(a: int, b: int)
    requires
        -(COMPONENT_LIMIT as int) <= a <= COMPONENT_LIMIT as int,
        -(COMPONENT_LIMIT as int) <= b <= COMPONENT_LIMIT as int,
    ensures
        -0x4000_0000_0000_0000 <= a * b <= 0x4000_0000_0000_0000,
{
    assert(-0x4000_0000_0000_0000 <= a * b <= 0x4000_0000_0000_0000) by (nonlinear_arith)
        requires
            -(COMPONENT_LIMIT as int) <= a <= COMPONENT_LIMIT as int,
            -(COMPONENT_LIMIT as int) <= b <= COMPONENT_LIMIT as int,
    ;
}

/// Scaling a bounded dot product stays well inside the 128-bit range.
proof fn lemma_scale_bound(s: int, d: int)
    requires
        -(COMPONENT_LIMIT as int) <= s <= COMPONENT_LIMIT as int,
        -0xc000_0000_0000_0000 <= d <= 0xc000_0000_0000_0000,
    ensures
        -0x6000_0000_0000_0000_0000_0000 <= s * d <= 0x6000_0000_0000_0000_0000_0000,
{
    assert(-0x6000_0000_0000_0000_0000_0000 <= s * d <= 0x6000_0000_0000_0000_0000_0000)
        by (nonlinear_arith)
        requires
            -(COMPONENT_LIMIT as int) <= s <= COMPONENT_LIMIT as int,
            -0xc000_0000_0000_0000 <= d <= 0xc000_0000_0000_0000,
    ;
}

} // verus!
