//! Two-dimensional vectors of fixed-point components.
use vstd::prelude::*;
use crate::fixed::{div_toward_zero, div_trunc, in_range, is_isqrt, isqrt, lemma_root, mul_div, root, sat, saturate, SCALE};

verus! {

/// Extra resolution at which `fine_norm` measures a length.
pub const FINE: i128 = 1_000_000;

/// A vector in thousandths of a unit (or of a unit per second).
#[derive(Clone, Copy, Debug, PartialEq, Eq, Structural)]
pub struct Vec2 {
    pub x: i64,
    pub y: i64,
}

pub open spec fn vec_of(x: int, y: int) -> Vec2 {
    Vec2 { x: x as i64, y: y as i64 }
}

impl Vec2 {
    /// Both components lie in the saturation range.
    pub open spec fn wf(self) -> bool {
        in_range(self.x as int) && in_range(self.y as int)
    }

    pub open spec fn plus(self, o: Vec2) -> Vec2 {
        vec_of(sat(self.x + o.x), sat(self.y + o.y))
    }

    pub open spec fn minus(self, o: Vec2) -> Vec2 {
        vec_of(sat(self.x - o.x), sat(self.y - o.y))
    }

    /// Scaled by a factor `s` in thousandths.
    pub open spec fn scaled(self, s: int) -> Vec2 {
        vec_of(sat(div_trunc(self.x * s, SCALE as int)), sat(div_trunc(self.y * s, SCALE as int)))
    }

    pub open spec fn dot_spec(self, o: Vec2) -> int {
        self.x * o.x + self.y * o.y
    }

    pub open spec fn norm_sq(self) -> int {
        self.x * self.x + self.y * self.y
    }

    /// Euclidean length, rounded down.
    pub open spec fn norm(self) -> int {
        root(self.norm_sq())
    }

    /// Direction of the vector as a unit vector in thousandths; zero for the zero vector.
    pub open spec fn unit(self) -> Vec2 {
        let l = self.norm();
        if l == 0 {
            vec_of(0, 0)
        } else {
            vec_of(sat(div_trunc(self.x * SCALE, l)), sat(div_trunc(self.y * SCALE, l)))
        }
    }

    /// Euclidean length in millionths of the components' unit, rounded down.
    pub open spec fn fine_norm(self) -> int {
        root(self.norm_sq() * FINE * FINE)
    }

    /// The vector of length `s` along `self`, each component
    /// `component * s / |self|` rounded toward zero, with `|self|` taken at
    /// `fine_norm` resolution; zero for the zero vector.
    pub open spec fn toward(self, s: int) -> Vec2 {
        let l = self.fine_norm();
        if l == 0 {
            vec_of(0, 0)
        } else {
            vec_of(sat(div_trunc(self.x * s * FINE, l)), sat(div_trunc(self.y * s * FINE, l)))
        }
    }

    pub fn add(self, o: Vec2) -> (r: Vec2)
        ensures
            r == self.plus(o),
            r.wf(),
    {
        v2(saturate(self.x as i128 + o.x as i128), saturate(self.y as i128 + o.y as i128))
    }

    pub fn sub(self, o: Vec2) -> (r: Vec2)
        ensures
            r == self.minus(o),
            r.wf(),
    {
        v2(saturate(self.x as i128 - o.x as i128), saturate(self.y as i128 - o.y as i128))
    }

    /// Multiplies both components by the factor `s`, given in thousandths.
    pub fn mul_scalar(self, s: i64) -> (r: Vec2)
        ensures
            r == self.scaled(s as int),
            r.wf(),
    {
        v2(mul_div(self.x, s, SCALE), mul_div(self.y, s, SCALE))
    }

    pub fn dot(self, o: Vec2) -> (r: i128)
        requires
            self.wf(),
            o.wf(),
        ensures
            r == self.dot_spec(o),
            -2_000_000_000_000_000_000 <= r <= 2_000_000_000_000_000_000,
    {
        proof { lemma_dot_bound(self, o); }
        (self.x as i128) * (o.x as i128) + (self.y as i128) * (o.y as i128)
    }

    pub fn length_sq(self) -> (r: i128)
        requires
            self.wf(),
        ensures
            r == self.norm_sq(),
            0 <= r <= 2_000_000_000_000_000_000,
    {
        proof { lemma_dot_bound(self, self); }
        (self.x as i128) * (self.x as i128) + (self.y as i128) * (self.y as i128)
    }

    pub fn length(self) -> (r: i64)
        requires
            self.wf(),
        ensures
            r == self.norm(),
            is_isqrt(self.norm_sq(), r as int),
    {
        let n = self.length_sq();
        let r = isqrt(n as u128);
        proof {
            lemma_root(n as int, r as int);
            assert(r <= 2_000_000_000) by (nonlinear_arith)
                requires
                    (r as int) * (r as int) <= n,
                    n <= 2_000_000_000_000_000_000,
            ;
        }
        r as i64
    }

    /// The unit vector along `self`, in thousandths; the zero vector stays zero.
    pub fn normalize(self) -> (r: Vec2)
        requires
            self.wf(),
        ensures
            r == self.unit(),
            r.wf(),
            self.x == 0 && self.y == 0 ==> r.x == 0 && r.y == 0,
    {
        let len = self.length();
        if self.x == 0 && self.y == 0 {
            assert(is_isqrt(0, 0));
            proof { lemma_root(0, 0); }
        }
        if len == 0 {
            v2(0, 0)
        } else {
            v2(mul_div(self.x, SCALE, len), mul_div(self.y, SCALE, len))
        }
    }
}

impl Vec2 {
    /// The vector of length `s` along `self`, scaled in one step from the exact
    /// length; the zero vector stays zero.
    pub fn with_length(self, s: i64) -> (r: Vec2)
        requires
            self.wf(),
            in_range(s as int),
        ensures
            r == self.toward(s as int),
            r.wf(),
    {
        let len = self.fine_length();
        if len == 0 {
            v2(0, 0)
        } else {
            v2(scale_fine(self.x, s, len), scale_fine(self.y, s, len))
        }
    }

    /// The length at `fine_norm` resolution.
    pub fn fine_length(self) -> (r: i128)
        requires
            self.wf(),
        ensures
            r == self.fine_norm(),
            r >= 0,
    {
        let n = self.length_sq();
        let r = isqrt((n as u128) * 1_000_000_000_000);
        proof { lemma_root((n * FINE * FINE) as int, r as int); }
        r as i128
    }
}

/// `c * s * FINE / l`, rounded toward zero and saturated.
fn scale_fine(c: i64, s: i64, l: i128) -> (r: i64)
    requires
        -1_000_000_000 <= c <= 1_000_000_000,
        -1_000_000_000 <= s <= 1_000_000_000,
        l > 0,
    ensures
        r == sat(div_trunc(c * s * FINE, l as int)),
{
    proof {
        let ci = c as int;
        let si = s as int;
        assert(-1_000_000_000_000_000_000 <= ci * si <= 1_000_000_000_000_000_000)
            by (nonlinear_arith)
            requires
                -1_000_000_000 <= ci <= 1_000_000_000,
                -1_000_000_000 <= si <= 1_000_000_000,
        ;
        assert(ci * si * 1_000_000 == (ci * si) * 1_000_000);
    }
    saturate(div_toward_zero((c as i128) * (s as i128) * FINE, l))
}

pub fn v2(x: i64, y: i64) -> (r: Vec2)
    ensures
        r.x == x,
        r.y == y,
{
    Vec2 { x, y }
}

proof fn lemma_dot_bound(a: Vec2, b: Vec2)
    requires
        a.wf(),
        b.wf(),
    ensures
        -1_000_000_000_000_000_000 <= a.x * b.x <= 1_000_000_000_000_000_000,
        -1_000_000_000_000_000_000 <= a.y * b.y <= 1_000_000_000_000_000_000,
        -2_000_000_000_000_000_000 <= a.dot_spec(b) <= 2_000_000_000_000_000_000,
        0 <= a.norm_sq(),
{
    let (ax, ay, bx, by) = (a.x as int, a.y as int, b.x as int, b.y as int);
    assert(-1_000_000_000_000_000_000 <= ax * bx <= 1_000_000_000_000_000_000) by (nonlinear_arith)
        requires
            -1_000_000_000 <= ax <= 1_000_000_000,
            -1_000_000_000 <= bx <= 1_000_000_000,
    ;
    assert(-1_000_000_000_000_000_000 <= ay * by <= 1_000_000_000_000_000_000) by (nonlinear_arith)
        requires
            -1_000_000_000 <= ay <= 1_000_000_000,
            -1_000_000_000 <= by <= 1_000_000_000,
    ;
    assert(0 <= ax * ax + ay * ay) by (nonlinear_arith);
}

} // verus!
