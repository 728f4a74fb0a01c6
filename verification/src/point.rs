use vstd::prelude::*;

verus! {

/// A coordinate `c` stands for the real number `c / COORDINATE_SCALE`, so a
/// well-formed coordinate lies in [-1, 1].
pub const COORDINATE_SCALE: i64 = 1_000_000;

/// One sample: a point of the square [-1, 1] x [-1, 1], held as a pair of
/// fixed-point coordinates scaled by `COORDINATE_SCALE`.
#[derive(Clone, Copy, Debug, PartialEq, Eq, Structural)]
pub struct Point {
    pub x: i64,
    pub y: i64,
}

impl Point {
    /// Both coordinates lie in [-COORDINATE_SCALE, COORDINATE_SCALE].
    pub open spec fn wf(self) -> bool {
        &&& -(COORDINATE_SCALE as int) <= self.x <= COORDINATE_SCALE as int
        &&& -(COORDINATE_SCALE as int) <= self.y <= COORDINATE_SCALE as int
    }

    /// The point lies inside (or on) the circle of radius 1 inscribed in the
    /// square: x^2 + y^2 <= 1 in the fixed-point scale.
    pub open spec fn spec_inside_unit_circle(self) -> bool {
        self.x * self.x + self.y * self.y <= COORDINATE_SCALE * COORDINATE_SCALE
    }

    pub fn new(x: i64, y: i64) -> (p: Point)
        requires
            -(COORDINATE_SCALE as int) <= x <= COORDINATE_SCALE as int,
            -(COORDINATE_SCALE as int) <= y <= COORDINATE_SCALE as int,
        ensures
            p == (Point { x, y }),
            p.wf(),
    {
        Point { x, y }
    }

    pub fn inside_unit_circle(&self) -> (r: bool)
        ensures
            r == self.spec_inside_unit_circle(),
    {
        proof {
            lemma_i64_square_bounds(self.x as int);
            lemma_i64_square_bounds(self.y as int);
            lemma_i64_square_bounds(COORDINATE_SCALE as int);
        }
        let xx: i128 = (self.x as i128) * (self.x as i128);
        let yy: i128 = (self.y as i128) * (self.y as i128);
        let limit: i128 = (COORDINATE_SCALE as i128) * (COORDINATE_SCALE as i128);
        xx <= limit && yy <= limit - xx
    }

    /// Draw one sample uniformly from the square.
    pub fn random() -> (p: Point)
        ensures
            p.wf(),
    {
        let x = random_in_range(-COORDINATE_SCALE, COORDINATE_SCALE);
        let y = random_in_range(-COORDINATE_SCALE, COORDINATE_SCALE);
        Point { x, y }
    }
}

impl Default for Point {
    /// The centre of the square.
    fn default() -> (p: Point)
        ensures
            p == (Point { x: 0, y: 0 }),
            p.wf(),
    {
        Point { x: 0, y: 0 }
    }
}

/// The square of any i64 value fits comfortably in an i128.
proof fn lemma_i64_square_bounds(a: int)
    requires
        -0x8000_0000_0000_0000 <= a <= 0x7fff_ffff_ffff_ffff,
    ensures
        0 <= a * a <= 0x4000_0000_0000_0000_0000_0000_0000_0000,
{
    assert(0 <= a * a <= 0x4000_0000_0000_0000_0000_0000_0000_0000) by (nonlinear_arith)
        requires
            -0x8000_0000_0000_0000 <= a <= 0x7fff_ffff_ffff_ffff,
    ;
}

/// Relies on rand::random_range: a uniform value of the given inclusive range,
/// which panics only when the range is empty.
#[verifier::external_body]
fn random_in_range(lo: i64, hi: i64) -> (r: i64)
    requires
        lo <= hi,
    ensures
        lo <= r <= hi,
{
    rand::random_range(lo..=hi)
}

} // verus!
