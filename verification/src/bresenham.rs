//! Lines on a grid: the points that Bresenham's algorithm draws between two points.
//!
//! The algorithm works in the first octant, where a line runs to the right and rises
//! by at most one for each step. Lines in the other octants are turned into the first
//! octant, and their points are turned back.

use vstd::prelude::*;

verus! {

/// A coordinate on the grid.
pub type Coord = i32;

/// A point, or a difference of two points.
pub type Vec2 = (Coord, Coord);

/// The eight octants of the plane, counted counter-clockwise from the one between
/// the positive x axis and the diagonal.
#[derive(Clone, Copy, Debug, PartialEq, Eq, Structural)]
pub enum Octant {
    Octant0,
    Octant1,
    Octant2,
    Octant3,
    Octant4,
    Octant5,
    Octant6,
    Octant7,
}

/// Whether a coordinate can be negated.
pub open spec fn negatable(c: Coord) -> bool {
    c > i32::MIN
}

impl Octant {
    /// The octant with the given number, taken modulo 8.
    pub open spec fn spec_from_number(n: u8) -> Octant {
        match n % 8 {
            0 => Octant::Octant0,
            1 => Octant::Octant1,
            2 => Octant::Octant2,
            3 => Octant::Octant3,
            4 => Octant::Octant4,
            5 => Octant::Octant5,
            6 => Octant::Octant6,
            _ => Octant::Octant7,
        }
    }

    /// The octant in which the direction `delta` lies. A direction on the border of
    /// two octants belongs to the one with the lower number among those that the
    /// turning below reaches.
    pub open spec fn spec_from_point(delta: (int, int)) -> Octant {
        let half: (int, int) = if delta.1 < 0 {
            (-delta.0, -delta.1)
        } else {
            delta
        };
        let quarter: (int, int) = if half.0 < 0 {
            (half.1, -half.0)
        } else {
            half
        };
        let number: int = (if delta.1 < 0 {
            4int
        } else {
            0int
        }) + (if half.0 < 0 {
            2int
        } else {
            0int
        }) + (if quarter.0 < quarter.1 {
            1int
        } else {
            0int
        });
        Self::spec_from_number(number as u8)
    }

    /// Where `p` lies once the plane is turned so that this octant becomes the first.
    pub open spec fn spec_into_octant0(self, p: (int, int)) -> (int, int) {
        match self {
            Octant::Octant0 => (p.0, p.1),
            Octant::Octant1 => (p.1, p.0),
            Octant::Octant2 => (p.1, -p.0),
            Octant::Octant3 => (-p.0, p.1),
            Octant::Octant4 => (-p.0, -p.1),
            Octant::Octant5 => (-p.1, -p.0),
            Octant::Octant6 => (-p.1, p.0),
            Octant::Octant7 => (p.0, -p.1),
        }
    }

    /// Where `p` lies once the plane is turned back.
    pub open spec fn spec_from_octant0(self, p: (int, int)) -> (int, int) {
        match self {
            Octant::Octant0 => (p.0, p.1),
            Octant::Octant1 => (p.1, p.0),
            Octant::Octant2 => (-p.1, p.0),
            Octant::Octant3 => (-p.0, p.1),
            Octant::Octant4 => (-p.0, -p.1),
            Octant::Octant5 => (-p.1, -p.0),
            Octant::Octant6 => (p.1, -p.0),
            Octant::Octant7 => (p.0, -p.1),
        }
    }

    /// Finds the octant in which the direction `delta` lies.
    pub fn from_point(delta: Vec2) -> (octant: Octant)
        requires
            negatable(delta.0),
            negatable(delta.1),
        ensures
            octant == Self::spec_from_point((delta.0 as int, delta.1 as int)),
    {
        let mut delta = delta;
        let mut octant: u8 = 0;

        if delta.1 < 0 {
            delta = (-delta.0, -delta.1);
            octant += 4;
        }
        if delta.0 < 0 {
            delta = (delta.1, -delta.0);
            octant += 2;
        }
        if delta.0 < delta.1 {
            octant += 1;
        }
        Octant::from(octant)
    }

    /// Turns `p` into the first octant.
    pub fn pt_into_octant0(self, p: Vec2) -> (r: Vec2)
        requires
            negatable(p.0),
            negatable(p.1),
        ensures
            (r.0 as int, r.1 as int) == self.spec_into_octant0((p.0 as int, p.1 as int)),
    {
        match self {
            Octant::Octant0 => (p.0, p.1),
            Octant::Octant1 => (p.1, p.0),
            Octant::Octant2 => (p.1, -p.0),
            Octant::Octant3 => (-p.0, p.1),
            Octant::Octant4 => (-p.0, -p.1),
            Octant::Octant5 => (-p.1, -p.0),
            Octant::Octant6 => (-p.1, p.0),
            Octant::Octant7 => (p.0, -p.1),
        }
    }

    /// Turns `p` back from the first octant.
    pub fn pt_from_octant0(self, p: Vec2) -> (r: Vec2)
        requires
            negatable(p.0),
            negatable(p.1),
        ensures
            (r.0 as int, r.1 as int) == self.spec_from_octant0((p.0 as int, p.1 as int)),
    {
        match self {
            Octant::Octant0 => (p.0, p.1),
            Octant::Octant1 => (p.1, p.0),
            Octant::Octant2 => (-p.1, p.0),
            Octant::Octant3 => (-p.0, p.1),
            Octant::Octant4 => (-p.0, -p.1),
            Octant::Octant5 => (-p.1, -p.0),
            Octant::Octant6 => (p.1, -p.0),
            Octant::Octant7 => (p.0, -p.1),
        }
    }
}

impl From<u8> for Octant {
    /// The octant with the given number, taken modulo 8.
    fn from(n: u8) -> (octant: Octant) {
        match n % 8 {
            0 => Octant::Octant0,
            1 => Octant::Octant1,
            2 => Octant::Octant2,
            3 => Octant::Octant3,
            4 => Octant::Octant4,
            5 => Octant::Octant5,
            6 => Octant::Octant6,
            _ => Octant::Octant7,
        }
    }
}

impl vstd::std_specs::convert::FromSpecImpl<u8> for Octant {
    open spec fn obeys_from_spec() -> bool {
        true
    }

    open spec fn from_spec(n: u8) -> Octant {
        Octant::spec_from_number(n)
    }
}

/// Turning a point into the first octant and back gives the point again, and so does
/// turning it back first.
pub proof fn lemma_octant_turns_back(octant: Octant, p: (int, int))
    ensures
        octant.spec_from_octant0(octant.spec_into_octant0(p)) == p,
        octant.spec_into_octant0(octant.spec_from_octant0(p)) == p,
{
}

/// Turned into its own octant, a direction lies in the first octant: it runs to the
/// right and rises no more than it runs.
pub proof fn lemma_own_octant_is_first(delta: (int, int))
    ensures
        ({
            let turned = Octant::spec_from_point(delta).spec_into_octant0(delta);
            0 <= turned.1 <= turned.0
        }),
{
}

/// Turning is linear: the difference of two turned points is the turned difference.
pub proof fn lemma_turning_is_linear(octant: Octant, a: (int, int), b: (int, int))
    ensures
        ({
            let (ta, tb) = (octant.spec_into_octant0(a), octant.spec_into_octant0(b));
            (tb.0 - ta.0, tb.1 - ta.1) == octant.spec_into_octant0((b.0 - a.0, b.1 - a.1))
        }),
{
}

/// Whether a coordinate may be that of an end point of a line: every coordinate but
/// the two of largest magnitude, so that the line can be turned into any octant and
/// followed by one step past its end.
pub open spec fn drawable(c: Coord) -> bool {
    -i32::MAX < c < i32::MAX
}

/// How far a line has risen after `k` steps to the right, when it rises by `dy` over
/// `dx` steps: the largest whole number that is at most `k * dy / dx`.
pub open spec fn rise(k: int, dx: int, dy: int) -> int {
    if dx == 0 {
        0
    } else {
        (k * dy) / dx
    }
}

/// A line on its way from one point to another. It is followed in the first octant;
/// the points that `next` hands out are turned back into the octant of the line.
pub struct Line {
    /// The next point, in the first octant.
    pub position: Vec2,
    /// The whole way from the first point to the last, in the first octant.
    pub delta: Vec2,
    /// The x coordinate of the last point, in the first octant.
    pub target_x: Coord,
    /// The error term: `(k + 1) * delta.1 - (j + 1) * delta.0` after `k` steps to the
    /// right, `j` of them upwards as well.
    pub diff: Coord,
    /// The octant in which the line runs.
    pub octant: Octant,
    /// The y coordinate of the first point, in the first octant.
    pub start_y: Ghost<int>,
}

impl Line {
    /// The x coordinate of the first point, in the first octant.
    pub open spec fn start_x(&self) -> int {
        self.target_x - self.delta.0
    }

    /// How many points have been handed out.
    pub open spec fn steps(&self) -> int {
        self.position.0 - self.start_x()
    }

    /// How far the line has risen so far.
    pub open spec fn risen(&self) -> int {
        self.position.1 - self.start_y@
    }

    /// How many points the line has in all.
    pub open spec fn len(&self) -> int {
        self.delta.0 + 1
    }

    /// Point number `k` of the line, counted from 0: `k` steps to the right of the
    /// first point and `rise(k, ..)` above it in the first octant, turned back.
    pub open spec fn spec_point(&self, k: int) -> (int, int) {
        self.octant.spec_from_octant0(
            (self.start_x() + k, self.start_y@ + rise(k, self.delta.0 as int, self.delta.1 as int)),
        )
    }

    /// What holds of a line between two steps.
    pub open spec fn wf(&self) -> bool {
        let (dx, dy) = (self.delta.0 as int, self.delta.1 as int);
        let (k, j) = (self.steps(), self.risen());
        &&& 0 <= dy <= dx
        &&& 0 <= k <= dx + 1
        &&& self.diff == (k + 1) * dy - (j + 1) * dx
        &&& if dx == 0 {
            j == k
        } else {
            j * dx <= k * dy < (j + 1) * dx
        }
        &&& -i32::MAX < self.start_x()
        &&& self.target_x < i32::MAX
        &&& -i32::MAX < self.start_y@
        &&& self.start_y@ + dy < i32::MAX
    }

    /// The line from `a` to `b`.
    pub fn new(a: Vec2, b: Vec2) -> (line: Line)
        requires
            drawable(a.0),
            drawable(a.1),
            drawable(b.0),
            drawable(b.1),
            -i32::MAX <= b.0 - a.0 <= i32::MAX,
            -i32::MAX <= b.1 - a.1 <= i32::MAX,
        ensures
            line.wf(),
            line.steps() == 0,
            line.octant == Octant::spec_from_point((b.0 - a.0, b.1 - a.1)),
            (line.delta.0 as int, line.delta.1 as int) == line.octant.spec_into_octant0(
                (b.0 - a.0, b.1 - a.1),
            ),
            line.spec_point(0) == (a.0 as int, a.1 as int),
            line.spec_point(line.len() - 1) == (b.0 as int, b.1 as int),
    {
        let octant = Octant::from_point((b.0 - a.0, b.1 - a.1));

        let ta = octant.pt_into_octant0(a);
        let tb = octant.pt_into_octant0(b);
        proof {
            lemma_turning_is_linear(octant, (a.0 as int, a.1 as int), (b.0 as int, b.1 as int));
            lemma_own_octant_is_first((b.0 - a.0, b.1 - a.1));
            lemma_octant_turns_back(octant, (a.0 as int, a.1 as int));
            lemma_octant_turns_back(octant, (b.0 as int, b.1 as int));
        }

        let delta = (tb.0 - ta.0, tb.1 - ta.1);
        let diff = delta.1 - delta.0;

        let line = Line {
            position: ta,
            delta,
            target_x: tb.0,
            diff,
            octant,
            start_y: Ghost(ta.1 as int),
        };
        proof {
            let (dx, dy) = (delta.0 as int, delta.1 as int);
            assert(rise(0, dx, dy) == 0);
            assert(rise(dx, dx, dy) == dy) by {
                if dx != 0 {
                    vstd::arithmetic::div_mod::lemma_div_multiples_vanish(dy, dx);
                    assert(dx * dy == dy * dx) by (nonlinear_arith);
                }
            }
            assert((0int + 1) * dy - (0int + 1) * dx == dy - dx) by (nonlinear_arith);
            assert(0int * dx <= 0int * dy < (0int + 1) * dx || dx == 0) by (nonlinear_arith)
                requires
                    0 <= dx,
            ;
        }
        line
    }

    /// Hands out the next point of the line, or `None` when the last one has been
    /// handed out.
    pub fn next(&mut self) -> (r: Option<Vec2>)
        requires
            old(self).wf(),
        ensures
            final(self).wf(),
            final(self).delta == old(self).delta,
            final(self).target_x == old(self).target_x,
            final(self).octant == old(self).octant,
            final(self).start_y == old(self).start_y,
            match r {
                Some(p) => old(self).steps() < old(self).len() && (p.0 as int, p.1 as int) == old(
                    self,
                ).spec_point(old(self).steps()) && final(self).steps() == old(self).steps() + 1,
                None => old(self).steps() == old(self).len() && final(self).steps() == old(
                    self,
                ).steps(),
            },
    {
        if self.position.0 > self.target_x {
            return None;
        }
        let p = self.position;
        let ghost (dx, dy) = (self.delta.0 as int, self.delta.1 as int);
        let ghost (k, j) = (self.steps(), self.risen());
        proof {
            assert((j + 1) * dx == j * dx + dx) by (nonlinear_arith);
            if dx != 0 {
                vstd::arithmetic::div_mod::lemma_fundamental_div_mod_converse(
                    k * dy,
                    dx,
                    j,
                    k * dy - j * dx,
                );
                assert(k * dy <= dx * dy) by (nonlinear_arith)
                    requires
                        0 <= k <= dx,
                        0 <= dy,
                ;
                assert(j <= dy) by (nonlinear_arith)
                    requires
                        j * dx <= k * dy,
                        k * dy <= dx * dy,
                        dx > 0,
                ;
                assert(0 <= j) by (nonlinear_arith)
                    requires
                        k * dy < (j + 1) * dx,
                        0 <= k,
                        0 <= dy,
                        dx > 0,
                ;
            }
            assert((k + 2) * dy - (j + 2) * dx == (k + 1) * dy - (j + 1) * dx - dx + dy)
                by (nonlinear_arith);
            assert((k + 2) * dy - (j + 1) * dx == (k + 1) * dy - (j + 1) * dx + dy)
                by (nonlinear_arith);
            assert((k + 1) * dy == k * dy + dy) by (nonlinear_arith);
            assert((j + 2) * dx == (j + 1) * dx + dx) by (nonlinear_arith);
        }

        if self.diff >= 0 {
            self.position.1 += 1;
            self.diff -= self.delta.0;
        }
        self.diff += self.delta.1;

        self.position.0 += 1;

        Some(self.octant.pt_from_octant0(p))
    }

    /// Hands out all the points of the line that are left, in order.
    pub fn collect(self) -> (points: Vec<Vec2>)
        requires
            self.wf(),
        ensures
            points@.len() == self.len() - self.steps(),
            forall|i: int|
                0 <= i < points@.len() ==> ((#[trigger] points@[i]).0 as int, points@[i].1 as int)
                    == self.spec_point(self.steps() + i),
    {
        let mut line = self;
        let mut points: Vec<Vec2> = Vec::new();
        loop
            invariant
                line.wf(),
                line.delta == self.delta,
                line.target_x == self.target_x,
                line.octant == self.octant,
                line.start_y == self.start_y,
                points@.len() == line.steps() - self.steps(),
                forall|i: int|
                    0 <= i < points@.len() ==> ((#[trigger] points@[i]).0 as int, points@[i].1 as int)
                        == self.spec_point(self.steps() + i),
            ensures
                line.steps() == self.len(),
                points@.len() == line.steps() - self.steps(),
                forall|i: int|
                    0 <= i < points@.len() ==> ((#[trigger] points@[i]).0 as int, points@[i].1 as int)
                        == self.spec_point(self.steps() + i),
            decreases line.len() - line.steps(),
        {
            match line.next() {
                Some(p) => points.push(p),
                None => {
                    break ;
                },
            }
        }
        points
    }
}

} // verus!
