use vstd::prelude::*;

verus! {

/// Rust's `/ 2` on integers: the quotient rounds toward zero.
pub open spec fn half(v: int) -> int {
    if v >= 0 {
        v / 2
    } else {
        -((-v) / 2)
    }
}

pub open spec fn min_of(a: int, b: int) -> int {
    if a <= b {
        a
    } else {
        b
    }
}

pub open spec fn max_of(a: int, b: int) -> int {
    if a <= b {
        b
    } else {
        a
    }
}

/// A cell position on the grid.
#[derive(Debug, Clone, Copy, PartialEq, Eq, Structural)]
pub struct Point {
    pub x: i32,
    pub y: i32,
}

impl Point {
    pub fn new(x: i32, y: i32) -> (r: Point)
        ensures
            r == (Point { x, y }),
    {
        Point { x, y }
    }
}

/// An axis-aligned rectangle; `x2` and `y2` lie one past the last column and row.
#[derive(Debug, Clone, Copy, PartialEq, Eq, Structural)]
pub struct Rect {
    pub x1: i32,
    pub x2: i32,
    pub y1: i32,
    pub y2: i32,
}

impl Rect {
    pub open spec fn spec_intersect(self, other: Rect) -> bool {
        self.x1 <= other.x2 && self.x2 >= other.x1 && self.y1 <= other.y2 && self.y2 >= other.y1
    }

    pub open spec fn spec_center(self) -> Point {
        Point {
            x: half(self.x1 + self.x2) as i32,
            y: half(self.y1 + self.y2) as i32,
        }
    }

    /// The interior cells: columns `x1..x2` of rows `y1..y2`.
    pub open spec fn covers(self, x: int, y: int) -> bool {
        self.x1 <= x < self.x2 && self.y1 <= y < self.y2
    }

    pub fn with_size(x: i32, y: i32, w: i32, h: i32) -> (r: Rect)
        requires
            i32::MIN <= x + w <= i32::MAX,
            i32::MIN <= y + h <= i32::MAX,
        ensures
            r == (Rect { x1: x, y1: y, x2: (x + w) as i32, y2: (y + h) as i32 }),
    {
        Rect { x1: x, y1: y, x2: x + w, y2: y + h }
    }

    /// Inclusive-edge overlap test: rectangles that share a border intersect.
    pub fn intersect(&self, other: &Rect) -> (r: bool)
        ensures
            r == self.spec_intersect(*other),
    {
        self.x1 <= other.x2 && self.x2 >= other.x1 && self.y1 <= other.y2 && self.y2 >= other.y1
    }

    pub fn center(&self) -> (r: Point)
        ensures
            r == self.spec_center(),
    {
        Point { x: mid(self.x1, self.x2), y: mid(self.y1, self.y2) }
    }

    pub fn width(&self) -> (r: i32)
        requires
            i32::MIN <= self.x2 - self.x1 <= i32::MAX,
        ensures
            r == self.x2 - self.x1,
    {
        self.x2 - self.x1
    }

    pub fn height(&self) -> (r: i32)
        requires
            i32::MIN <= self.y2 - self.y1 <= i32::MAX,
        ensures
            r == self.y2 - self.y1,
    {
        self.y2 - self.y1
    }
}

fn mid(a: i32, b: i32) -> (r: i32)
    ensures
        r == half(a + b),
{
    let s: i64 = a as i64 + b as i64;
    let q: i64 = if s >= 0 {
        s / 2
    } else {
        -((-s) / 2)
    };
    q as i32
}

/// A straight corridor: a horizontal run on row `y` or a vertical run on column `x`.
#[derive(Debug, Clone, Copy, PartialEq, Eq, Structural)]
pub enum Tunnel {
    Horizontal { x1: i32, x2: i32, y: i32 },
    Vertical { y1: i32, y2: i32, x: i32 },
}

impl Tunnel {
    /// Whether the corridor passes through cell `(x, y)`.
    pub open spec fn covers(self, x: int, y: int) -> bool {
        match self {
            Tunnel::Horizontal { x1, x2, y: ty } => y == ty && min_of(x1 as int, x2 as int) <= x
                <= max_of(x1 as int, x2 as int),
            Tunnel::Vertical { y1, y2, x: tx } => x == tx && min_of(y1 as int, y2 as int) <= y
                <= max_of(y1 as int, y2 as int),
        }
    }

    /// The cells of the corridor, from the lower end of the moving axis to the upper one.
    pub open spec fn spec_points(self) -> Seq<Point> {
        match self {
            Tunnel::Horizontal { x1, x2, y } => Seq::new(
                (max_of(x1 as int, x2 as int) - min_of(x1 as int, x2 as int) + 1) as nat,
                |i: int| Point { x: (min_of(x1 as int, x2 as int) + i) as i32, y },
            ),
            Tunnel::Vertical { y1, y2, x } => Seq::new(
                (max_of(y1 as int, y2 as int) - min_of(y1 as int, y2 as int) + 1) as nat,
                |i: int| Point { x, y: (min_of(y1 as int, y2 as int) + i) as i32 },
            ),
        }
    }

    pub fn horizontal(x1: i32, x2: i32, y: i32) -> (r: Tunnel)
        ensures
            r == (Tunnel::Horizontal { x1, x2, y }),
    {
        Tunnel::Horizontal { x1, x2, y }
    }

    pub fn vertical(y1: i32, y2: i32, x: i32) -> (r: Tunnel)
        ensures
            r == (Tunnel::Vertical { y1, y2, x }),
    {
        Tunnel::Vertical { y1, y2, x }
    }

    /// A fresh walk over the corridor's cells; each call starts again from the first cell.
    pub fn point_line(&self) -> (r: PointLine)
        ensures
            r.remaining() == self.spec_points(),
    {
        match *self {
            Tunnel::Horizontal { x1, x2, y } => {
                let lo = if x1 <= x2 { x1 } else { x2 };
                let hi = if x1 <= x2 { x2 } else { x1 };
                PointLine { max: hi, current: lo, static_el: y, static_first: false }
            },
            Tunnel::Vertical { y1, y2, x } => {
                let lo = if y1 <= y2 { y1 } else { y2 };
                let hi = if y1 <= y2 { y2 } else { y1 };
                PointLine { max: hi, current: lo, static_el: x, static_first: true }
            },
        }
    }

    /// All cells of the corridor, in walking order.
    pub fn points(&self) -> (r: Vec<Point>)
        ensures
            r@ == self.spec_points(),
    {
        let mut line = self.point_line();
        let mut out: Vec<Point> = Vec::new();
        let ghost all = line.remaining();
        loop
            invariant
                all == self.spec_points(),
                all == out@ + line.remaining(),
            decreases line.remaining().len(),
        {
            match line.next() {
                Some(p) => {
                    out.push(p);
                    assert(all == out@ + line.remaining());
                },
                None => {
                    assert(out@ =~= all);
                    return out;
                },
            }
        }
    }
}

/// A walk along one axis: the moving coordinate runs from `current` up to `max`
/// inclusive, the other one stays `static_el`.
#[derive(Debug, Clone, Copy, PartialEq, Eq, Structural)]
pub struct PointLine {
    pub max: i32,
    pub current: i32,
    pub static_el: i32,
    /// Whether `static_el` is the x coordinate (a vertical walk).
    pub static_first: bool,
}

impl PointLine {
    pub open spec fn point_at(self, v: int) -> Point {
        if self.static_first {
            Point { x: self.static_el, y: v as i32 }
        } else {
            Point { x: v as i32, y: self.static_el }
        }
    }

    /// The cells that the walk has still to hand out.
    pub open spec fn remaining(self) -> Seq<Point> {
        Seq::new(
            if self.current > self.max {
                0nat
            } else {
                (self.max - self.current + 1) as nat
            },
            |i: int| self.point_at(self.current + i),
        )
    }

    fn get_new_point(&self) -> (r: Point)
        ensures
            r == self.point_at(self.current as int),
    {
        if self.static_first {
            Point::new(self.static_el, self.current)
        } else {
            Point::new(self.current, self.static_el)
        }
    }

    /// Hands out the next cell of the walk, or `None` once it is over.
    pub fn next(&mut self) -> (r: Option<Point>)
        ensures
            old(self).remaining().len() == 0 ==> r.is_none() && final(self).remaining().len()
                == 0,
            old(self).remaining().len() > 0 ==> r == Some(old(self).remaining()[0])
                && final(self).remaining() == old(self).remaining().drop_first(),
    {
        if self.current > self.max {
            return None;
        }
        let p = self.get_new_point();
        if self.current < i32::MAX {
            self.current = self.current + 1;
        } else {
            // The walk ends at the largest i32: shorten it instead of stepping past.
            self.max = self.max - 1;
        }
        assert(self.remaining() =~= old(self).remaining().drop_first());
        Some(p)
    }
}

} // verus!
