use crate::geometry::Point;
use vstd::prelude::*;

verus! {

/// Half the screen width: the view reaches this far left and right of its center.
pub const DIMENSION_WIDTH: i32 = 40;

/// Half the screen height: the view reaches this far above and below its center.
pub const DIMENSION_HEIGHT: i32 = 25;

/// Whether a view can be centered on `p` without leaving the `i32` range.
pub open spec fn centerable(p: Point) -> bool {
    i32::MIN + 40 <= p.x <= i32::MAX - 40 && i32::MIN + 25 <= p.y <= i32::MAX - 25
}

/// The part of the map on screen, bounds included.
#[derive(Debug, Clone, Copy, PartialEq, Eq, Structural)]
pub struct Camera {
    pub left_x: i32,
    pub right_x: i32,
    pub top_y: i32,
    pub bottom_y: i32,
}

impl Camera {
    pub open spec fn centered_on(self, p: Point) -> bool {
        &&& self.left_x == p.x - 40
        &&& self.right_x == p.x + 40
        &&& self.top_y == p.y - 25
        &&& self.bottom_y == p.y + 25
    }

    /// A view centered on `p`.
    pub fn new(p: Point) -> (r: Camera)
        requires
            centerable(p),
        ensures
            r.centered_on(p),
    {
        Camera {
            left_x: p.x - DIMENSION_WIDTH,
            right_x: p.x + DIMENSION_WIDTH,
            top_y: p.y - DIMENSION_HEIGHT,
            bottom_y: p.y + DIMENSION_HEIGHT,
        }
    }

    /// Centers the view on `p`.
    pub fn update(&mut self, p: Point)
        requires
            centerable(p),
        ensures
            final(self).centered_on(p),
    {
        self.left_x = p.x - DIMENSION_WIDTH;
        self.right_x = p.x + DIMENSION_WIDTH;
        self.top_y = p.y - DIMENSION_HEIGHT;
        self.bottom_y = p.y + DIMENSION_HEIGHT;
    }

    pub fn top_left_corner(&self) -> (r: Point)
        ensures
            r == (Point { x: self.left_x, y: self.top_y }),
    {
        Point::new(self.left_x, self.top_y)
    }

    /// A walk over the view's cells, row by row from the top-left corner.
    pub fn into_iter(&self) -> (r: CameraIterator)
        ensures
            r.camera == *self,
            r.point == self.top_left_corner_spec(),
    {
        CameraIterator { camera: *self, point: self.top_left_corner() }
    }

    pub open spec fn top_left_corner_spec(self) -> Point {
        Point { x: self.left_x, y: self.top_y }
    }
}

/// Walks the cells of a view row by row. The walk ends when a step leaves the last row,
/// so the bottom-right cell is not handed out.
pub struct CameraIterator {
    pub camera: Camera,
    pub point: Point,
}

impl CameraIterator {
    pub open spec fn wf(self) -> bool {
        &&& self.camera.left_x <= self.camera.right_x < i32::MAX
        &&& self.camera.bottom_y < i32::MAX
        &&& self.camera.left_x <= self.point.x <= self.camera.right_x
        &&& self.point.y <= self.camera.bottom_y + 1
    }

    /// The cell after `p`: the next column, or the start of the next row past the right edge.
    pub open spec fn stepped(self, p: Point) -> Point {
        if p.x + 1 > self.camera.right_x {
            Point { x: self.camera.left_x, y: (p.y + 1) as i32 }
        } else {
            Point { x: (p.x + 1) as i32, y: p.y }
        }
    }

    fn step(&mut self)
        requires
            old(self).wf(),
            old(self).point.y <= old(self).camera.bottom_y,
        ensures
            final(self).camera == old(self).camera,
            final(self).point == old(self).stepped(old(self).point),
            final(self).wf(),
    {
        self.point.x = self.point.x + 1;
        if self.point.x > self.camera.right_x {
            self.point.x = self.camera.left_x;
            self.point.y = self.point.y + 1;
        }
    }

    fn is_out_of_bounds(&self) -> (r: bool)
        ensures
            r == (self.point.y > self.camera.bottom_y),
    {
        self.point.y > self.camera.bottom_y
    }

    /// The current cell, moving on to the next; `None` once the walk has left the view.
    pub fn next(&mut self) -> (r: Option<Point>)
        requires
            old(self).wf(),
        ensures
            final(self).wf(),
            final(self).camera == old(self).camera,
            old(self).point.y > old(self).camera.bottom_y ==> r is None && *final(self)
                == *old(self),
            old(self).point.y <= old(self).camera.bottom_y ==> final(self).point == old(
                self,
            ).stepped(old(self).point) && (if final(self).point.y > old(self).camera.bottom_y {
                r is None
            } else {
                r == Some(old(self).point)
            }),
    {
        if self.is_out_of_bounds() {
            return None;
        }
        let out = self.point;
        self.step();
        if self.is_out_of_bounds() {
            return None;
        }
        Some(out)
    }
}

/// A view that never shows columns left of the map's first one.
#[derive(Debug, Clone, Copy, PartialEq, Eq, Structural)]
pub struct InWorldCamera {
    pub left_x: i32,
    pub right_x: i32,
    pub top_y: i32,
    pub bottom_y: i32,
}

impl InWorldCamera {
    pub open spec fn centered_on(self, p: Point) -> bool {
        &&& self.left_x == p.x - 40
        &&& self.right_x == p.x + 40
        &&& self.top_y == p.y - 25
        &&& self.bottom_y == p.y + 25
    }

    /// A view centered on `p`.
    pub fn new(p: Point) -> (r: InWorldCamera)
        requires
            centerable(p),
        ensures
            r.centered_on(p),
    {
        InWorldCamera {
            left_x: p.x - DIMENSION_WIDTH,
            right_x: p.x + DIMENSION_WIDTH,
            top_y: p.y - DIMENSION_HEIGHT,
            bottom_y: p.y + DIMENSION_HEIGHT,
        }
    }

    /// Centers the view on `p`.
    pub fn update(&mut self, p: Point)
        requires
            centerable(p),
        ensures
            final(self).centered_on(p),
    {
        self.left_x = p.x - DIMENSION_WIDTH;
        self.right_x = p.x + DIMENSION_WIDTH;
        self.top_y = p.y - DIMENSION_HEIGHT;
        self.bottom_y = p.y + DIMENSION_HEIGHT;
    }

    /// The top-left cell shown, with the column clamped at zero.
    pub fn top_left_corner(&self) -> (r: Point)
        ensures
            r == (Point { x: if self.left_x >= 0 { self.left_x } else { 0 }, y: self.top_y }),
    {
        let x = if self.left_x >= 0 {
            self.left_x
        } else {
            0
        };
        Point::new(x, self.top_y)
    }
}

} // verus!
