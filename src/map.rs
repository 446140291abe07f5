use crate::geometry::{Point, Rect, Tunnel};
use vstd::prelude::*;

verus! {

#[derive(Debug, Clone, Copy, PartialEq, Eq, Structural)]
pub enum TileType {
    Floor,
    Wall,
}

/// A grid of `width * height` tiles, stored row by row.
#[derive(Debug, Clone)]
pub struct TileMap {
    pub width: i32,
    pub height: i32,
    pub tiles: Vec<TileType>,
}

/// Whether `(x, y)` is a cell of a `width * height` grid.
pub open spec fn in_bounds(width: int, height: int, x: int, y: int) -> bool {
    0 <= x < width && 0 <= y < height
}

/// Where cell `(x, y)` is stored in a grid `width` cells wide.
pub open spec fn cell_index(width: int, x: int, y: int) -> int {
    y * width + x
}

impl TileMap {
    pub open spec fn wf(self) -> bool {
        &&& 0 <= self.width
        &&& 0 <= self.height
        &&& self.tiles@.len() == self.width * self.height
    }

    /// The tile at `(x, y)`, for a cell of the grid.
    pub open spec fn tile_at(self, x: int, y: int) -> TileType {
        self.tiles@[cell_index(self.width as int, x, y)]
    }

    pub proof fn lemma_index_in_range(self, x: int, y: int)
        requires
            self.wf(),
            in_bounds(self.width as int, self.height as int, x, y),
        ensures
            0 <= cell_index(self.width as int, x, y) < self.tiles@.len(),
    {
        assert(0 <= y * self.width <= (self.height - 1) * self.width) by (nonlinear_arith)
            requires
                0 <= y < self.height,
                0 <= self.width,
        ;
        assert((self.height - 1) * self.width + self.width == self.height * self.width)
            by (nonlinear_arith);
    }

    /// Distinct cells are stored at distinct places.
    pub proof fn lemma_index_injective(self, x1: int, y1: int, x2: int, y2: int)
        requires
            self.wf(),
            in_bounds(self.width as int, self.height as int, x1, y1),
            in_bounds(self.width as int, self.height as int, x2, y2),
            cell_index(self.width as int, x1, y1) == cell_index(self.width as int, x2, y2),
        ensures
            x1 == x2 && y1 == y2,
    {
        let w = self.width as int;
        if y1 < y2 {
            assert(y1 * w + w <= y2 * w) by (nonlinear_arith)
                requires
                    y1 < y2,
                    0 <= w,
            ;
        } else if y2 < y1 {
            assert(y2 * w + w <= y1 * w) by (nonlinear_arith)
                requires
                    y2 < y1,
                    0 <= w,
            ;
        }
    }

    /// Every cell of the grid, listed by its place in `tiles`.
    pub proof fn lemma_cell_of_index(self, i: int) -> (c: (int, int))
        requires
            self.wf(),
            0 <= i < self.tiles@.len(),
        ensures
            in_bounds(self.width as int, self.height as int, c.0, c.1),
            cell_index(self.width as int, c.0, c.1) == i,
    {
        let w = self.width as int;
        assert(w > 0) by (nonlinear_arith)
            requires
                0 <= i < w * self.height,
                0 <= self.height,
        ;
        let x = i % w;
        let y = i / w;
        assert(i == y * w + x) by (nonlinear_arith)
            requires
                w > 0,
                x == i % w,
                y == i / w,
        ;
        assert(0 <= y < self.height) by (nonlinear_arith)
            requires
                w > 0,
                0 <= i < w * self.height,
                y == i / w,
                i == y * w + x,
                0 <= x < w,
        ;
        (x, y)
    }

    /// A grid of Floor tiles.
    pub fn new(width: i32, height: i32) -> (r: TileMap)
        requires
            0 <= width,
            0 <= height,
            width * height <= usize::MAX,
        ensures
            r.wf(),
            r.width == width,
            r.height == height,
            forall|i: int| 0 <= i < r.tiles@.len() ==> r.tiles@[i] == TileType::Floor,
    {
        let n: usize = (width as usize) * (height as usize);
        let mut tiles: Vec<TileType> = Vec::with_capacity(n);
        let mut i: usize = 0;
        while i < n
            invariant
                i <= n,
                tiles@.len() == i,
                forall|k: int| 0 <= k < i ==> tiles@[k] == TileType::Floor,
            decreases n - i,
        {
            tiles.push(TileType::Floor);
            i = i + 1;
        }
        TileMap { width, height, tiles }
    }

    /// Sets every tile to `tile`.
    pub fn fill(&mut self, tile: TileType)
        ensures
            final(self).width == old(self).width,
            final(self).height == old(self).height,
            final(self).tiles@.len() == old(self).tiles@.len(),
            forall|i: int| 0 <= i < final(self).tiles@.len() ==> final(self).tiles@[i] == tile,
    {
        let n = self.tiles.len();
        let mut i: usize = 0;
        while i < n
            invariant
                i <= n,
                n == self.tiles@.len(),
                self.width == old(self).width,
                self.height == old(self).height,
                forall|k: int| 0 <= k < i ==> self.tiles@[k] == tile,
            decreases n - i,
        {
            self.tiles.set(i, tile);
            i = i + 1;
        }
    }

    /// Where cell `(x, y)` is stored, or `None` off the grid.
    fn idx(&self, x: i32, y: i32) -> (r: Option<usize>)
        requires
            self.wf(),
        ensures
            r.is_some() <==> in_bounds(self.width as int, self.height as int, x as int, y as int),
            r.is_some() ==> r.unwrap() == cell_index(self.width as int, x as int, y as int),
            r.is_some() ==> r.unwrap() < self.tiles@.len(),
    {
        if x < 0 || y < 0 {
            return None;
        }
        if x >= self.width || y >= self.height {
            return None;
        }
        proof {
            self.lemma_index_in_range(x as int, y as int);
        }
        let row = y as usize;
        let w = self.width as usize;
        let col = x as usize;
        assert(row * w + col == cell_index(self.width as int, x as int, y as int));
        let len = self.tiles.len();
        assert(row * w + col < len);
        assert(0 <= row * w) by (nonlinear_arith)
            requires
                0 <= row,
                0 <= w,
        ;
        Some(row * w + col)
    }

    /// Sets `tile` at `point` when it lies on the grid.
    pub fn set_tile(&mut self, point: Point, tile: TileType)
        requires
            old(self).wf(),
        ensures
            final(self).wf(),
            final(self).width == old(self).width,
            final(self).height == old(self).height,
            forall|x: int, y: int|
                in_bounds(old(self).width as int, old(self).height as int, x, y) ==> #[trigger]
                final(self).tile_at(x, y) == if x == point.x && y == point.y {
                    tile
                } else {
                    old(self).tile_at(x, y)
                },
    {
        match self.idx(point.x, point.y) {
            Some(i) => {
                self.tiles.set(i, tile);
                assert forall|x: int, y: int|
                    in_bounds(old(self).width as int, old(self).height as int, x, y) implies
                    #[trigger] self.tile_at(x, y) == if x == point.x && y == point.y {
                        tile
                    } else {
                        old(self).tile_at(x, y)
                    } by {
                    old(self).lemma_index_in_range(x, y);
                    if cell_index(self.width as int, x, y) == i {
                        old(self).lemma_index_injective(x, y, point.x as int, point.y as int);
                    }
                }
            },
            None => {},
        }
    }

    /// Sets `tile` on every cell of the grid that `rect` covers.
    pub fn carve_room(&mut self, rect: &Rect, tile: TileType)
        requires
            old(self).wf(),
        ensures
            final(self).wf(),
            final(self).width == old(self).width,
            final(self).height == old(self).height,
            forall|x: int, y: int|
                in_bounds(old(self).width as int, old(self).height as int, x, y) ==> #[trigger]
                final(self).tile_at(x, y) == if rect.covers(x, y) {
                    tile
                } else {
                    old(self).tile_at(x, y)
                },
    {
        let mut y = rect.y1;
        while y < rect.y2
            invariant
                self.wf(),
                self.width == old(self).width,
                self.height == old(self).height,
                rect.y1 <= y || rect.y2 <= rect.y1,
                y <= rect.y2 || rect.y2 <= rect.y1,
                rect.y2 <= rect.y1 ==> y == rect.y1,
                forall|x: int, yy: int|
                    in_bounds(old(self).width as int, old(self).height as int, x, yy) ==> #[trigger]
                    self.tile_at(x, yy) == if rect.covers(x, yy) && yy < y {
                        tile
                    } else {
                        old(self).tile_at(x, yy)
                    },
            decreases rect.y2 - y,
        {
            let mut x = rect.x1;
            while x < rect.x2
                invariant
                    self.wf(),
                    self.width == old(self).width,
                    self.height == old(self).height,
                    rect.y1 <= y < rect.y2,
                    rect.x1 <= x || rect.x2 <= rect.x1,
                    x <= rect.x2 || rect.x2 <= rect.x1,
                    rect.x2 <= rect.x1 ==> x == rect.x1,
                    forall|xx: int, yy: int|
                        in_bounds(old(self).width as int, old(self).height as int, xx, yy)
                            ==> #[trigger] self.tile_at(xx, yy) == if rect.covers(xx, yy) && (yy
                            < y || (yy == y && xx < x)) {
                            tile
                        } else {
                            old(self).tile_at(xx, yy)
                        },
                decreases rect.x2 - x,
            {
                self.set_tile(Point::new(x, y), tile);
                x = x + 1;
            }
            y = y + 1;
        }
    }

    /// Sets `tile` on every cell of the grid that `tunnel` passes through.
    pub fn carve_tunnel(&mut self, tunnel: &Tunnel, tile: TileType)
        requires
            old(self).wf(),
        ensures
            final(self).wf(),
            final(self).width == old(self).width,
            final(self).height == old(self).height,
            forall|x: int, y: int|
                in_bounds(old(self).width as int, old(self).height as int, x, y) ==> #[trigger]
                final(self).tile_at(x, y) == if tunnel.covers(x, y) {
                    tile
                } else {
                    old(self).tile_at(x, y)
                },
    {
        let mut line = tunnel.point_line();
        let ghost all = line.remaining();
        let ghost mut done: int = 0;
        loop
            invariant
                self.wf(),
                self.width == old(self).width,
                self.height == old(self).height,
                all == tunnel.spec_points(),
                0 <= done <= all.len(),
                line.remaining() == all.subrange(done, all.len() as int),
                forall|x: int, y: int|
                    in_bounds(old(self).width as int, old(self).height as int, x, y) ==> #[trigger]
                    self.tile_at(x, y) == if exists|k: int|
                        0 <= k < done && all[k].x == x && all[k].y == y {
                        tile
                    } else {
                        old(self).tile_at(x, y)
                    },
            decreases all.len() - done,
        {
            match line.next() {
                Some(p) => {
                    proof {
                        assert(p == all[done]);
                    }
                    self.set_tile(p, tile);
                    proof {
                        done = done + 1;
                        assert(line.remaining() =~= all.subrange(done, all.len() as int));
                        assert forall|x: int, y: int|
                            in_bounds(old(self).width as int, old(self).height as int, x, y)
                                implies #[trigger] self.tile_at(x, y) == if exists|k: int|
                            0 <= k < done && all[k].x == x && all[k].y == y {
                            tile
                        } else {
                            old(self).tile_at(x, y)
                        } by {
                            if x == p.x && y == p.y {
                                assert(all[done - 1].x == x && all[done - 1].y == y);
                            } else {
                                if exists|k: int| 0 <= k < done && all[k].x == x && all[k].y == y {
                                    let k = choose|k: int|
                                        0 <= k < done && all[k].x == x && all[k].y == y;
                                    assert(k < done - 1);
                                }
                            }
                        }
                    }
                },
                None => {
                    proof {
                        assert(done == all.len());
                        assert forall|x: int, y: int|
                            in_bounds(old(self).width as int, old(self).height as int, x, y)
                                implies #[trigger] self.tile_at(x, y) == if tunnel.covers(x, y) {
                            tile
                        } else {
                            old(self).tile_at(x, y)
                        } by {
                            lemma_tunnel_covers(*tunnel, x, y);
                        }
                    }
                    return;
                },
            }
        }
    }

    /// The tile at `point`, or `None` off the grid.
    pub fn get_tile(&self, point: Point) -> (r: Option<TileType>)
        requires
            self.wf(),
        ensures
            in_bounds(self.width as int, self.height as int, point.x as int, point.y as int)
                ==> r == Some(self.tile_at(point.x as int, point.y as int)),
            !in_bounds(self.width as int, self.height as int, point.x as int, point.y as int)
                ==> r.is_none(),
    {
        match self.idx(point.x, point.y) {
            Some(i) => Some(self.tiles[i]),
            None => None,
        }
    }

    pub fn is_floor(&self, point: Point) -> (r: bool)
        requires
            self.wf(),
        ensures
            r == (in_bounds(self.width as int, self.height as int, point.x as int, point.y as int)
                && self.tile_at(point.x as int, point.y as int) == TileType::Floor),
    {
        match self.get_tile(point) {
            Some(TileType::Floor) => true,
            _ => false,
        }
    }
}

/// A cell lies on a corridor exactly when the corridor's walk hands it out.
pub proof fn lemma_tunnel_covers(t: Tunnel, x: int, y: int)
    ensures
        t.covers(x, y) <==> exists|k: int|
            0 <= k < t.spec_points().len() && t.spec_points()[k].x == x && t.spec_points()[k].y
                == y,
{
    let pts = t.spec_points();
    match t {
        Tunnel::Horizontal { x1, x2, y: ty } => {
            let lo = crate::geometry::min_of(x1 as int, x2 as int);
            if t.covers(x, y) {
                let k = x - lo;
                assert(pts[k].x == x && pts[k].y == y);
            }
        },
        Tunnel::Vertical { y1, y2, x: tx } => {
            let lo = crate::geometry::min_of(y1 as int, y2 as int);
            if t.covers(x, y) {
                let k = y - lo;
                assert(pts[k].x == x && pts[k].y == y);
            }
        },
    }
}

} // verus!
