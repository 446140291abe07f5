use ferros::camera::{Camera, InWorldCamera};
use ferros::geometry::{Point, PointLine, Rect, Tunnel};
use ferros::map::{TileMap, TileType};
use ferros::progress::{world_gen_progress, ProgressBar};
use ferros::runner::GeneraotrRunner;
use ferros::builder::MapBuilder;
use ferros::state::BuilderState;

#[test]
fn rect_with_size_and_center() {
    let r = Rect::with_size(1, 2, 3, 4);
    assert_eq!(r, Rect { x1: 1, y1: 2, x2: 4, y2: 6 });
    assert_eq!(r.center(), Point::new(2, 4));
    assert_eq!(r.width(), 3);
    assert_eq!(r.height(), 4);
    let neg = Rect { x1: -3, x2: 0, y1: -5, y2: -2 };
    assert_eq!(neg.center(), Point::new(-1, -3));
}

#[test]
fn rect_intersection_is_edge_inclusive() {
    let a = Rect::with_size(0, 0, 4, 4);
    let touching = Rect::with_size(4, 0, 2, 2);
    let apart = Rect::with_size(5, 5, 2, 2);
    assert!(a.intersect(&touching));
    assert!(touching.intersect(&a));
    assert!(!a.intersect(&apart));
    assert!(a.intersect(&a));
}

#[test]
fn tunnel_points_run_low_to_high() {
    let h = Tunnel::horizontal(5, 2, 7);
    assert_eq!(
        h.points(),
        vec![Point::new(2, 7), Point::new(3, 7), Point::new(4, 7), Point::new(5, 7)]
    );
    let v = Tunnel::vertical(1, 3, 9);
    assert_eq!(v.points(), vec![Point::new(9, 1), Point::new(9, 2), Point::new(9, 3)]);
    assert_eq!(Tunnel::horizontal(4, 4, 0).points(), vec![Point::new(4, 0)]);
}

#[test]
fn point_line_walks_and_restarts() {
    let t = Tunnel::vertical(3, 2, 6);
    let mut line = t.point_line();
    assert_eq!(line.next(), Some(Point::new(6, 2)));
    assert_eq!(line.next(), Some(Point::new(6, 3)));
    assert_eq!(line.next(), None);
    assert_eq!(line.next(), None);
    let mut again = t.point_line();
    assert_eq!(again.next(), Some(Point::new(6, 2)));
    let mut top = PointLine { max: i32::MAX, current: i32::MAX, static_el: 0, static_first: false };
    assert_eq!(top.next(), Some(Point::new(i32::MAX, 0)));
    assert_eq!(top.next(), None);
}

#[test]
fn new_map_is_floor_and_fill_paints_all() {
    let mut m = TileMap::new(3, 2);
    assert_eq!(m.tiles.len(), 6);
    assert!(m.tiles.iter().all(|t| *t == TileType::Floor));
    m.fill(TileType::Wall);
    assert!(m.tiles.iter().all(|t| *t == TileType::Wall));
    assert!(!m.is_floor(Point::new(0, 0)));
}

#[test]
fn tiles_off_the_grid_are_none() {
    let m = TileMap::new(4, 2);
    assert_eq!(m.get_tile(Point::new(4, 0)), None);
    assert_eq!(m.get_tile(Point::new(0, 2)), None);
    assert_eq!(m.get_tile(Point::new(-1, 0)), None);
    assert_eq!(m.get_tile(Point::new(3, 1)), Some(TileType::Floor));
    assert!(!m.is_floor(Point::new(0, 3)));
}

#[test]
fn carving_rooms_and_tunnels() {
    let mut m = TileMap::new(6, 5);
    m.fill(TileType::Wall);
    m.carve_room(&Rect::with_size(1, 1, 2, 2), TileType::Floor);
    assert!(m.is_floor(Point::new(1, 1)));
    assert!(m.is_floor(Point::new(2, 2)));
    assert!(!m.is_floor(Point::new(3, 3)));
    assert!(!m.is_floor(Point::new(0, 0)));
    m.carve_tunnel(&Tunnel::vertical(4, 0, 5), TileType::Floor);
    for y in 0..5 {
        assert!(m.is_floor(Point::new(5, y)));
    }
    assert!(!m.is_floor(Point::new(4, 4)));
    m.carve_tunnel(&Tunnel::horizontal(-3, 20, 4), TileType::Floor);
    for x in 0..6 {
        assert!(m.is_floor(Point::new(x, 4)));
    }
    let floors = m.tiles.iter().filter(|t| **t == TileType::Floor).count();
    assert_eq!(floors, 4 + 5 + 5);
}

#[test]
fn builder_state_walks_through_phases() {
    let mut s = BuilderState::default();
    assert_eq!(s, BuilderState::Started);
    assert!(!s.has_filled());
    s.next();
    assert_eq!(s, BuilderState::Filling);
    assert!(!s.has_filled());
    s.next();
    assert!(s.has_filled() && !s.has_build_rooms());
    s.next();
    assert!(s.has_build_rooms() && !s.has_connected_rooms());
    s.next();
    assert!(s.has_connected_rooms() && !s.has_placed_player());
    s.next();
    assert!(s.has_placed_player() && s.is_finished());
    s.next();
    assert_eq!(s, BuilderState::Finished);
}

#[test]
fn camera_centers_on_a_point() {
    let mut c = Camera::new(Point::new(50, 30));
    assert_eq!(c, Camera { left_x: 10, right_x: 90, top_y: 5, bottom_y: 55 });
    assert_eq!(c.top_left_corner(), Point::new(10, 5));
    c.update(Point::new(0, 0));
    assert_eq!(c.top_left_corner(), Point::new(-40, -25));
}

#[test]
fn camera_walk_covers_the_view_but_its_last_cell() {
    let c = Camera { left_x: 0, right_x: 2, top_y: 0, bottom_y: 1 };
    let mut it = c.into_iter();
    let mut seen = Vec::new();
    while let Some(p) = it.next() {
        seen.push(p);
    }
    assert_eq!(
        seen,
        vec![
            Point::new(0, 0),
            Point::new(1, 0),
            Point::new(2, 0),
            Point::new(0, 1),
            Point::new(1, 1)
        ]
    );
    assert_eq!(it.next(), None);
}

#[test]
fn in_world_camera_clamps_its_corner() {
    let mut c = InWorldCamera::new(Point::new(10, 40));
    assert_eq!(c.left_x, -30);
    assert_eq!(c.top_left_corner(), Point::new(0, 15));
    c.update(Point::new(100, 100));
    assert_eq!(c.top_left_corner(), Point::new(60, 75));
    assert_eq!(c.right_x, 140);
    assert_eq!(c.bottom_y, 125);
}

#[test]
fn progress_bar_follows_the_runner() {
    let bar = ProgressBar::new(43);
    assert_eq!((bar.total, bar.current, bar.label, bar.y), (1, 0, None, 43));
    let runner = GeneraotrRunner::default();
    let builder = MapBuilder::new(80, 50, 10);
    let mut slot = Some(bar);
    world_gen_progress(&mut slot, &runner, &builder);
    let b = slot.unwrap();
    assert_eq!((b.total, b.current, b.label, b.y), (30, 0, Some("Filling Map"), 43));
    let mut none: Option<ProgressBar> = None;
    world_gen_progress(&mut none, &runner, &builder);
    assert!(none.is_none());
    assert_eq!(ProgressBar::HEIGHT, 7);
    assert_eq!(ProgressBar::WIDTH, 70);
}
