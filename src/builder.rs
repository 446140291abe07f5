use crate::geometry::{Point, Rect, Tunnel};
use crate::map::{in_bounds, TileMap, TileType};
use crate::random::{drew, draws_of, room_draws, WorldGenRng};
use crate::rooms::{
    clear_of, is_center_of_some, lemma_sort_by_center, pairwise_disjoint, sort_by_center,
    sort_rooms,
};
use vstd::prelude::*;

verus! {

/// What one call of a stage reports.
#[derive(Debug, Clone, Copy, PartialEq, Eq, Structural)]
pub enum BuildCommandResult {
    NotFinished,
    Finished,
    Progress { total: usize, current: usize },
}

/// Why a stage could not run on the builder as it stands.
#[derive(Debug, Clone, Copy, PartialEq, Eq, Structural)]
pub enum BuildError {
    /// The player was to be placed, but there is no room.
    NoRooms,
    /// A corridor was asked for between rooms `k` and `k + 1`, and room `k + 1` does not exist.
    MissingRoomPair,
    /// The room size leaves an empty range to draw a position or a size from.
    InvalidRoomSize,
    /// The allowed number of room attempts ran out before the target count was reached.
    RoomAttemptsExhausted,
}

/// The finished map and where the player starts.
pub struct MapResult {
    pub map: TileMap,
    pub player: Option<Point>,
}

/// The dungeon while it is being generated.
pub struct MapBuilder {
    pub width: i32,
    pub height: i32,
    pub rooms: Vec<Rect>,
    pub tunnels: Vec<Tunnel>,
    pub player: Option<Point>,
    pub fill_tile: Option<TileType>,
}

/// Whether `[1, width - max)`, `[1, height - max)` and `[2, max)` are all non-empty.
pub open spec fn room_size_fits(width: int, height: int, max_room_size: int) -> bool {
    2 < max_room_size && max_room_size + 1 < width && max_room_size + 1 < height
}

/// The rooms after a candidate has been tried: kept unless it intersects one of them.
pub open spec fn with_candidate(rooms: Seq<Rect>, room: Rect) -> Seq<Rect> {
    if clear_of(rooms, room) {
        rooms.push(room)
    } else {
        rooms
    }
}

/// Whether a candidate room lies in the ranges that a room attempt draws from.
pub open spec fn room_fits(room: Rect, width: int, height: int, max_room_size: int) -> bool {
    &&& 1 <= room.x1 < width - max_room_size
    &&& 1 <= room.y1 < height - max_room_size
    &&& 2 <= room.x2 - room.x1 < max_room_size
    &&& 2 <= room.y2 - room.y1 < max_room_size
}

/// The rooms after each candidate has been tried in turn.
pub open spec fn try_all(rooms: Seq<Rect>, cands: Seq<Rect>) -> Seq<Rect>
    decreases cands.len(),
{
    if cands.len() == 0 {
        rooms
    } else {
        with_candidate(try_all(rooms, cands.drop_last()), cands.last())
    }
}

pub proof fn lemma_try_all_len(rooms: Seq<Rect>, cands: Seq<Rect>)
    ensures
        rooms.len() <= try_all(rooms, cands).len() <= rooms.len() + cands.len(),
        rooms.len() == 0 && cands.len() > 0 ==> try_all(rooms, cands).len() >= 1,
    decreases cands.len(),
{
    if cands.len() > 0 {
        lemma_try_all_len(rooms, cands.drop_last());
    }
}

/// The two corridors that join `prev` to `new`: along the row of `prev` and then down
/// the column of `new`, or down the column of `prev` and then along the row of `new`.
pub open spec fn dog_leg(prev: Point, new: Point, horizontal_first: bool) -> Seq<Tunnel> {
    if horizontal_first {
        seq![
            Tunnel::Horizontal { x1: prev.x, x2: new.x, y: prev.y },
            Tunnel::Vertical { y1: prev.y, y2: new.y, x: new.x },
        ]
    } else {
        seq![
            Tunnel::Vertical { y1: prev.y, y2: new.y, x: prev.x },
            Tunnel::Horizontal { x1: prev.x, x2: new.x, y: new.y },
        ]
    }
}

/// How many corridors join `n` rooms in a chain: two per neighbouring pair.
pub open spec fn chain_tunnels(n: int) -> int {
    if n >= 1 {
        2 * (n - 1)
    } else {
        0
    }
}

/// The builder's state as plain values.
pub struct BuilderModel {
    pub width: i32,
    pub height: i32,
    pub rooms: Seq<Rect>,
    pub tunnels: Seq<Tunnel>,
    pub player: Option<Point>,
    pub fill_tile: Option<TileType>,
}

impl BuilderModel {
    /// The dog-leg that joins the next unjoined pair of neighbouring rooms.
    pub open spec fn next_leg(self, horizontal_first: bool) -> Seq<Tunnel> {
        let k = (self.tunnels.len() / 2) as int;
        dog_leg(self.rooms[k].spec_center(), self.rooms[k + 1].spec_center(), horizontal_first)
    }

    /// Rooms never intersect, corridors come in pairs that join neighbouring rooms, and
    /// the player, once placed, stands at the center of a room.
    pub open spec fn wf(self) -> bool {
        &&& 0 <= self.width
        &&& 0 <= self.height
        &&& self.width * self.height <= usize::MAX
        &&& self.rooms.len() <= i32::MAX
        &&& pairwise_disjoint(self.rooms)
        &&& self.tunnels.len() % 2 == 0
        &&& self.tunnels.len() <= chain_tunnels(self.rooms.len() as int)
        &&& (self.player matches Some(p) ==> is_center_of_some(self.rooms, p))
    }
}

impl View for MapBuilder {
    type V = BuilderModel;

    open spec fn view(&self) -> BuilderModel {
        BuilderModel {
            width: self.width,
            height: self.height,
            rooms: self.rooms@,
            tunnels: self.tunnels@,
            player: self.player,
            fill_tile: self.fill_tile,
        }
    }
}

impl MapBuilder {
    pub open spec fn wf(self) -> bool {
        self@.wf()
    }

    /// Whether a cell is carved: inside a room or on a corridor.
    pub open spec fn carved(self, x: int, y: int) -> bool {
        (exists|i: int| 0 <= i < self.rooms@.len() && (#[trigger] self.rooms@[i]).covers(x, y))
            || (exists|j: int|
            0 <= j < self.tunnels@.len() && (#[trigger] self.tunnels@[j]).covers(x, y))
    }

    /// The tile that the finished map holds at a cell.
    pub open spec fn final_tile(self, x: int, y: int) -> TileType {
        if self.carved(x, y) {
            TileType::Floor
        } else {
            match self.fill_tile {
                Some(t) => t,
                None => TileType::Floor,
            }
        }
    }

    /// What `build_map` returns for this builder.
    pub open spec fn is_map_of(self, m: TileMap) -> bool {
        &&& m.wf()
        &&& m.width == self.width
        &&& m.height == self.height
        &&& forall|x: int, y: int|
            in_bounds(self.width as int, self.height as int, x, y) ==> #[trigger] m.tile_at(x, y)
                == self.final_tile(x, y)
    }

    /// An empty builder for a `width * height` map.
    pub fn new(width: i32, height: i32, number_of_rooms: usize) -> (r: MapBuilder)
        requires
            0 <= width,
            0 <= height,
            width * height <= usize::MAX,
        ensures
            r.wf(),
            r.width == width,
            r.height == height,
            r.rooms@.len() == 0,
            r.tunnels@.len() == 0,
            r.player.is_none(),
            r.fill_tile.is_none(),
    {
        MapBuilder {
            width,
            height,
            rooms: Vec::with_capacity(number_of_rooms),
            tunnels: Vec::new(),
            player: None,
            fill_tile: None,
        }
    }

    /// Sets the background tile; a single call does the whole stage.
    pub fn fill(&mut self, tile: &TileType) -> (r: BuildCommandResult)
        requires
            old(self).wf(),
        ensures
            final(self).wf(),
            r == BuildCommandResult::Finished,
            final(self).fill_tile == Some(*tile),
            final(self).width == old(self).width,
            final(self).height == old(self).height,
            final(self).rooms@ == old(self).rooms@,
            final(self).tunnels@ == old(self).tunnels@,
            final(self).player == old(self).player,
    {
        self.fill_tile = Some(*tile);
        BuildCommandResult::Finished
    }

    /// Puts the player at the center of room `index`.
    pub fn place_player_in_room(&mut self, index: usize) -> (r: BuildCommandResult)
        requires
            old(self).wf(),
            index < old(self).rooms@.len(),
        ensures
            final(self).wf(),
            r == BuildCommandResult::Finished,
            final(self).player == Some(old(self).rooms@[index as int].spec_center()),
            final(self).width == old(self).width,
            final(self).height == old(self).height,
            final(self).rooms@ == old(self).rooms@,
            final(self).tunnels@ == old(self).tunnels@,
            final(self).fill_tile == old(self).fill_tile,
    {
        let center = self.rooms[index].center();
        self.player = Some(center);
        assert(self.rooms@[index as int].spec_center() == center);
        BuildCommandResult::Finished
    }

    /// Draws a room index and puts the player at that room's center; fails when there
    /// is no room.
    pub fn place_player(&mut self, rng: &mut WorldGenRng) -> (r: Result<
        BuildCommandResult,
        BuildError,
    >)
        requires
            old(self).wf(),
        ensures
            final(self).wf(),
            old(self).rooms@.len() == 0 <==> r == Err::<BuildCommandResult, BuildError>(
                BuildError::NoRooms,
            ),
            old(self).rooms@.len() == 0 ==> *final(self) == *old(self) && *final(rng) == *old(rng),
            old(self).rooms@.len() > 0 ==> r == Ok::<BuildCommandResult, BuildError>(
                BuildCommandResult::Finished,
            ) && (exists|i: int|
                0 <= i < old(self).rooms@.len() && drew(*old(rng), *final(rng), seq![i as i32])
                    && final(self).player == Some((#[trigger] old(self).rooms@[i]).spec_center())),
            final(self).width == old(self).width,
            final(self).height == old(self).height,
            final(self).rooms@ == old(self).rooms@,
            final(self).tunnels@ == old(self).tunnels@,
            final(self).fill_tile == old(self).fill_tile,
    {
        if self.rooms.len() == 0 {
            return Err(BuildError::NoRooms);
        }
        let index = rng.range(0, self.rooms.len() as i32);
        let r = self.place_player_in_room(index as usize);
        assert(self.player == Some(old(self).rooms@[index as int].spec_center()));
        assert(rng.drawn@ =~= old(rng).drawn@ + seq![index]);
        Ok(r)
    }

    /// Tries one candidate room: it is kept when it intersects no room. Once the target
    /// count is reached the rooms are sorted by center column and the stage is over.
    pub fn try_room(&mut self, num_of_rooms: i32, room: Rect) -> (r: BuildCommandResult)
        requires
            old(self).wf(),
            old(self).rooms@.len() < num_of_rooms,
        ensures
            final(self).wf(),
            with_candidate(old(self).rooms@, room).len() >= num_of_rooms ==> final(self).rooms@
                == sort_by_center(with_candidate(old(self).rooms@, room)) && r
                == BuildCommandResult::Finished,
            with_candidate(old(self).rooms@, room).len() < num_of_rooms ==> final(self).rooms@
                == with_candidate(old(self).rooms@, room) && r == (BuildCommandResult::Progress {
                total: num_of_rooms as usize,
                current: final(self).rooms@.len() as usize,
            }),
            final(self).width == old(self).width,
            final(self).height == old(self).height,
            final(self).tunnels@ == old(self).tunnels@,
            final(self).player == old(self).player,
            final(self).fill_tile == old(self).fill_tile,
    {
        let mut overlap = false;
        let mut i: usize = 0;
        while i < self.rooms.len()
            invariant
                i <= self.rooms@.len(),
                self.rooms@ == old(self).rooms@,
                overlap == exists|k: int| 0 <= k < i && (#[trigger] self.rooms@[k]).spec_intersect(room),
            decreases self.rooms@.len() - i,
        {
            if self.rooms[i].intersect(&room) {
                overlap = true;
            }
            i = i + 1;
        }
        if !overlap {
            self.rooms.push(room);
            proof {
                let s = self.rooms@;
                assert forall|a: int, b: int|
                    0 <= a < s.len() && 0 <= b < s.len() && a != b implies !(#[trigger] s[a]).spec_intersect(
                    #[trigger] s[b],
                ) by {
                    if a < s.len() - 1 && b < s.len() - 1 {
                        assert(s[a] == old(self).rooms@[a] && s[b] == old(self).rooms@[b]);
                    } else if a < s.len() - 1 {
                        assert(s[a] == old(self).rooms@[a]);
                        assert(!old(self).rooms@[a].spec_intersect(room));
                    } else {
                        assert(s[b] == old(self).rooms@[b]);
                        assert(!old(self).rooms@[b].spec_intersect(room));
                    }
                }
                if let Some(p) = self.player {
                    let k = choose|k: int|
                        0 <= k < old(self).rooms@.len() && (#[trigger] old(self).rooms@[k]).spec_center() == p;
                    assert(s[k] == old(self).rooms@[k]);
                }
            }
        }
        assert(self.rooms@ == with_candidate(old(self).rooms@, room));
        if self.rooms.len() >= num_of_rooms as usize {
            let ghost before = self.rooms@;
            sort_rooms(&mut self.rooms);
            proof {
                lemma_sort_by_center(before);
                if let Some(p) = self.player {
                    let k = choose|k: int|
                        0 <= k < before.len() && (#[trigger] before[k]).spec_center() == p;
                    let m = choose|m: int| 0 <= m < self.rooms@.len() && self.rooms@[m] == before[k];
                    assert(self.rooms@[m].spec_center() == p);
                }
            }
            BuildCommandResult::Finished
        } else {
            BuildCommandResult::Progress { total: num_of_rooms as usize, current: self.rooms.len() }
        }
    }

    /// One room attempt: draws a position in `[1, width - max) x [1, height - max)` and a
    /// size in `[2, max)` squared, then tries that room. When the target count is
    /// already reached it only sorts the rooms and finishes, drawing nothing.
    pub fn build_room(
        &mut self,
        num_of_rooms: i32,
        max_room_size: i32,
        rng: &mut WorldGenRng,
    ) -> (r: Result<BuildCommandResult, BuildError>)
        requires
            old(self).wf(),
        ensures
            final(self).wf(),
            old(self).rooms@.len() >= num_of_rooms ==> r == Ok::<BuildCommandResult, BuildError>(
                BuildCommandResult::Finished,
            ) && final(self).rooms@ == sort_by_center(old(self).rooms@) && *final(rng) == *old(
                rng,
            ),
            old(self).rooms@.len() < num_of_rooms && !room_size_fits(
                old(self).width as int,
                old(self).height as int,
                max_room_size as int,
            ) ==> r == Err::<BuildCommandResult, BuildError>(BuildError::InvalidRoomSize)
                && *final(self) == *old(self) && *final(rng) == *old(rng),
            old(self).rooms@.len() < num_of_rooms && room_size_fits(
                old(self).width as int,
                old(self).height as int,
                max_room_size as int,
            ) ==> exists|room: Rect|
                {
                    &&& room_fits(
                        room,
                        old(self).width as int,
                        old(self).height as int,
                        max_room_size as int,
                    )
                    &&& drew(*old(rng), *final(rng), room_draws(room))
                    &&& #[trigger] with_candidate(old(self).rooms@, room).len() >= num_of_rooms
                        ==> final(self).rooms@ == sort_by_center(
                        with_candidate(old(self).rooms@, room),
                    ) && r == Ok::<BuildCommandResult, BuildError>(BuildCommandResult::Finished)
                    &&& with_candidate(old(self).rooms@, room).len() < num_of_rooms
                        ==> final(self).rooms@ == with_candidate(old(self).rooms@, room) && r
                        == Ok::<BuildCommandResult, BuildError>(
                        BuildCommandResult::Progress {
                            total: num_of_rooms as usize,
                            current: final(self).rooms@.len() as usize,
                        },
                    )
                },
            final(self).width == old(self).width,
            final(self).height == old(self).height,
            final(self).tunnels@ == old(self).tunnels@,
            final(self).player == old(self).player,
            final(self).fill_tile == old(self).fill_tile,
    {
        if self.rooms.len() as i64 >= num_of_rooms as i64 {
            let ghost before = self.rooms@;
            sort_rooms(&mut self.rooms);
            proof {
                lemma_sort_by_center(before);
                if let Some(p) = self.player {
                    let k = choose|k: int|
                        0 <= k < before.len() && (#[trigger] before[k]).spec_center() == p;
                    let m = choose|m: int| 0 <= m < self.rooms@.len() && self.rooms@[m] == before[k];
                    assert(self.rooms@[m].spec_center() == p);
                }
            }
            return Ok(BuildCommandResult::Finished);
        }
        if !(2 < max_room_size && max_room_size < self.width - 1 && max_room_size < self.height
            - 1) {
            return Err(BuildError::InvalidRoomSize);
        }
        let x = rng.range(1, self.width - max_room_size);
        let y = rng.range(1, self.height - max_room_size);
        let w = rng.range(2, max_room_size);
        let h = rng.range(2, max_room_size);
        let room = Rect::with_size(x, y, w, h);
        assert(room_draws(room) =~= seq![x, y, w, h]);
        assert(drew(*old(rng), *rng, room_draws(room))) by {
            assert(rng.drawn@ =~= old(rng).drawn@ + seq![x, y, w, h]);
        }
        let r = self.try_room(num_of_rooms, room);
        Ok(r)
    }

    /// Room attempts until the target count is reached, at most `max_attempts` of them;
    /// fails with `RoomAttemptsExhausted` when they run out first. The candidates are
    /// tried in the order drawn, and the rooms are sorted by center column once the
    /// target is reached.
    pub fn build_rooms(
        &mut self,
        num_of_rooms: i32,
        max_room_size: i32,
        max_attempts: usize,
        rng: &mut WorldGenRng,
    ) -> (r: Result<BuildCommandResult, BuildError>)
        requires
            old(self).wf(),
        ensures
            final(self).wf(),
            old(self).rooms@.len() >= num_of_rooms ==> r == Ok::<BuildCommandResult, BuildError>(
                BuildCommandResult::Finished,
            ) && final(self).rooms@ == sort_by_center(old(self).rooms@) && *final(rng) == *old(
                rng,
            ),
            old(self).rooms@.len() < num_of_rooms && !room_size_fits(
                old(self).width as int,
                old(self).height as int,
                max_room_size as int,
            ) ==> r == Err::<BuildCommandResult, BuildError>(BuildError::InvalidRoomSize)
                && *final(self) == *old(self) && *final(rng) == *old(rng),
            old(self).rooms@.len() < num_of_rooms && room_size_fits(
                old(self).width as int,
                old(self).height as int,
                max_room_size as int,
            ) ==> exists|cands: Seq<Rect>|
                {
                    &&& cands.len() <= max_attempts
                    &&& forall|j: int|
                        0 <= j < cands.len() ==> room_fits(
                            #[trigger] cands[j],
                            old(self).width as int,
                            old(self).height as int,
                            max_room_size as int,
                        )
                    &&& drew(*old(rng), *final(rng), draws_of(cands))
                    &&& cands.len() > 0 ==> try_all(old(self).rooms@, cands.drop_last()).len()
                        < num_of_rooms
                    &&& #[trigger] try_all(old(self).rooms@, cands).len() >= num_of_rooms ==> r
                        == Ok::<BuildCommandResult, BuildError>(BuildCommandResult::Finished)
                        && final(self).rooms@ == sort_by_center(try_all(old(self).rooms@, cands))
                    &&& try_all(old(self).rooms@, cands).len() < num_of_rooms ==> r == Err::<
                        BuildCommandResult,
                        BuildError,
                    >(BuildError::RoomAttemptsExhausted) && cands.len() == max_attempts
                        && final(self).rooms@ == try_all(old(self).rooms@, cands)
                },
            r == Ok::<BuildCommandResult, BuildError>(BuildCommandResult::Finished)
                ==> final(self).rooms@.len() == if old(self).rooms@.len() >= num_of_rooms {
                old(self).rooms@.len() as int
            } else {
                num_of_rooms as int
            },
            old(self).rooms@.len() == 0 && num_of_rooms == 1 && max_attempts > 0
                && room_size_fits(
                old(self).width as int,
                old(self).height as int,
                max_room_size as int,
            ) ==> r == Ok::<BuildCommandResult, BuildError>(BuildCommandResult::Finished),
            final(self).width == old(self).width,
            final(self).height == old(self).height,
            final(self).tunnels@ == old(self).tunnels@,
            final(self).player == old(self).player,
            final(self).fill_tile == old(self).fill_tile,
    {
        if self.rooms.len() as i64 >= num_of_rooms as i64 {
            proof {
                lemma_sort_by_center(self.rooms@);
            }
            return self.build_room(num_of_rooms, max_room_size, rng);
        }
        if !(2 < max_room_size && max_room_size < self.width - 1 && max_room_size < self.height
            - 1) {
            return Err(BuildError::InvalidRoomSize);
        }
        let ghost start = self.rooms@;
        let ghost mut cands: Seq<Rect> = Seq::empty();
        proof {
            assert(drew(*old(rng), *rng, draws_of(cands))) by {
                assert(rng.drawn@ =~= old(rng).drawn@ + Seq::<i32>::empty());
            }
        }
        let mut attempts: usize = 0;
        while attempts < max_attempts
            invariant
                self.wf(),
                start == old(self).rooms@,
                self.rooms@.len() < num_of_rooms,
                room_size_fits(self.width as int, self.height as int, max_room_size as int),
                self.width == old(self).width,
                self.height == old(self).height,
                self.tunnels@ == old(self).tunnels@,
                self.player == old(self).player,
                self.fill_tile == old(self).fill_tile,
                cands.len() == attempts,
                attempts <= max_attempts,
                forall|j: int|
                    0 <= j < cands.len() ==> room_fits(
                        #[trigger] cands[j],
                        old(self).width as int,
                        old(self).height as int,
                        max_room_size as int,
                    ),
                drew(*old(rng), *rng, draws_of(cands)),
                self.rooms@ == try_all(start, cands),
                cands.len() > 0 ==> try_all(start, cands.drop_last()).len() < num_of_rooms,
            decreases max_attempts - attempts,
        {
            let ghost before = self.rooms@;
            let ghost rng_before = *rng;
            let r = self.build_room(num_of_rooms, max_room_size, rng);
            proof {
                let room = choose|room: Rect|
                    {
                        &&& room_fits(
                            room,
                            old(self).width as int,
                            old(self).height as int,
                            max_room_size as int,
                        )
                        &&& drew(rng_before, *rng, room_draws(room))
                        &&& #[trigger] with_candidate(before, room).len() >= num_of_rooms
                            ==> self.rooms@ == sort_by_center(with_candidate(before, room)) && r
                            == Ok::<BuildCommandResult, BuildError>(BuildCommandResult::Finished)
                        &&& with_candidate(before, room).len() < num_of_rooms ==> self.rooms@
                            == with_candidate(before, room) && r == Ok::<
                            BuildCommandResult,
                            BuildError,
                        >(
                            BuildCommandResult::Progress {
                                total: num_of_rooms as usize,
                                current: self.rooms@.len() as usize,
                            },
                        )
                    };
                lemma_sort_by_center(with_candidate(before, room));
                let next = cands.push(room);
                assert(next.drop_last() =~= cands);
                assert(draws_of(next) == draws_of(cands) + room_draws(room));
                assert(rng.drawn@ =~= old(rng).drawn@ + draws_of(next));
                assert(try_all(start, next) == with_candidate(before, room));
                assert forall|j: int|
                    0 <= j < next.len() implies room_fits(
                    #[trigger] next[j],
                    old(self).width as int,
                    old(self).height as int,
                    max_room_size as int,
                ) by {
                    if j < cands.len() {
                        assert(next[j] == cands[j]);
                    }
                }
                cands = next;
                assert(try_all(start, cands).len() >= num_of_rooms ==> r == Ok::<
                    BuildCommandResult,
                    BuildError,
                >(BuildCommandResult::Finished) && self.rooms@ == sort_by_center(
                    try_all(start, cands),
                ));
            }
            match r {
                Ok(BuildCommandResult::Progress { .. }) => {},
                _ => {
                    proof {
                        lemma_try_all_len(start, cands.drop_last());
                    }
                    return r;
                },
            }
            attempts = attempts + 1;
        }
        proof {
            lemma_try_all_len(start, cands);
        }
        Err(BuildError::RoomAttemptsExhausted)
    }

    /// Joins rooms `k` and `k + 1`, where `k` is half the number of corridors so far.
    pub fn connect_next_pair(&mut self, num_of_tunnels: i32, horizontal_first: bool) -> (r:
        BuildCommandResult)
        requires
            old(self).wf(),
            old(self).tunnels@.len() / 2 + 1 < old(self).rooms@.len(),
        ensures
            final(self).wf(),
            final(self).tunnels@ == old(self).tunnels@ + old(self)@.next_leg(horizontal_first),
            final(self).tunnels@.len() >= num_of_tunnels ==> r == BuildCommandResult::Finished,
            final(self).tunnels@.len() < num_of_tunnels ==> r == (BuildCommandResult::Progress {
                total: num_of_tunnels as usize,
                current: final(self).tunnels@.len() as usize,
            }),
            final(self).width == old(self).width,
            final(self).height == old(self).height,
            final(self).rooms@ == old(self).rooms@,
            final(self).player == old(self).player,
            final(self).fill_tile == old(self).fill_tile,
    {
        let k = self.tunnels.len() / 2 + 1;
        let prev = self.rooms[k - 1].center();
        let new = self.rooms[k].center();
        if horizontal_first {
            self.tunnels.push(Tunnel::horizontal(prev.x, new.x, prev.y));
            self.tunnels.push(Tunnel::vertical(prev.y, new.y, new.x));
        } else {
            self.tunnels.push(Tunnel::vertical(prev.y, new.y, prev.x));
            self.tunnels.push(Tunnel::horizontal(prev.x, new.x, new.y));
        }
        assert(self.tunnels@ =~= old(self).tunnels@ + dog_leg(prev, new, horizontal_first));
        if self.tunnels.len() as i64 >= num_of_tunnels as i64 {
            BuildCommandResult::Finished
        } else {
            BuildCommandResult::Progress {
                total: num_of_tunnels as usize,
                current: self.tunnels.len(),
            }
        }
    }

    /// One corridor step: with fewer than two rooms, or once `num_of_tunnels` corridors
    /// exist, the stage is over and nothing is drawn; else one coin is drawn to pick the
    /// shape of the next dog-leg.
    pub fn build_tunnels(&mut self, num_of_tunnels: i32, rng: &mut WorldGenRng) -> (r:
        Result<BuildCommandResult, BuildError>)
        requires
            old(self).wf(),
        ensures
            final(self).wf(),
            (old(self).rooms@.len() < 2 || old(self).tunnels@.len() >= num_of_tunnels) ==> r
                == Ok::<BuildCommandResult, BuildError>(BuildCommandResult::Finished)
                && *final(self) == *old(self) && *final(rng) == *old(rng),
            (old(self).rooms@.len() >= 2 && old(self).tunnels@.len() < num_of_tunnels
                && old(self).tunnels@.len() / 2 + 1 >= old(self).rooms@.len()) ==> r == Err::<
                BuildCommandResult,
                BuildError,
            >(BuildError::MissingRoomPair) && *final(self) == *old(self) && *final(rng) == *old(rng),
            (old(self).rooms@.len() >= 2 && old(self).tunnels@.len() < num_of_tunnels
                && old(self).tunnels@.len() / 2 + 1 < old(self).rooms@.len()) ==> exists|
                horizontal_first: bool,
            |
                {
                    &&& drew(
                        *old(rng),
                        *final(rng),
                        seq![
                            if horizontal_first {
                                1i32
                            } else {
                                0i32
                            },
                        ],
                    )
                    &&& #[trigger] old(self)@.next_leg(horizontal_first) == final(self).tunnels@.subrange(
                        old(self).tunnels@.len() as int,
                        final(self).tunnels@.len() as int,
                    )
                    &&& final(self).tunnels@.len() == old(self).tunnels@.len() + 2
                    &&& final(self).tunnels@.subrange(0, old(self).tunnels@.len() as int)
                        == old(self).tunnels@
                    &&& final(self).tunnels@.len() >= num_of_tunnels ==> r == Ok::<
                        BuildCommandResult,
                        BuildError,
                    >(BuildCommandResult::Finished)
                    &&& final(self).tunnels@.len() < num_of_tunnels ==> r == Ok::<
                        BuildCommandResult,
                        BuildError,
                    >(
                        BuildCommandResult::Progress {
                            total: num_of_tunnels as usize,
                            current: final(self).tunnels@.len() as usize,
                        },
                    )
                },
            r == Ok::<BuildCommandResult, BuildError>(BuildCommandResult::Finished)
                && num_of_tunnels == chain_tunnels(old(self).rooms@.len() as int)
                ==> final(self).tunnels@.len() == chain_tunnels(final(self).rooms@.len() as int),
            final(self).width == old(self).width,
            final(self).height == old(self).height,
            final(self).rooms@ == old(self).rooms@,
            final(self).player == old(self).player,
            final(self).fill_tile == old(self).fill_tile,
    {
        if self.rooms.len() < 2 || self.tunnels.len() as i64 >= num_of_tunnels as i64 {
            return Ok(BuildCommandResult::Finished);
        }
        if self.tunnels.len() / 2 + 1 >= self.rooms.len() {
            return Err(BuildError::MissingRoomPair);
        }
        let coin = rng.range(0, 2);
        let ghost before = self.tunnels@;
        let r = self.connect_next_pair(num_of_tunnels, coin == 1);
        proof {
            let leg = old(self)@.next_leg(coin == 1);
            assert(self.tunnels@.subrange(before.len() as int, self.tunnels@.len() as int) =~= leg);
            assert(self.tunnels@.subrange(0, before.len() as int) =~= before);
            assert(rng.drawn@ =~= old(rng).drawn@ + seq![
                if coin == 1 {
                    1i32
                } else {
                    0i32
                },
            ]);
        }
        Ok(r)
    }

    /// Hands over the finished map and the player's place, consuming the builder.
    pub fn build(self) -> (r: MapResult)
        requires
            self.wf(),
        ensures
            self.is_map_of(r.map),
            r.player == self.player,
    {
        self.build_map()
    }

    /// Paints the finished map: the background tile (Floor when none was set), then
    /// every room's interior and every corridor as Floor.
    pub fn build_map(&self) -> (r: MapResult)
        requires
            self.wf(),
        ensures
            self.is_map_of(r.map),
            r.player == self.player,
    {
        let mut map = TileMap::new(self.width, self.height);
        match self.fill_tile {
            Some(tile) => map.fill(tile),
            None => {},
        }
        let ghost base = match self.fill_tile {
            Some(t) => t,
            None => TileType::Floor,
        };
        assert forall|x: int, y: int|
            in_bounds(self.width as int, self.height as int, x, y) implies #[trigger] map.tile_at(
            x,
            y,
        ) == base by {
            map.lemma_index_in_range(x, y);
        }
        let mut i: usize = 0;
        while i < self.rooms.len()
            invariant
                map.wf(),
                map.width == self.width,
                map.height == self.height,
                i <= self.rooms@.len(),
                forall|x: int, y: int|
                    in_bounds(self.width as int, self.height as int, x, y) ==> #[trigger] map.tile_at(
                        x,
                        y,
                    ) == if exists|k: int|
                        0 <= k < i && (#[trigger] self.rooms@[k]).covers(x, y) {
                        TileType::Floor
                    } else {
                        base
                    },
            decreases self.rooms@.len() - i,
        {
            let ghost prev = map;
            map.carve_room(&self.rooms[i], TileType::Floor);
            proof {
                assert forall|x: int, y: int|
                    in_bounds(self.width as int, self.height as int, x, y) implies #[trigger] map.tile_at(
                    x,
                    y,
                ) == if exists|k: int|
                    0 <= k < i + 1 && (#[trigger] self.rooms@[k]).covers(x, y) {
                    TileType::Floor
                } else {
                    base
                } by {
                    if self.rooms@[i as int].covers(x, y) {
                        assert(exists|k: int|
                            0 <= k < i + 1 && (#[trigger] self.rooms@[k]).covers(x, y));
                    } else {
                        assert(prev.tile_at(x, y) == map.tile_at(x, y));
                        if exists|k: int| 0 <= k < i + 1 && (#[trigger] self.rooms@[k]).covers(x, y) {
                            let k = choose|k: int|
                                0 <= k < i + 1 && (#[trigger] self.rooms@[k]).covers(x, y);
                            assert(k < i);
                        }
                    }
                }
            }
            i = i + 1;
        }
        let mut j: usize = 0;
        while j < self.tunnels.len()
            invariant
                map.wf(),
                map.width == self.width,
                map.height == self.height,
                j <= self.tunnels@.len(),
                forall|x: int, y: int|
                    in_bounds(self.width as int, self.height as int, x, y) ==> #[trigger] map.tile_at(
                        x,
                        y,
                    ) == if (exists|k: int|
                        0 <= k < self.rooms@.len() && (#[trigger] self.rooms@[k]).covers(x, y)) || (
                    exists|k: int| 0 <= k < j && (#[trigger] self.tunnels@[k]).covers(x, y)) {
                        TileType::Floor
                    } else {
                        base
                    },
            decreases self.tunnels@.len() - j,
        {
            let ghost prev = map;
            map.carve_tunnel(&self.tunnels[j], TileType::Floor);
            proof {
                assert forall|x: int, y: int|
                    in_bounds(self.width as int, self.height as int, x, y) implies #[trigger] map.tile_at(
                    x,
                    y,
                ) == if (exists|k: int|
                    0 <= k < self.rooms@.len() && (#[trigger] self.rooms@[k]).covers(x, y)) || (
                exists|k: int| 0 <= k < j + 1 && (#[trigger] self.tunnels@[k]).covers(x, y)) {
                    TileType::Floor
                } else {
                    base
                } by {
                    if self.tunnels@[j as int].covers(x, y) {
                        assert(exists|k: int|
                            0 <= k < j + 1 && (#[trigger] self.tunnels@[k]).covers(x, y));
                    } else {
                        assert(prev.tile_at(x, y) == map.tile_at(x, y));
                        if exists|k: int| 0 <= k < j + 1 && (#[trigger] self.tunnels@[k]).covers(x, y) {
                            let k = choose|k: int|
                                0 <= k < j + 1 && (#[trigger] self.tunnels@[k]).covers(x, y);
                            assert(k < j);
                        }
                    }
                }
            }
            j = j + 1;
        }
        MapResult { map, player: self.player }
    }
}

} // verus!
