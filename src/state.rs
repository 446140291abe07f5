use crate::builder::{BuildCommandResult, BuildError, MapBuilder};
use crate::geometry::{Point, Rect};
use crate::map::TileMap;
use crate::runner::{config_error, ConfigError, GeneraotrRunner};
use crate::generator::GeneratorCommand;
use crate::random::{draws_fit, drew, WorldGenRng};
use crate::runner::{ranges_at, runner_step};
use vstd::prelude::*;

verus! {

pub const SCREEN_WIDTH: i32 = 80;

pub const SCREEN_HEIGHT: i32 = 50;

/// The phases of building a map by hand, in the order they run.
#[derive(Debug, Clone, Copy, PartialEq, Eq, Structural)]
pub enum BuilderState {
    Started,
    Filling,
    Rooms,
    ConnectingRooms,
    PlacingPlayer,
    Finished,
}

impl BuilderState {
    /// The place of the phase in the sequence.
    pub open spec fn rank(self) -> int {
        match self {
            BuilderState::Started => 0,
            BuilderState::Filling => 1,
            BuilderState::Rooms => 2,
            BuilderState::ConnectingRooms => 3,
            BuilderState::PlacingPlayer => 4,
            BuilderState::Finished => 5,
        }
    }

    /// Moves to the following phase; `Finished` stays.
    pub fn next(&mut self)
        ensures
            old(self).rank() < 5 ==> final(self).rank() == old(self).rank() + 1,
            old(self).rank() == 5 ==> *final(self) == BuilderState::Finished,
    {
        *self = match self {
            BuilderState::Started => BuilderState::Filling,
            BuilderState::Filling => BuilderState::Rooms,
            BuilderState::Rooms => BuilderState::ConnectingRooms,
            BuilderState::ConnectingRooms => BuilderState::PlacingPlayer,
            BuilderState::PlacingPlayer => BuilderState::Finished,
            BuilderState::Finished => BuilderState::Finished,
        }
    }

    pub fn has_filled(&self) -> (r: bool)
        ensures
            r == (self.rank() >= 2),
    {
        !matches!(self, BuilderState::Started | BuilderState::Filling)
    }

    pub fn has_build_rooms(&self) -> (r: bool)
        ensures
            r == (self.rank() >= 3),
    {
        !matches!(self, BuilderState::Started | BuilderState::Filling | BuilderState::Rooms)
    }

    pub fn has_connected_rooms(&self) -> (r: bool)
        ensures
            r == (self.rank() >= 4),
    {
        matches!(self, BuilderState::PlacingPlayer | BuilderState::Finished)
    }

    pub fn has_placed_player(&self) -> (r: bool)
        ensures
            r == (self.rank() == 5),
    {
        matches!(self, BuilderState::Finished)
    }

    pub fn is_finished(&self) -> (r: bool)
        ensures
            r == (self.rank() == 5),
    {
        matches!(self, BuilderState::Finished)
    }
}

impl Default for BuilderState {
    fn default() -> (r: BuilderState)
        ensures
            r == BuilderState::Started,
    {
        BuilderState::Started
    }
}

/// A runner together with the builder it works on.
pub struct MapBuilderState {
    pub generator: GeneraotrRunner,
    pub builder: MapBuilder,
}

impl MapBuilderState {
    pub open spec fn wf(self) -> bool {
        self.generator.wf() && self.builder.wf()
    }

    /// Checks the stages against a `width * height` map and pairs them with an empty
    /// builder for it.
    pub fn new(commands: Vec<GeneratorCommand>, width: i32, height: i32) -> (r: Result<
        MapBuilderState,
        ConfigError,
    >)
        requires
            0 <= width,
            0 <= height,
            width * height <= usize::MAX,
        ensures
            config_error(commands@, width as int, height as int) matches Some(e) ==> r == Err::<
                MapBuilderState,
                ConfigError,
            >(e),
            config_error(commands@, width as int, height as int) is None ==> (r matches Ok(s)
                && s.wf() && s.generator.commands@ == commands@ && s.generator.run_index == 0
                && s.builder.width == width && s.builder.height == height
                && s.builder.rooms@.len() == 0 && s.builder.tunnels@.len() == 0
                && s.builder.player is None && s.builder.fill_tile is None),
    {
        let n = commands.len();
        match GeneraotrRunner::new(commands, width, height) {
            Ok(generator) => Ok(MapBuilderState { generator, builder: MapBuilder::new(width, height, n) }),
            Err(e) => Err(e),
        }
    }

    /// One unit of generation work.
    pub fn build_world(&mut self, rng: &mut WorldGenRng) -> (r: Result<
        BuildCommandResult,
        BuildError,
    >)
        requires
            old(self).wf(),
        ensures
            final(self).wf(),
            final(self).generator.commands@ == old(self).generator.commands@,
            exists|d: Seq<i32>|
                drew(*old(rng), *final(rng), d) && draws_fit(
                    ranges_at(
                        old(self).generator.commands@,
                        old(self).generator.run_index as int,
                        old(self).builder@,
                    ),
                    d,
                ) && #[trigger] runner_step(
                    old(self).generator.commands@,
                    old(self).generator.run_index as int,
                    old(self).builder@,
                    d,
                ) == (final(self).generator.run_index as int, final(self).builder@, r),
            ranges_at(
                old(self).generator.commands@,
                old(self).generator.run_index as int,
                old(self).builder@,
            ).len() == 0 ==> *final(rng) == *old(rng),
    {
        self.generator.next(&mut self.builder, rng)
    }

    pub fn is_finished(&self) -> (r: bool)
        ensures
            r == self.generator.finished(),
    {
        self.generator.is_finished()
    }
}

impl Default for MapBuilderState {
    /// The standard stages on a screen-sized map.
    fn default() -> (r: MapBuilderState)
        ensures
            r.wf(),
            r.generator.commands@ == crate::runner::standard_commands(),
            r.generator.run_index == 0,
            r.builder.width == SCREEN_WIDTH,
            r.builder.height == SCREEN_HEIGHT,
            r.builder.rooms@.len() == 0,
            r.builder.tunnels@.len() == 0,
    {
        MapBuilderState {
            builder: MapBuilder::new(SCREEN_WIDTH, SCREEN_HEIGHT, 10),
            generator: GeneraotrRunner::default(),
        }
    }
}

/// The centers of the rooms, in order, but for those at `player`.
pub open spec fn monster_spots(rooms: Seq<Rect>, player: Point) -> Seq<Point>
    decreases rooms.len(),
{
    if rooms.len() == 0 {
        seq![]
    } else {
        let head = monster_spots(rooms.drop_last(), player);
        if rooms.last().spec_center() == player {
            head
        } else {
            head.push(rooms.last().spec_center())
        }
    }
}

/// What a finished generation hands to the world: the map, where the player starts, and
/// where a monster stands in every other room.
pub struct WorldStart {
    pub map: TileMap,
    pub player: Point,
    pub monsters: Vec<Point>,
}

/// Once every stage is done and the player is placed: the finished map, the player's
/// place and the monsters' places. `None` before that.
pub fn finish_world_gen(generator: &GeneraotrRunner, builder: &MapBuilder) -> (r: Option<
    WorldStart,
>)
    requires
        builder.wf(),
    ensures
        r is Some <==> generator.finished() && builder.player is Some,
        r matches Some(w) ==> {
            &&& builder.is_map_of(w.map)
            &&& builder.player == Some(w.player)
            &&& w.monsters@ == monster_spots(builder.rooms@, w.player)
        },
{
    if !generator.is_finished() {
        return None;
    }
    let player = match builder.player {
        Some(p) => p,
        None => return None,
    };
    let result = builder.build_map();
    let mut monsters: Vec<Point> = Vec::new();
    let mut i: usize = 0;
    while i < builder.rooms.len()
        invariant
            i <= builder.rooms@.len(),
            monsters@ == monster_spots(builder.rooms@.subrange(0, i as int), player),
        decreases builder.rooms@.len() - i,
    {
        let center = builder.rooms[i].center();
        proof {
            let s = builder.rooms@.subrange(0, i as int + 1);
            assert(s.drop_last() =~= builder.rooms@.subrange(0, i as int));
            assert(s.last() == builder.rooms@[i as int]);
        }
        if center != player {
            monsters.push(center);
        }
        i = i + 1;
    }
    assert(builder.rooms@.subrange(0, builder.rooms@.len() as int) =~= builder.rooms@);
    Some(WorldStart { map: result.map, player, monsters })
}

} // verus!
