use crate::builder::{
    room_size_fits, with_candidate, BuildCommandResult, BuildError, BuilderModel, MapBuilder,
};
use crate::geometry::Rect;
use crate::map::TileType;
use crate::rooms::sort_by_center;
use crate::random::{draws_fit, drawn_room, drew, room_draws, WorldGenRng};
use vstd::prelude::*;

verus! {

/// One stage of generation, with its parameters.
#[derive(Debug, Clone, Copy, PartialEq, Eq, Structural)]
pub enum GeneratorCommand {
    FillMap(TileType),
    GenerateRooms { num_of_rooms: i32, max_room_size: i32 },
    PlacePlayerInRoom,
    Tunnel { num_of_tunnels: i32 },
}

pub open spec fn non_negative(n: i32) -> nat {
    if n > 0 {
        n as nat
    } else {
        0
    }
}

pub open spec fn min_nat(a: nat, b: nat) -> nat {
    if a <= b {
        a
    } else {
        b
    }
}

impl GeneratorCommand {
    /// The declared number of steps of the stage.
    pub open spec fn cost(self) -> nat {
        match self {
            GeneratorCommand::FillMap(_) => 1,
            GeneratorCommand::GenerateRooms { num_of_rooms, .. } => non_negative(num_of_rooms),
            GeneratorCommand::PlacePlayerInRoom => 1,
            GeneratorCommand::Tunnel { num_of_tunnels } => non_negative(num_of_tunnels),
        }
    }

    /// The steps of the stage that the builder shows done, while the stage is running.
    pub open spec fn units_done(self, m: BuilderModel) -> nat {
        match self {
            GeneratorCommand::GenerateRooms { .. } => min_nat(m.rooms.len(), self.cost()),
            GeneratorCommand::Tunnel { .. } => min_nat(m.tunnels.len(), self.cost()),
            _ => 0,
        }
    }

    pub open spec fn label(self) -> Seq<char> {
        match self {
            GeneratorCommand::FillMap(_) => "Filling Map"@,
            GeneratorCommand::GenerateRooms { .. } => "Generating Rooms"@,
            GeneratorCommand::PlacePlayerInRoom => "Placing Player"@,
            GeneratorCommand::Tunnel { .. } => "Tunneling Between Rooms"@,
        }
    }

    /// The ranges that one call of the stage draws from, in order.
    pub open spec fn draw_ranges(self, m: BuilderModel) -> Seq<(int, int)> {
        match self {
            GeneratorCommand::FillMap(_) => seq![],
            GeneratorCommand::GenerateRooms { num_of_rooms, max_room_size } => {
                if m.rooms.len() < num_of_rooms && room_size_fits(
                    m.width as int,
                    m.height as int,
                    max_room_size as int,
                ) {
                    seq![
                        (1, m.width - max_room_size),
                        (1, m.height - max_room_size),
                        (2, max_room_size as int),
                        (2, max_room_size as int),
                    ]
                } else {
                    seq![]
                }
            },
            GeneratorCommand::PlacePlayerInRoom => {
                if m.rooms.len() > 0 {
                    seq![(0, m.rooms.len() as int)]
                } else {
                    seq![]
                }
            },
            GeneratorCommand::Tunnel { num_of_tunnels } => {
                if m.rooms.len() >= 2 && m.tunnels.len() < num_of_tunnels && m.tunnels.len() / 2
                    + 1 < m.rooms.len() {
                    seq![(0, 2)]
                } else {
                    seq![]
                }
            },
        }
    }

    /// One call of the stage, given the values drawn: the new builder state and the report.
    pub open spec fn step(self, m: BuilderModel, d: Seq<i32>) -> (BuilderModel, Result<
        BuildCommandResult,
        BuildError,
    >) {
        match self {
            GeneratorCommand::FillMap(t) => (
                BuilderModel { fill_tile: Some(t), ..m },
                Ok(BuildCommandResult::Finished),
            ),
            GeneratorCommand::GenerateRooms { num_of_rooms, max_room_size } => {
                if m.rooms.len() >= num_of_rooms {
                    (
                        BuilderModel { rooms: sort_by_center(m.rooms), ..m },
                        Ok(BuildCommandResult::Finished),
                    )
                } else if !room_size_fits(m.width as int, m.height as int, max_room_size as int) {
                    (m, Err(BuildError::InvalidRoomSize))
                } else {
                    let grown = with_candidate(m.rooms, drawn_room(d));
                    if grown.len() >= num_of_rooms {
                        (
                            BuilderModel { rooms: sort_by_center(grown), ..m },
                            Ok(BuildCommandResult::Finished),
                        )
                    } else {
                        (
                            BuilderModel { rooms: grown, ..m },
                            Ok(
                                BuildCommandResult::Progress {
                                    total: num_of_rooms as usize,
                                    current: grown.len() as usize,
                                },
                            ),
                        )
                    }
                }
            },
            GeneratorCommand::PlacePlayerInRoom => {
                if m.rooms.len() == 0 {
                    (m, Err(BuildError::NoRooms))
                } else {
                    (
                        BuilderModel { player: Some(m.rooms[d[0] as int].spec_center()), ..m },
                        Ok(BuildCommandResult::Finished),
                    )
                }
            },
            GeneratorCommand::Tunnel { num_of_tunnels } => {
                if m.rooms.len() < 2 || m.tunnels.len() >= num_of_tunnels {
                    (m, Ok(BuildCommandResult::Finished))
                } else if m.tunnels.len() / 2 + 1 >= m.rooms.len() {
                    (m, Err(BuildError::MissingRoomPair))
                } else {
                    let t = m.tunnels + m.next_leg(d[0] == 1);
                    (
                        BuilderModel { tunnels: t, ..m },
                        if t.len() >= num_of_tunnels {
                            Ok(BuildCommandResult::Finished)
                        } else {
                            Ok(
                                BuildCommandResult::Progress {
                                    total: num_of_tunnels as usize,
                                    current: t.len() as usize,
                                },
                            )
                        },
                    )
                }
            },
        }
    }

    /// A name for the stage, to show while it runs.
    pub fn generator_text(&self) -> (r: &'static str)
        ensures
            r@ == self.label(),
    {
        match self {
            GeneratorCommand::FillMap(_) => "Filling Map",
            GeneratorCommand::GenerateRooms { .. } => "Generating Rooms",
            GeneratorCommand::PlacePlayerInRoom => "Placing Player",
            GeneratorCommand::Tunnel { .. } => "Tunneling Between Rooms",
        }
    }

    /// The declared number of steps of the stage (a negative count declares none).
    pub fn steps(&self) -> (r: usize)
        ensures
            r == self.cost(),
    {
        match self {
            GeneratorCommand::FillMap(_) => 1,
            GeneratorCommand::GenerateRooms { num_of_rooms, .. } => if *num_of_rooms > 0 {
                *num_of_rooms as usize
            } else {
                0
            },
            GeneratorCommand::PlacePlayerInRoom => 1,
            GeneratorCommand::Tunnel { num_of_tunnels } => if *num_of_tunnels > 0 {
                *num_of_tunnels as usize
            } else {
                0
            },
        }
    }

    /// Runs one call of the stage on the builder, drawing what it needs from `rng`.
    /// The values drawn are exactly those the generator records for this call; nothing
    /// is drawn when the stage asks for no range.
    pub fn perform(&self, builder: &mut MapBuilder, rng: &mut WorldGenRng) -> (r: Result<
        BuildCommandResult,
        BuildError,
    >)
        requires
            old(builder).wf(),
        ensures
            final(builder).wf(),
            exists|d: Seq<i32>|
                drew(*old(rng), *final(rng), d) && draws_fit(self.draw_ranges(old(builder)@), d)
                    && #[trigger] self.step(old(builder)@, d) == (final(builder)@, r),
            self.draw_ranges(old(builder)@).len() == 0 ==> *final(rng) == *old(rng),
    {
        let ghost m = builder@;
        match self {
            GeneratorCommand::FillMap(tile) => {
                let r = builder.fill(tile);
                assert(self.step(m, seq![]) == (builder@, Ok::<BuildCommandResult, BuildError>(r)));
                assert(*rng == *old(rng));
                assert(rng.drawn@ =~= old(rng).drawn@ + Seq::<i32>::empty());
                Ok(r)
            },
            GeneratorCommand::GenerateRooms { num_of_rooms, max_room_size } => {
                let r = builder.build_room(*num_of_rooms, *max_room_size, rng);
                proof {
                    if m.rooms.len() < *num_of_rooms && room_size_fits(
                        m.width as int,
                        m.height as int,
                        *max_room_size as int,
                    ) {
                        let room = choose|room: Rect|
                            {
                                &&& crate::builder::room_fits(
                                    room,
                                    m.width as int,
                                    m.height as int,
                                    *max_room_size as int,
                                )
                                &&& drew(*old(rng), *rng, room_draws(room))
                                &&& #[trigger] with_candidate(m.rooms, room).len() >= *num_of_rooms
                                    ==> builder.rooms@ == sort_by_center(
                                    with_candidate(m.rooms, room),
                                ) && r == Ok::<BuildCommandResult, BuildError>(
                                    BuildCommandResult::Finished,
                                )
                                &&& with_candidate(m.rooms, room).len() < *num_of_rooms
                                    ==> builder.rooms@ == with_candidate(m.rooms, room) && r
                                    == Ok::<BuildCommandResult, BuildError>(
                                    BuildCommandResult::Progress {
                                        total: *num_of_rooms as usize,
                                        current: builder.rooms@.len() as usize,
                                    },
                                )
                            };
                        let d = room_draws(room);
                        assert(drawn_room(d) == room);
                        assert(draws_fit(self.draw_ranges(m), d));
                        assert(self.step(m, d) == (builder@, r));
                    } else {
                        assert(self.step(m, seq![]) == (builder@, r));
                        assert(rng.drawn@ =~= old(rng).drawn@ + Seq::<i32>::empty());
                    }
                }
                r
            },
            GeneratorCommand::PlacePlayerInRoom => {
                let r = builder.place_player(rng);
                proof {
                    if m.rooms.len() > 0 {
                        let i = choose|i: int|
                            0 <= i < m.rooms.len() && drew(*old(rng), *rng, seq![i as i32])
                                && builder.player == Some((#[trigger] m.rooms[i]).spec_center());
                        let d = seq![i as i32];
                        assert(draws_fit(self.draw_ranges(m), d));
                        assert(self.step(m, d) == (builder@, r));
                    } else {
                        assert(self.step(m, seq![]) == (builder@, r));
                        assert(rng.drawn@ =~= old(rng).drawn@ + Seq::<i32>::empty());
                    }
                }
                r
            },
            GeneratorCommand::Tunnel { num_of_tunnels } => {
                let r = builder.build_tunnels(*num_of_tunnels, rng);
                proof {
                    if m.rooms.len() >= 2 && m.tunnels.len() < *num_of_tunnels && m.tunnels.len()
                        / 2 + 1 < m.rooms.len() {
                        let hf = choose|horizontal_first: bool|
                            {
                                &&& drew(
                                    *old(rng),
                                    *rng,
                                    seq![
                                        if horizontal_first {
                                            1i32
                                        } else {
                                            0i32
                                        },
                                    ],
                                )
                                &&& #[trigger] m.next_leg(horizontal_first)
                                    == builder.tunnels@.subrange(
                                    m.tunnels.len() as int,
                                    builder.tunnels@.len() as int,
                                )
                                &&& builder.tunnels@.len() == m.tunnels.len() + 2
                                &&& builder.tunnels@.subrange(0, m.tunnels.len() as int)
                                    == m.tunnels
                                &&& builder.tunnels@.len() >= *num_of_tunnels ==> r == Ok::<
                                    BuildCommandResult,
                                    BuildError,
                                >(BuildCommandResult::Finished)
                                &&& builder.tunnels@.len() < *num_of_tunnels ==> r == Ok::<
                                    BuildCommandResult,
                                    BuildError,
                                >(
                                    BuildCommandResult::Progress {
                                        total: *num_of_tunnels as usize,
                                        current: builder.tunnels@.len() as usize,
                                    },
                                )
                            };
                        let d: Seq<i32> = if hf {
                            seq![1i32]
                        } else {
                            seq![0i32]
                        };
                        assert(builder.tunnels@ =~= m.tunnels + m.next_leg(hf));
                        assert(draws_fit(self.draw_ranges(m), d));
                        assert(self.step(m, d) == (builder@, r));
                    } else {
                        assert(self.step(m, seq![]) == (builder@, r));
                        assert(rng.drawn@ =~= old(rng).drawn@ + Seq::<i32>::empty());
                    }
                }
                r
            },
        }
    }
}

} // verus!
