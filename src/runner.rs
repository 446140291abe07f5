use crate::builder::{room_size_fits, BuildCommandResult, BuildError, BuilderModel, MapBuilder};
use crate::generator::GeneratorCommand;
use crate::random::{draws_fit, drew, WorldGenRng};
use crate::map::TileType;
use vstd::prelude::*;

verus! {

/// The sum of the declared costs of the first `k` stages.
pub open spec fn sum_costs(cmds: Seq<GeneratorCommand>, k: int) -> nat
    decreases k,
{
    if k <= 0 || k > cmds.len() {
        0
    } else {
        sum_costs(cmds, k - 1) + cmds[k - 1].cost()
    }
}

/// Some stage before `k` asks for at least one room.
pub open spec fn rooms_requested(cmds: Seq<GeneratorCommand>, k: int) -> bool {
    exists|j: int|
        0 <= j < k && (#[trigger] cmds[j] matches GeneratorCommand::GenerateRooms {
            num_of_rooms,
            ..
        } && num_of_rooms > 0)
}

/// What is wrong with stage `i` on a `width * height` map, if anything.
pub open spec fn stage_error(cmds: Seq<GeneratorCommand>, i: int, width: int, height: int) -> Option<
    ConfigError,
> {
    match cmds[i] {
        GeneratorCommand::GenerateRooms { max_room_size, .. } => if room_size_fits(
            width,
            height,
            max_room_size as int,
        ) {
            None
        } else {
            Some(ConfigError::RoomSizeTooLarge)
        },
        GeneratorCommand::Tunnel { .. } | GeneratorCommand::PlacePlayerInRoom => if rooms_requested(
            cmds,
            i,
        ) {
            None
        } else {
            Some(ConfigError::NoRoomsRequested)
        },
        GeneratorCommand::FillMap(_) => None,
    }
}

/// The error of the first faulty stage among the first `k`.
pub open spec fn first_stage_error(cmds: Seq<GeneratorCommand>, k: int, width: int, height: int) -> Option<
    ConfigError,
>
    decreases k,
{
    if k <= 0 || k > cmds.len() {
        None
    } else {
        match first_stage_error(cmds, k - 1, width, height) {
            Some(e) => Some(e),
            None => stage_error(cmds, k - 1, width, height),
        }
    }
}

/// Why the stages are refused on a `width * height` map, or `None` when they are accepted:
/// the first faulty stage decides; else the total step count must fit in an `i32`.
pub open spec fn config_error(cmds: Seq<GeneratorCommand>, width: int, height: int) -> Option<
    ConfigError,
> {
    match first_stage_error(cmds, cmds.len() as int, width, height) {
        Some(e) => Some(e),
        None => if sum_costs(cmds, cmds.len() as int) > i32::MAX {
            Some(ConfigError::TooManySteps)
        } else {
            None
        },
    }
}

/// Progress of a runner at stage `idx` over a builder in state `m`.
pub open spec fn progress_at(cmds: Seq<GeneratorCommand>, idx: int, m: BuilderModel) -> nat {
    if idx >= cmds.len() {
        sum_costs(cmds, cmds.len() as int)
    } else {
        sum_costs(cmds, idx) + cmds[idx].units_done(m)
    }
}

/// The ranges that the next call draws from.
pub open spec fn ranges_at(cmds: Seq<GeneratorCommand>, idx: int, m: BuilderModel) -> Seq<
    (int, int),
> {
    if idx >= cmds.len() {
        seq![]
    } else {
        cmds[idx].draw_ranges(m)
    }
}

/// One call of the runner, given the values drawn: the new stage index, the new builder
/// state and the report. A finished stage moves the runner to the next one.
pub open spec fn runner_step(cmds: Seq<GeneratorCommand>, idx: int, m: BuilderModel, d: Seq<i32>) -> (
    int,
    BuilderModel,
    Result<BuildCommandResult, BuildError>,
) {
    if idx >= cmds.len() {
        (idx, m, Ok(BuildCommandResult::Finished))
    } else {
        let (m2, r) = cmds[idx].step(m, d);
        (
            if r == Ok::<BuildCommandResult, BuildError>(BuildCommandResult::Finished) {
                idx + 1
            } else {
                idx
            },
            m2,
            r,
        )
    }
}

/// Whether the runner at `idx` still has declared work ahead: its stage has steps left,
/// or a later stage declares some.
pub open spec fn work_left(cmds: Seq<GeneratorCommand>, idx: int, m: BuilderModel) -> bool {
    cmds[idx].units_done(m) < cmds[idx].cost() || exists|j: int|
        idx < j < cmds.len() && (#[trigger] cmds[j]).cost() > 0
}

/// Runs the stages over a tape of draws, one call per entry: the final stage index, the
/// final builder state, and the ranges that each call asked for.
pub open spec fn run(cmds: Seq<GeneratorCommand>, idx: int, m: BuilderModel, tape: Seq<Seq<i32>>) -> (
    int,
    BuilderModel,
    Seq<Seq<(int, int)>>,
)
    decreases tape.len(),
{
    if tape.len() == 0 {
        (idx, m, seq![])
    } else {
        let asked = ranges_at(cmds, idx, m);
        let (idx2, m2, _) = runner_step(cmds, idx, m, tape[0]);
        let (idx3, m3, rest) = run(cmds, idx2, m2, tape.drop_first());
        (idx3, m3, seq![asked] + rest)
    }
}

/// Whether every call of a run over `tape` draws values in the ranges it asks for, as
/// `next` guarantees of each call.
pub open spec fn tape_fits(cmds: Seq<GeneratorCommand>, idx: int, m: BuilderModel, tape: Seq<Seq<i32>>) -> bool
    decreases tape.len(),
{
    if tape.len() == 0 {
        true
    } else {
        let (idx2, m2, _) = runner_step(cmds, idx, m, tape[0]);
        draws_fit(ranges_at(cmds, idx, m), tape[0]) && tape_fits(cmds, idx2, m2, tape.drop_first())
    }
}

/// The standard stages: a wall background, ten rooms of size under ten, the eighteen
/// corridors that chain them, and the player.
pub open spec fn standard_commands() -> Seq<GeneratorCommand> {
    seq![
        GeneratorCommand::FillMap(TileType::Wall),
        GeneratorCommand::GenerateRooms { num_of_rooms: 10, max_room_size: 10 },
        GeneratorCommand::Tunnel { num_of_tunnels: 18 },
        GeneratorCommand::PlacePlayerInRoom,
    ]
}

/// Why a list of stages is refused before generation starts.
#[derive(Debug, Clone, Copy, PartialEq, Eq, Structural)]
pub enum ConfigError {
    /// A room stage's size leaves an empty range to draw from on this map.
    RoomSizeTooLarge,
    /// A corridor or player stage comes before any stage that asks for rooms.
    NoRoomsRequested,
    /// The declared step costs add up to more than an `i32` holds.
    TooManySteps,
}

/// Runs a fixed list of stages, one unit of work per call.
pub struct GeneraotrRunner {
    pub commands: Vec<GeneratorCommand>,
    pub run_index: usize,
}

pub proof fn lemma_sum_costs_monotone(cmds: Seq<GeneratorCommand>, j: int, k: int)
    requires
        0 <= j <= k <= cmds.len(),
    ensures
        sum_costs(cmds, j) <= sum_costs(cmds, k),
    decreases k - j,
{
    if j < k {
        lemma_sum_costs_monotone(cmds, j, k - 1);
    }
}

/// Once a faulty stage is found among the first `j`, it stays the first one.
proof fn lemma_first_error_stays(
    cmds: Seq<GeneratorCommand>,
    j: int,
    k: int,
    width: int,
    height: int,
)
    requires
        0 <= j <= k <= cmds.len(),
        first_stage_error(cmds, j, width, height) is Some,
    ensures
        first_stage_error(cmds, k, width, height) == first_stage_error(cmds, j, width, height),
    decreases k - j,
{
    if j < k {
        lemma_first_error_stays(cmds, j, k - 1, width, height);
    }
}

impl GeneraotrRunner {
    pub open spec fn wf(self) -> bool {
        &&& self.run_index <= self.commands@.len()
        &&& sum_costs(self.commands@, self.commands@.len() as int) <= i32::MAX
    }

    pub open spec fn total(self) -> nat {
        sum_costs(self.commands@, self.commands@.len() as int)
    }

    pub open spec fn progress(self, m: BuilderModel) -> nat {
        progress_at(self.commands@, self.run_index as int, m)
    }

    pub open spec fn finished(self) -> bool {
        self.run_index >= self.commands@.len()
    }

    /// A runner at the first stage, once the stages have been checked against a
    /// `width * height` map.
    pub fn new(commands: Vec<GeneratorCommand>, width: i32, height: i32) -> (r: Result<
        GeneraotrRunner,
        ConfigError,
    >)
        ensures
            config_error(commands@, width as int, height as int) matches Some(e) ==> r == Err::<
                GeneraotrRunner,
                ConfigError,
            >(e),
            config_error(commands@, width as int, height as int) is None ==> (r matches Ok(g) && g.wf()
                && g.commands@ == commands@ && g.run_index == 0),
    {
        let n = commands.len();
        let mut requested = false;
        let mut i: usize = 0;
        while i < n
            invariant
                n == commands@.len(),
                i <= n,
                first_stage_error(commands@, i as int, width as int, height as int) is None,
                requested == rooms_requested(commands@, i as int),
            decreases n - i,
        {
            let ghost cmds = commands@;
            match commands[i] {
                GeneratorCommand::GenerateRooms { num_of_rooms, max_room_size } => {
                    if !(2 < max_room_size && (max_room_size as i64) + 1 < width as i64 && (
                    max_room_size as i64) + 1 < height as i64) {
                        proof {
                            assert(first_stage_error(commands@, i as int + 1, width as int, height as int)
                                == Some(ConfigError::RoomSizeTooLarge));
                            lemma_first_error_stays(
                                commands@,
                                i as int + 1,
                                n as int,
                                width as int,
                                height as int,
                            );
                        }
                        return Err(ConfigError::RoomSizeTooLarge);
                    }
                    if num_of_rooms > 0 {
                        requested = true;
                    }
                },
                GeneratorCommand::Tunnel { .. } | GeneratorCommand::PlacePlayerInRoom => {
                    if !requested {
                        proof {
                            assert(first_stage_error(commands@, i as int + 1, width as int, height as int)
                                == Some(ConfigError::NoRoomsRequested));
                            lemma_first_error_stays(
                                commands@,
                                i as int + 1,
                                n as int,
                                width as int,
                                height as int,
                            );
                        }
                        return Err(ConfigError::NoRoomsRequested);
                    }
                },
                GeneratorCommand::FillMap(_) => {},
            }
            proof {
                if rooms_requested(cmds, i as int + 1) && !rooms_requested(cmds, i as int) {
                    let j = choose|j: int|
                        0 <= j < i + 1 && (#[trigger] cmds[j] matches GeneratorCommand::GenerateRooms {
                            num_of_rooms,
                            ..
                        } && num_of_rooms > 0);
                    assert(j == i);
                }
                if rooms_requested(cmds, i as int) {
                    let j = choose|j: int|
                        0 <= j < i && (#[trigger] cmds[j] matches GeneratorCommand::GenerateRooms {
                            num_of_rooms,
                            ..
                        } && num_of_rooms > 0);
                    assert(0 <= j < i + 1);
                }
            }
            i = i + 1;
        }
        let mut total: u64 = 0;
        let mut k: usize = 0;
        while k < n
            invariant
                n == commands@.len(),
                k <= n,
                total == sum_costs(commands@, k as int),
                total <= i32::MAX,
                first_stage_error(commands@, n as int, width as int, height as int) is None,
            decreases n - k,
        {
            total = total + commands[k].steps() as u64;
            if total > i32::MAX as u64 {
                proof {
                    lemma_sum_costs_monotone(commands@, k as int + 1, n as int);
                }
                return Err(ConfigError::TooManySteps);
            }
            k = k + 1;
        }
        Ok(GeneraotrRunner { commands, run_index: 0 })
    }

    /// The declared steps of stage `index` while it is finished or not started; the
    /// steps that the builder shows done while it runs.
    fn get_subsystem_current_progress(&self, index: usize, builder: &MapBuilder) -> (r: usize)
        requires
            self.wf(),
            index < self.commands@.len(),
        ensures
            index != self.run_index ==> r == self.commands@[index as int].cost(),
            index == self.run_index ==> r == self.commands@[index as int].units_done(builder@),
    {
        let cmd = self.commands[index];
        let cost = cmd.steps();
        if index != self.run_index {
            return cost;
        }
        match cmd {
            GeneratorCommand::GenerateRooms { .. } => if builder.rooms.len() < cost {
                builder.rooms.len()
            } else {
                cost
            },
            GeneratorCommand::Tunnel { .. } => if builder.tunnels.len() < cost {
                builder.tunnels.len()
            } else {
                cost
            },
            _ => 0,
        }
    }

    /// The steps done so far: the declared steps of every finished stage, plus the steps
    /// that the builder shows done of the running one.
    pub fn current_step(&self, builder: &MapBuilder) -> (r: i32)
        requires
            self.wf(),
        ensures
            r == self.progress(builder@),
    {
        if self.run_index >= self.commands.len() {
            return self.total_steps();
        }
        let mut sum: usize = 0;
        let mut i: usize = 0;
        while i < self.run_index
            invariant
                self.wf(),
                self.run_index < self.commands@.len(),
                i <= self.run_index,
                sum == sum_costs(self.commands@, i as int),
            decreases self.run_index - i,
        {
            proof {
                lemma_sum_costs_monotone(self.commands@, i as int + 1, self.commands@.len() as int);
            }
            sum = sum + self.get_subsystem_current_progress(i, builder);
            i = i + 1;
        }
        proof {
            lemma_sum_costs_monotone(
                self.commands@,
                self.run_index as int + 1,
                self.commands@.len() as int,
            );
        }
        let current = self.get_subsystem_current_progress(self.run_index, builder);
        (sum + current) as i32
    }

    /// The sum of the declared steps of all stages.
    pub fn total_steps(&self) -> (r: i32)
        requires
            self.wf(),
        ensures
            r == self.total(),
    {
        let mut sum: usize = 0;
        let mut i: usize = 0;
        while i < self.commands.len()
            invariant
                self.wf(),
                i <= self.commands@.len(),
                sum == sum_costs(self.commands@, i as int),
            decreases self.commands@.len() - i,
        {
            proof {
                lemma_sum_costs_monotone(self.commands@, i as int + 1, self.commands@.len() as int);
            }
            sum = sum + self.commands[i].steps();
            i = i + 1;
        }
        sum as i32
    }

    /// Runs one call of the current stage; a finished stage moves the runner on. Once
    /// every stage is done this does nothing and reports `Finished`.
    pub fn next(&mut self, builder: &mut MapBuilder, rng: &mut WorldGenRng) -> (r: Result<
        BuildCommandResult,
        BuildError,
    >)
        requires
            old(self).wf(),
            old(builder).wf(),
        ensures
            final(self).wf(),
            final(builder).wf(),
            final(self).commands@ == old(self).commands@,
            exists|d: Seq<i32>|
                drew(*old(rng), *final(rng), d) && draws_fit(
                    ranges_at(old(self).commands@, old(self).run_index as int, old(builder)@),
                    d,
                ) && #[trigger] runner_step(
                    old(self).commands@,
                    old(self).run_index as int,
                    old(builder)@,
                    d,
                ) == (final(self).run_index as int, final(builder)@, r),
            ranges_at(old(self).commands@, old(self).run_index as int, old(builder)@).len() == 0
                ==> *final(rng) == *old(rng),
    {
        if self.is_finished() {
            assert(rng.drawn@ =~= old(rng).drawn@ + Seq::<i32>::empty());
            assert(runner_step(self.commands@, self.run_index as int, builder@, seq![]) == (
                self.run_index as int,
                builder@,
                Ok::<BuildCommandResult, BuildError>(BuildCommandResult::Finished),
            ));
            return Ok(BuildCommandResult::Finished);
        }
        let ghost m = builder@;
        let idx = self.run_index;
        let n = self.commands.len();
        assert(idx < n);
        let cmd = self.commands[idx];
        let r = cmd.perform(builder, rng);
        if let Ok(BuildCommandResult::Finished) = r {
            self.run_index = idx + 1;
        }
        proof {
            let d = choose|d: Seq<i32>|
                drew(*old(rng), *rng, d) && draws_fit(cmd.draw_ranges(m), d) && #[trigger] cmd.step(
                    m,
                    d,
                ) == (builder@, r);
            assert(runner_step(self.commands@, idx as int, m, d) == (
                self.run_index as int,
                builder@,
                r,
            ));
        }
        r
    }

    pub fn is_finished(&self) -> (r: bool)
        ensures
            r == self.finished(),
    {
        self.run_index >= self.commands.len()
    }

    /// The running stage, or `None` once all are done.
    pub fn get_current_command(&self) -> (r: Option<GeneratorCommand>)
        ensures
            self.finished() ==> r.is_none(),
            !self.finished() ==> r == Some(self.commands@[self.run_index as int]),
    {
        if self.is_finished() {
            return None;
        }
        Some(self.commands[self.run_index])
    }

    /// The name of the running stage, or `None` once all are done.
    pub fn get_render_text(&self) -> (r: Option<&'static str>)
        ensures
            self.finished() ==> r.is_none(),
            !self.finished() ==> (r matches Some(s) && s@ == self.commands@[
                self.run_index as int
            ].label()),
    {
        match self.get_current_command() {
            Some(cmd) => Some(cmd.generator_text()),
            None => None,
        }
    }
}

impl Default for GeneraotrRunner {
    /// The standard stages, not started.
    fn default() -> (r: GeneraotrRunner)
        ensures
            r.wf(),
            r.commands@ == standard_commands(),
            r.run_index == 0,
    {
        let num_of_rooms: i32 = 10;
        let commands = vec![
            GeneratorCommand::FillMap(TileType::Wall),
            GeneratorCommand::GenerateRooms { num_of_rooms, max_room_size: 10 },
            GeneratorCommand::Tunnel { num_of_tunnels: (num_of_rooms * 2) - 2 },
            GeneratorCommand::PlacePlayerInRoom,
        ];
        assert(commands@ =~= standard_commands());
        assert(sum_costs(commands@, 4) == 30) by {
            reveal_with_fuel(sum_costs, 5);
        }
        GeneraotrRunner { commands, run_index: 0 }
    }
}

} // verus!
