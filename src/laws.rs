use crate::builder::{chain_tunnels, with_candidate, BuildCommandResult, BuildError, BuilderModel, MapBuilder};
use crate::generator::GeneratorCommand;
use crate::random::{draws_fit, drawn_room};
use crate::geometry::{Point, Rect};
use crate::map::TileMap;
use crate::rooms::{clear_of, is_center_of_some, lemma_sort_by_center, pairwise_disjoint, sort_by_center};
use crate::runner::{
    lemma_sum_costs_monotone, progress_at, ranges_at, run, runner_step, standard_commands,
    sum_costs, tape_fits, work_left, GeneraotrRunner,
};
use vstd::prelude::*;

verus! {

proof fn lemma_candidate_keeps_wf(m: BuilderModel, room: Rect)
    requires
        m.wf(),
        m.rooms.len() < i32::MAX,
    ensures
        pairwise_disjoint(with_candidate(m.rooms, room)),
        m.player matches Some(p) ==> is_center_of_some(with_candidate(m.rooms, room), p),
        with_candidate(m.rooms, room).len() >= m.rooms.len(),
        with_candidate(m.rooms, room).len() <= m.rooms.len() + 1,
{
    let s = with_candidate(m.rooms, room);
    if clear_of(m.rooms, room) {
        assert forall|a: int, b: int|
            0 <= a < s.len() && 0 <= b < s.len() && a != b implies !(#[trigger] s[a]).spec_intersect(
            #[trigger] s[b],
        ) by {
            if a < m.rooms.len() && b < m.rooms.len() {
                assert(s[a] == m.rooms[a] && s[b] == m.rooms[b]);
            } else if a < m.rooms.len() {
                assert(s[a] == m.rooms[a]);
            } else {
                assert(s[b] == m.rooms[b]);
            }
        }
        if let Some(p) = m.player {
            let k = choose|k: int| 0 <= k < m.rooms.len() && (#[trigger] m.rooms[k]).spec_center() == p;
            assert(s[k] == m.rooms[k]);
        }
    }
}

proof fn lemma_sorted_keeps_wf(s: Seq<Rect>, player: Option<Point>)
    requires
        pairwise_disjoint(s),
        player matches Some(p) ==> is_center_of_some(s, p),
    ensures
        pairwise_disjoint(sort_by_center(s)),
        player matches Some(p) ==> is_center_of_some(sort_by_center(s), p),
        sort_by_center(s).len() == s.len(),
{
    lemma_sort_by_center(s);
    if let Some(p) = player {
        let k = choose|k: int| 0 <= k < s.len() && (#[trigger] s[k]).spec_center() == p;
        let j = choose|j: int| 0 <= j < sort_by_center(s).len() && sort_by_center(s)[j] == s[k];
        assert(sort_by_center(s)[j].spec_center() == p);
    }
}

/// Every stage keeps the builder well formed, whatever it draws: in particular no two
/// rooms ever intersect, and a placed player stands at the center of a room.
pub proof fn lemma_step_keeps_wf(cmd: GeneratorCommand, m: BuilderModel, d: Seq<i32>)
    requires
        m.wf(),
        draws_fit(cmd.draw_ranges(m), d),
    ensures
        cmd.step(m, d).0.wf(),
        pairwise_disjoint(cmd.step(m, d).0.rooms),
        cmd.step(m, d).0.rooms.len() >= m.rooms.len(),
        cmd.step(m, d).0.tunnels.len() >= m.tunnels.len(),
{
    match cmd {
        GeneratorCommand::FillMap(_) => {},
        GeneratorCommand::GenerateRooms { num_of_rooms, .. } => {
            if m.rooms.len() >= num_of_rooms {
                lemma_sorted_keeps_wf(m.rooms, m.player);
            } else if cmd.draw_ranges(m).len() > 0 {
                lemma_candidate_keeps_wf(m, drawn_room(d));
                let grown = with_candidate(m.rooms, drawn_room(d));
                if grown.len() >= num_of_rooms {
                    lemma_sorted_keeps_wf(grown, m.player);
                }
            }
        },
        GeneratorCommand::PlacePlayerInRoom => {
            if m.rooms.len() > 0 {
                let i = d[0] as int;
                assert(0 <= i < m.rooms.len());
                assert(is_center_of_some(m.rooms, m.rooms[i].spec_center()));
            }
        },
        GeneratorCommand::Tunnel { .. } => {},
    }
}

/// Once the corridor stage reports `Finished` for a chain of rooms, there are exactly two
/// corridors per neighbouring pair, and none with fewer than two rooms.
pub proof fn lemma_tunnel_count(m: BuilderModel, num_of_tunnels: i32, d: Seq<i32>)
    requires
        m.wf(),
        num_of_tunnels == chain_tunnels(m.rooms.len() as int),
        (GeneratorCommand::Tunnel { num_of_tunnels }).step(m, d).1 == Ok::<
            BuildCommandResult,
            BuildError,
        >(BuildCommandResult::Finished),
    ensures
        ({
            let after = (GeneratorCommand::Tunnel { num_of_tunnels }).step(m, d).0;
            after.tunnels.len() == chain_tunnels(after.rooms.len() as int)
        }),
{
    let k = m.tunnels.len() / 2;
    assert(k * 2 == m.tunnels.len());
}

/// Placing the player puts it at the center of the room that was drawn.
pub proof fn lemma_player_placed(m: BuilderModel, d: Seq<i32>)
    requires
        m.wf(),
        m.rooms.len() > 0,
        draws_fit(GeneratorCommand::PlacePlayerInRoom.draw_ranges(m), d),
    ensures
        ({
            let after = GeneratorCommand::PlacePlayerInRoom.step(m, d).0;
            &&& after.player == Some(m.rooms[d[0] as int].spec_center())
            &&& after.rooms == m.rooms
            &&& is_center_of_some(after.rooms, after.player.unwrap())
        }),
{
    let i = d[0] as int;
    assert(0 <= i < m.rooms.len());
    assert(m.rooms[i].spec_center() == m.rooms[i].spec_center());
}

/// The progress count never passes the total, and equals it once every stage is done.
pub proof fn lemma_progress_bounded(r: GeneraotrRunner, m: BuilderModel)
    requires
        r.wf(),
    ensures
        r.progress(m) <= r.total(),
        r.finished() ==> r.progress(m) == r.total(),
{
    let cmds = r.commands@;
    if !r.finished() {
        lemma_sum_costs_monotone(cmds, r.run_index as int + 1, cmds.len() as int);
    }
}

/// One call of the runner never lowers the progress count, whatever it draws.
pub proof fn lemma_progress_monotone(r: GeneraotrRunner, m: BuilderModel, d: Seq<i32>)
    requires
        r.wf(),
        m.wf(),
        draws_fit(ranges_at(r.commands@, r.run_index as int, m), d),
    ensures
        ({
            let (idx2, m2, _) = runner_step(r.commands@, r.run_index as int, m, d);
            progress_at(r.commands@, idx2, m2) >= r.progress(m)
        }),
{
    let cmds = r.commands@;
    let idx = r.run_index as int;
    if idx < cmds.len() {
        lemma_step_keeps_wf(cmds[idx], m, d);
        let (idx2, m2, res) = runner_step(cmds, idx, m, d);
        if idx2 == idx + 1 {
            lemma_sum_costs_monotone(cmds, idx + 1, cmds.len() as int);
        }
    }
}

/// While declared work is left, the runner is finished exactly when its progress count
/// reaches the total.
pub proof fn lemma_finished_iff_complete(r: GeneraotrRunner, m: BuilderModel)
    requires
        r.wf(),
        !r.finished() ==> work_left(r.commands@, r.run_index as int, m),
    ensures
        r.finished() <==> r.progress(m) == r.total(),
{
    let cmds = r.commands@;
    let idx = r.run_index as int;
    if !r.finished() {
        lemma_sum_costs_monotone(cmds, idx + 1, cmds.len() as int);
        if cmds[idx].units_done(m) >= cmds[idx].cost() {
            let j = choose|j: int| idx < j < cmds.len() && (#[trigger] cmds[j]).cost() > 0;
            lemma_sum_costs_monotone(cmds, idx + 1, j);
            lemma_sum_costs_monotone(cmds, j + 1, cmds.len() as int);
        }
    }
}

/// Two runners with the same stages at the same place, over builders in the same state,
/// fed the same draws, ask for the same ranges and build the same rooms, corridors and
/// player. Each entry of the tape is what one call of `next` adds to the generator's
/// record of values handed out.
pub proof fn lemma_same_draws_same_dungeon(
    r1: GeneraotrRunner,
    b1: MapBuilder,
    r2: GeneraotrRunner,
    b2: MapBuilder,
    tape: Seq<Seq<i32>>,
)
    requires
        r1.commands@ == r2.commands@,
        r1.run_index == r2.run_index,
        b1@ == b2@,
    ensures
        run(r1.commands@, r1.run_index as int, b1@, tape) == run(
            r2.commands@,
            r2.run_index as int,
            b2@,
            tape,
        ),
{
}

/// Two maps that `build_map` may return for the same builder are the same map.
pub proof fn lemma_finalize_idempotent(b: MapBuilder, m1: TileMap, m2: TileMap)
    requires
        b.is_map_of(m1),
        b.is_map_of(m2),
    ensures
        m1.width == m2.width,
        m1.height == m2.height,
        m1.tiles@ == m2.tiles@,
{
    assert forall|i: int| 0 <= i < m1.tiles@.len() implies m1.tiles@[i] == m2.tiles@[i] by {
        let c = m1.lemma_cell_of_index(i);
        assert(m1.tile_at(c.0, c.1) == m2.tile_at(c.0, c.1));
    }
    assert(m1.tiles@ =~= m2.tiles@);
}

/// Where a run of the standard stages stands at each stage index.
pub open spec fn standard_progress(idx: int, m: BuilderModel) -> bool {
    &&& m.wf()
    &&& 0 <= idx <= 4
    &&& idx == 0 ==> m.rooms.len() == 0 && m.tunnels.len() == 0
    &&& idx == 1 ==> m.rooms.len() < 10 && m.tunnels.len() == 0
    &&& idx == 2 ==> m.rooms.len() == 10 && m.tunnels.len() < 18
    &&& idx == 3 ==> m.rooms.len() == 10 && m.tunnels.len() == 18
    &&& idx == 4 ==> m.rooms.len() == 10 && m.tunnels.len() == 18 && m.player is Some
}

proof fn lemma_standard_step(idx: int, m: BuilderModel, d: Seq<i32>)
    requires
        standard_progress(idx, m),
        draws_fit(ranges_at(standard_commands(), idx, m), d),
    ensures
        ({
            let (idx2, m2, _) = runner_step(standard_commands(), idx, m, d);
            standard_progress(idx2, m2)
        }),
{
    let cmds = standard_commands();
    if idx < 4 {
        let cmd = cmds[idx];
        lemma_step_keeps_wf(cmd, m, d);
        if idx == 1 && cmd.draw_ranges(m).len() > 0 {
            lemma_candidate_keeps_wf(m, drawn_room(d));
            let grown = with_candidate(m.rooms, drawn_room(d));
            lemma_sorted_keeps_wf(grown, m.player);
        }
        if idx == 2 {
            let k = m.tunnels.len() / 2;
            assert(k * 2 == m.tunnels.len());
        }
    }
}

proof fn lemma_standard_run(idx: int, m: BuilderModel, tape: Seq<Seq<i32>>)
    requires
        standard_progress(idx, m),
        tape_fits(standard_commands(), idx, m, tape),
    ensures
        ({
            let (idx2, m2, _) = run(standard_commands(), idx, m, tape);
            standard_progress(idx2, m2)
        }),
    decreases tape.len(),
{
    if tape.len() > 0 {
        lemma_standard_step(idx, m, tape[0]);
        let (idx2, m2, _) = runner_step(standard_commands(), idx, m, tape[0]);
        lemma_standard_run(idx2, m2, tape.drop_first());
    }
}

/// A run of the standard stages from an empty builder, whose calls draw in the ranges
/// they ask for, ends, once every stage is done, with ten rooms that pairwise do not
/// intersect, eighteen corridors and the player at the center of a room; the stages
/// declare thirty steps in all.
pub proof fn lemma_standard_dungeon(m: BuilderModel, tape: Seq<Seq<i32>>)
    requires
        m.wf(),
        m.rooms.len() == 0,
        m.tunnels.len() == 0,
        tape_fits(standard_commands(), 0, m, tape),
        run(standard_commands(), 0, m, tape).0 == 4,
    ensures
        ({
            let end = run(standard_commands(), 0, m, tape).1;
            &&& end.rooms.len() == 10
            &&& pairwise_disjoint(end.rooms)
            &&& end.tunnels.len() == 18
            &&& end.player matches Some(p) && is_center_of_some(end.rooms, p)
        }),
        sum_costs(standard_commands(), 4) == 30,
{
    lemma_standard_run(0, m, tape);
    reveal_with_fuel(sum_costs, 5);
}

} // verus!
