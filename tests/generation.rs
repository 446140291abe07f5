use ferros::random::WorldGenRng;
use ferros::builder::{BuildCommandResult, BuildError, MapBuilder};
use ferros::generator::GeneratorCommand;
use ferros::geometry::{Point, Rect, Tunnel};
use ferros::map::TileType;
use ferros::runner::{ConfigError, GeneraotrRunner};
use ferros::state::{finish_world_gen, MapBuilderState};

fn standard_stages() -> Vec<GeneratorCommand> {
    vec![
        GeneratorCommand::FillMap(TileType::Wall),
        GeneratorCommand::GenerateRooms { num_of_rooms: 10, max_room_size: 10 },
        GeneratorCommand::Tunnel { num_of_tunnels: 18 },
        GeneratorCommand::PlacePlayerInRoom,
    ]
}

fn run_to_end(runner: &mut GeneraotrRunner, builder: &mut MapBuilder, rng: &mut WorldGenRng) {
    let mut calls = 0;
    while !runner.is_finished() {
        runner.next(builder, rng).expect("stage failed");
        calls += 1;
        assert!(calls < 1_000_000, "generation did not end");
    }
}

fn no_two_rooms_intersect(rooms: &[Rect]) -> bool {
    for i in 0..rooms.len() {
        for j in 0..rooms.len() {
            if i != j && rooms[i].intersect(&rooms[j]) {
                return false;
            }
        }
    }
    true
}

#[test]
fn standard_scenario_on_80_by_50() {
    let mut runner = GeneraotrRunner::new(standard_stages(), 80, 50).unwrap();
    let mut builder = MapBuilder::new(80, 50, 10);
    let mut rng = WorldGenRng::seeded(7);
    assert_eq!(runner.total_steps(), 30);
    run_to_end(&mut runner, &mut builder, &mut rng);
    assert_eq!(builder.rooms.len(), 10);
    assert!(no_two_rooms_intersect(&builder.rooms));
    assert_eq!(builder.tunnels.len(), 18);
    let player = builder.player.expect("player placed");
    assert!(builder.rooms.iter().any(|r| r.center() == player));
    assert_eq!(runner.total_steps(), 1 + 10 + 18 + 1);
    assert_eq!(runner.current_step(&builder), 30);
    assert_eq!(builder.fill_tile, Some(TileType::Wall));
}

#[test]
fn single_room_gives_no_tunnels() {
    let stages = vec![
        GeneratorCommand::FillMap(TileType::Wall),
        GeneratorCommand::GenerateRooms { num_of_rooms: 1, max_room_size: 10 },
        GeneratorCommand::Tunnel { num_of_tunnels: 0 },
        GeneratorCommand::PlacePlayerInRoom,
    ];
    let mut runner = GeneraotrRunner::new(stages, 80, 50).unwrap();
    let mut builder = MapBuilder::new(80, 50, 1);
    let mut rng = WorldGenRng::seeded(3);
    while runner.run_index < 2 {
        runner.next(&mut builder, &mut rng).unwrap();
    }
    assert_eq!(builder.rooms.len(), 1);
    let r = runner.next(&mut builder, &mut rng).unwrap();
    assert_eq!(r, BuildCommandResult::Finished);
    assert_eq!(runner.run_index, 3);
    assert!(builder.tunnels.is_empty());
    run_to_end(&mut runner, &mut builder, &mut rng);
    assert_eq!(builder.player, Some(builder.rooms[0].center()));
}

#[test]
fn tunnel_stage_with_one_room_ends_at_once() {
    let mut builder = MapBuilder::new(80, 50, 1);
    builder.try_room(1, Rect::with_size(3, 3, 4, 4));
    let mut rng = WorldGenRng::seeded(1);
    let r = builder.build_tunnels(18, &mut rng);
    assert_eq!(r, Ok(BuildCommandResult::Finished));
    assert!(builder.tunnels.is_empty());
}

#[test]
fn rooms_never_overlap_over_many_seeds() {
    for seed in 0..40u64 {
        let mut runner = GeneraotrRunner::new(standard_stages(), 80, 50).unwrap();
        let mut builder = MapBuilder::new(80, 50, 10);
        let mut rng = WorldGenRng::seeded(seed);
        while !runner.is_finished() {
            runner.next(&mut builder, &mut rng).unwrap();
            assert!(no_two_rooms_intersect(&builder.rooms));
        }
    }
}

#[test]
fn tunnel_count_is_two_per_neighbouring_pair() {
    for seed in 0..20u64 {
        let mut runner = GeneraotrRunner::new(standard_stages(), 80, 50).unwrap();
        let mut builder = MapBuilder::new(80, 50, 10);
        let mut rng = WorldGenRng::seeded(seed);
        while runner.run_index < 3 {
            runner.next(&mut builder, &mut rng).unwrap();
        }
        assert_eq!(builder.tunnels.len(), 2 * (builder.rooms.len() - 1));
    }
}

#[test]
fn player_stands_at_a_room_center() {
    for seed in 0..20u64 {
        let mut runner = GeneraotrRunner::new(standard_stages(), 80, 50).unwrap();
        let mut builder = MapBuilder::new(80, 50, 10);
        let mut rng = WorldGenRng::seeded(seed);
        run_to_end(&mut runner, &mut builder, &mut rng);
        let p = builder.player.unwrap();
        assert!(builder.rooms.iter().any(|r| r.center() == p));
    }
}

#[test]
fn progress_never_falls_and_reaches_total_at_the_end() {
    let mut runner = GeneraotrRunner::new(standard_stages(), 80, 50).unwrap();
    let mut builder = MapBuilder::new(80, 50, 10);
    let mut rng = WorldGenRng::seeded(11);
    let total = runner.total_steps();
    let mut last = runner.current_step(&builder);
    assert_eq!(last, 0);
    while !runner.is_finished() {
        assert!(runner.current_step(&builder) < total);
        runner.next(&mut builder, &mut rng).unwrap();
        let now = runner.current_step(&builder);
        assert!(now >= last);
        assert!(now <= total);
        last = now;
    }
    assert_eq!(runner.current_step(&builder), total);
    assert_eq!(runner.total_steps(), total);
}

#[test]
fn same_seed_same_dungeon() {
    let mut a = GeneraotrRunner::new(standard_stages(), 80, 50).unwrap();
    let mut b = GeneraotrRunner::new(standard_stages(), 80, 50).unwrap();
    let mut ba = MapBuilder::new(80, 50, 10);
    let mut bb = MapBuilder::new(80, 50, 10);
    let mut ra = WorldGenRng::seeded(99);
    let mut rb = WorldGenRng::seeded(99);
    run_to_end(&mut a, &mut ba, &mut ra);
    run_to_end(&mut b, &mut bb, &mut rb);
    assert_eq!(ba.rooms, bb.rooms);
    assert_eq!(ba.tunnels, bb.tunnels);
    assert_eq!(ba.player, bb.player);
}

#[test]
fn finalize_twice_gives_the_same_map() {
    let mut runner = GeneraotrRunner::new(standard_stages(), 80, 50).unwrap();
    let mut builder = MapBuilder::new(80, 50, 10);
    let mut rng = WorldGenRng::seeded(5);
    run_to_end(&mut runner, &mut builder, &mut rng);
    let first = builder.build_map();
    let second = builder.build_map();
    assert_eq!(first.map.tiles, second.map.tiles);
    assert_eq!(first.map.width, second.map.width);
    assert_eq!(first.player, second.player);
}

#[test]
fn finished_map_carves_rooms_and_tunnels() {
    let mut runner = GeneraotrRunner::new(standard_stages(), 80, 50).unwrap();
    let mut builder = MapBuilder::new(80, 50, 10);
    let mut rng = WorldGenRng::seeded(8);
    run_to_end(&mut runner, &mut builder, &mut rng);
    let result = builder.build_map();
    let map = result.map;
    assert_eq!(map.tiles.len(), 80 * 50);
    for y in 0..50 {
        for x in 0..80 {
            let in_room = builder.rooms.iter().any(|r| r.x1 <= x && x < r.x2 && r.y1 <= y && y < r.y2);
            let on_tunnel = builder
                .tunnels
                .iter()
                .any(|t| t.points().iter().any(|p| p.x == x && p.y == y));
            let expected = if in_room || on_tunnel { TileType::Floor } else { TileType::Wall };
            assert_eq!(map.get_tile(Point::new(x, y)), Some(expected));
        }
    }
    assert_eq!(result.player, builder.player);
}

#[test]
fn rooms_are_sorted_by_center_column() {
    let mut runner = GeneraotrRunner::new(standard_stages(), 80, 50).unwrap();
    let mut builder = MapBuilder::new(80, 50, 10);
    let mut rng = WorldGenRng::seeded(21);
    while runner.run_index < 2 {
        runner.next(&mut builder, &mut rng).unwrap();
    }
    for w in builder.rooms.windows(2) {
        assert!(w[0].center().x <= w[1].center().x);
    }
}

#[test]
fn drawn_rooms_stay_inside_their_ranges() {
    let mut builder = MapBuilder::new(30, 25, 5);
    let mut rng = WorldGenRng::seeded(2);
    for _ in 0..200 {
        let _ = builder.build_room(5, 6, &mut rng);
    }
    assert_eq!(builder.rooms.len(), 5);
    for r in builder.rooms.iter() {
        assert!(1 <= r.x1 && r.x1 < 30 - 6);
        assert!(1 <= r.y1 && r.y1 < 25 - 6);
        assert!(2 <= r.x2 - r.x1 && r.x2 - r.x1 < 6);
        assert!(2 <= r.y2 - r.y1 && r.y2 - r.y1 < 6);
    }
}

#[test]
fn room_size_too_large_is_refused_up_front() {
    let stages = vec![GeneratorCommand::GenerateRooms { num_of_rooms: 3, max_room_size: 49 }];
    assert!(matches!(GeneraotrRunner::new(stages, 80, 50), Err(ConfigError::RoomSizeTooLarge)));
    let stages = vec![GeneratorCommand::GenerateRooms { num_of_rooms: 3, max_room_size: 2 }];
    assert!(matches!(GeneraotrRunner::new(stages, 80, 50), Err(ConfigError::RoomSizeTooLarge)));
    let stages = vec![GeneratorCommand::GenerateRooms { num_of_rooms: 3, max_room_size: 48 }];
    assert!(GeneraotrRunner::new(stages, 80, 50).is_ok());
}

#[test]
fn tunnel_or_player_without_rooms_is_refused() {
    let stages = vec![GeneratorCommand::Tunnel { num_of_tunnels: 4 }];
    assert!(matches!(GeneraotrRunner::new(stages, 80, 50), Err(ConfigError::NoRoomsRequested)));
    let stages = vec![
        GeneratorCommand::GenerateRooms { num_of_rooms: 0, max_room_size: 10 },
        GeneratorCommand::PlacePlayerInRoom,
    ];
    assert!(matches!(GeneraotrRunner::new(stages, 80, 50), Err(ConfigError::NoRoomsRequested)));
    let stages = vec![
        GeneratorCommand::PlacePlayerInRoom,
        GeneratorCommand::GenerateRooms { num_of_rooms: 2, max_room_size: 10 },
    ];
    assert!(matches!(GeneraotrRunner::new(stages, 80, 50), Err(ConfigError::NoRoomsRequested)));
}

#[test]
fn too_many_steps_is_refused() {
    let stages = vec![
        GeneratorCommand::FillMap(TileType::Wall),
        GeneratorCommand::GenerateRooms { num_of_rooms: i32::MAX, max_room_size: 10 },
    ];
    assert!(matches!(GeneraotrRunner::new(stages, 80, 50), Err(ConfigError::TooManySteps)));
}

#[test]
fn placing_the_player_without_rooms_fails() {
    let mut builder = MapBuilder::new(80, 50, 0);
    let mut rng = WorldGenRng::seeded(1);
    assert_eq!(builder.place_player(&mut rng), Err(BuildError::NoRooms));
    assert_eq!(builder.player, None);
}

#[test]
fn tunnel_past_the_last_room_fails() {
    let mut builder = MapBuilder::new(80, 50, 2);
    builder.try_room(2, Rect::with_size(2, 2, 3, 3));
    builder.try_room(2, Rect::with_size(20, 10, 3, 3));
    let mut rng = WorldGenRng::seeded(1);
    let r = builder.build_tunnels(4, &mut rng);
    assert_eq!(r, Ok(BuildCommandResult::Progress { total: 4, current: 2 }));
    assert_eq!(builder.build_tunnels(4, &mut rng), Err(BuildError::MissingRoomPair));
    assert_eq!(builder.tunnels.len(), 2);
}

#[test]
fn room_stage_with_empty_range_fails() {
    let mut builder = MapBuilder::new(10, 10, 2);
    let mut rng = WorldGenRng::seeded(1);
    assert_eq!(builder.build_room(2, 9, &mut rng), Err(BuildError::InvalidRoomSize));
    assert!(builder.rooms.is_empty());
}

#[test]
fn try_room_keeps_only_clear_candidates() {
    let mut builder = MapBuilder::new(80, 50, 3);
    let r = builder.try_room(3, Rect::with_size(10, 10, 5, 5));
    assert_eq!(r, BuildCommandResult::Progress { total: 3, current: 1 });
    // Shares the border column x = 15: inclusive edges intersect.
    let r = builder.try_room(3, Rect::with_size(15, 10, 4, 4));
    assert_eq!(r, BuildCommandResult::Progress { total: 3, current: 1 });
    let r = builder.try_room(3, Rect::with_size(2, 30, 4, 4));
    assert_eq!(r, BuildCommandResult::Progress { total: 3, current: 2 });
    let r = builder.try_room(3, Rect::with_size(40, 2, 4, 4));
    assert_eq!(r, BuildCommandResult::Finished);
    let xs: Vec<i32> = builder.rooms.iter().map(|r| r.center().x).collect();
    assert_eq!(xs, vec![4, 12, 42]);
}

#[test]
fn room_sort_keeps_order_of_equal_centers() {
    let mut builder = MapBuilder::new(80, 50, 3);
    let a = Rect::with_size(30, 2, 4, 4);
    let b = Rect::with_size(30, 20, 4, 4);
    let c = Rect::with_size(2, 40, 4, 4);
    builder.try_room(3, a);
    builder.try_room(3, b);
    let r = builder.try_room(3, c);
    assert_eq!(r, BuildCommandResult::Finished);
    assert_eq!(builder.rooms, vec![c, a, b]);
}

#[test]
fn dog_leg_shapes() {
    let mut builder = MapBuilder::new(80, 50, 2);
    builder.try_room(5, Rect::with_size(2, 2, 4, 4));
    builder.try_room(5, Rect::with_size(20, 10, 4, 6));
    let r = builder.connect_next_pair(4, true);
    assert_eq!(r, BuildCommandResult::Progress { total: 4, current: 2 });
    assert_eq!(
        builder.tunnels,
        vec![Tunnel::horizontal(4, 22, 4), Tunnel::vertical(4, 13, 22)]
    );
    let mut other = MapBuilder::new(80, 50, 2);
    other.try_room(5, Rect::with_size(2, 2, 4, 4));
    other.try_room(5, Rect::with_size(20, 10, 4, 6));
    let r = other.connect_next_pair(2, false);
    assert_eq!(r, BuildCommandResult::Finished);
    assert_eq!(other.tunnels, vec![Tunnel::vertical(4, 13, 4), Tunnel::horizontal(4, 22, 13)]);
}

#[test]
fn fill_stage_sets_background() {
    let mut builder = MapBuilder::new(4, 3, 0);
    assert_eq!(builder.fill(&TileType::Wall), BuildCommandResult::Finished);
    assert_eq!(builder.fill_tile, Some(TileType::Wall));
    let m = builder.build_map().map;
    assert!(m.tiles.iter().all(|t| *t == TileType::Wall));
    let plain = MapBuilder::new(4, 3, 0).build_map().map;
    assert!(plain.tiles.iter().all(|t| *t == TileType::Floor));
}

#[test]
fn place_player_in_a_given_room() {
    let mut builder = MapBuilder::new(80, 50, 2);
    builder.try_room(5, Rect::with_size(2, 2, 4, 4));
    builder.try_room(5, Rect::with_size(20, 10, 4, 6));
    assert_eq!(builder.place_player_in_room(1), BuildCommandResult::Finished);
    assert_eq!(builder.player, Some(Point::new(22, 13)));
}

#[test]
fn stage_labels_and_costs() {
    assert_eq!(GeneratorCommand::FillMap(TileType::Wall).generator_text(), "Filling Map");
    let rooms = GeneratorCommand::GenerateRooms { num_of_rooms: 7, max_room_size: 5 };
    assert_eq!(rooms.generator_text(), "Generating Rooms");
    assert_eq!(GeneratorCommand::PlacePlayerInRoom.generator_text(), "Placing Player");
    let tunnels = GeneratorCommand::Tunnel { num_of_tunnels: 12 };
    assert_eq!(tunnels.generator_text(), "Tunneling Between Rooms");
    assert_eq!(rooms.steps(), 7);
    assert_eq!(tunnels.steps(), 12);
    assert_eq!(GeneratorCommand::PlacePlayerInRoom.steps(), 1);
    assert_eq!(GeneratorCommand::FillMap(TileType::Floor).steps(), 1);
    assert_eq!(GeneratorCommand::Tunnel { num_of_tunnels: -3 }.steps(), 0);
}

#[test]
fn runner_labels_follow_the_stage() {
    let mut runner = GeneraotrRunner::default();
    let mut builder = MapBuilder::new(80, 50, 10);
    let mut rng = WorldGenRng::seeded(4);
    assert_eq!(runner.get_render_text(), Some("Filling Map"));
    assert_eq!(runner.get_current_command(), Some(GeneratorCommand::FillMap(TileType::Wall)));
    runner.next(&mut builder, &mut rng).unwrap();
    assert_eq!(runner.get_render_text(), Some("Generating Rooms"));
    assert_eq!(runner.current_step(&builder), 1);
    run_to_end(&mut runner, &mut builder, &mut rng);
    assert_eq!(runner.get_render_text(), None);
    assert_eq!(runner.get_current_command(), None);
    assert_eq!(runner.next(&mut builder, &mut rng), Ok(BuildCommandResult::Finished));
}

#[test]
fn progress_counts_rooms_while_they_are_placed() {
    let mut runner = GeneraotrRunner::new(standard_stages(), 80, 50).unwrap();
    let mut builder = MapBuilder::new(80, 50, 10);
    let mut rng = WorldGenRng::seeded(12);
    runner.next(&mut builder, &mut rng).unwrap();
    while runner.run_index == 1 {
        assert_eq!(runner.current_step(&builder), 1 + builder.rooms.len() as i32);
        runner.next(&mut builder, &mut rng).unwrap();
    }
    assert_eq!(runner.current_step(&builder), 11);
}

#[test]
fn world_start_lists_monsters_outside_the_player_room() {
    let mut state = MapBuilderState::default();
    let mut rng = WorldGenRng::seeded(17);
    assert!(finish_world_gen(&state.generator, &state.builder).is_none());
    let mut calls = 0;
    while !state.is_finished() {
        state.build_world(&mut rng).unwrap();
        calls += 1;
        assert!(calls < 1_000_000);
    }
    let start = finish_world_gen(&state.generator, &state.builder).unwrap();
    assert_eq!(Some(start.player), state.builder.player);
    assert_eq!(start.monsters.len(), 9);
    assert!(start.monsters.iter().all(|p| *p != start.player));
    assert_eq!(start.map.width, 80);
}

#[test]
fn builder_state_checks_the_stages() {
    assert!(matches!(
        MapBuilderState::new(vec![GeneratorCommand::PlacePlayerInRoom], 80, 50),
        Err(ConfigError::NoRoomsRequested)
    ));
    let state = MapBuilderState::new(standard_stages(), 60, 40).unwrap();
    assert_eq!(state.builder.width, 60);
    assert!(!state.is_finished());
}

#[test]
fn build_rooms_reaches_the_target() {
    let mut builder = MapBuilder::new(80, 50, 10);
    let mut rng = WorldGenRng::seeded(31);
    let r = builder.build_rooms(10, 10, 100_000, &mut rng);
    assert_eq!(r, Ok(BuildCommandResult::Finished));
    assert_eq!(builder.rooms.len(), 10);
    assert!(no_two_rooms_intersect(&builder.rooms));
}

#[test]
fn build_rooms_gives_up_after_its_attempts() {
    let mut builder = MapBuilder::new(10, 10, 50);
    let mut rng = WorldGenRng::seeded(31);
    let r = builder.build_rooms(50, 4, 200, &mut rng);
    assert_eq!(r, Err(BuildError::RoomAttemptsExhausted));
    assert!(builder.rooms.len() < 50);
    assert!(no_two_rooms_intersect(&builder.rooms));
    let mut none = MapBuilder::new(10, 10, 1);
    assert_eq!(none.build_rooms(1, 4, 0, &mut rng), Err(BuildError::RoomAttemptsExhausted));
    assert_eq!(none.build_rooms(1, 9, 5, &mut rng), Err(BuildError::InvalidRoomSize));
}

#[test]
fn build_consumes_the_builder() {
    let mut builder = MapBuilder::new(5, 4, 1);
    builder.fill(&TileType::Wall);
    builder.try_room(1, Rect::with_size(1, 1, 2, 2));
    builder.place_player_in_room(0);
    let result = builder.build();
    assert_eq!(result.player, Some(Point::new(2, 2)));
    let floors = result.map.tiles.iter().filter(|t| **t == TileType::Floor).count();
    assert_eq!(floors, 4);
    assert_eq!(result.map.get_tile(Point::new(1, 1)), Some(TileType::Floor));
    assert_eq!(result.map.get_tile(Point::new(0, 0)), Some(TileType::Wall));
}

#[test]
fn world_gen_rng_draws_for_a_run() {
    let mut rng = WorldGenRng::new();
    let mut runner = GeneraotrRunner::default();
    let mut builder = MapBuilder::new(80, 50, 10);
    run_to_end(&mut runner, &mut builder, &mut rng);
    assert_eq!(builder.rooms.len(), 10);
    assert_eq!(builder.tunnels.len(), 18);
}

#[test]
fn stages_that_draw_nothing_leave_the_generator_alone() {
    let mut used = WorldGenRng::seeded(42);
    let mut fresh = WorldGenRng::seeded(42);
    let mut builder = MapBuilder::new(80, 50, 1);
    builder.fill(&TileType::Wall);
    assert_eq!(builder.build_tunnels(18, &mut used), Ok(BuildCommandResult::Finished));
    assert_eq!(builder.place_player(&mut used), Err(BuildError::NoRooms));
    assert_eq!(builder.build_room(0, 10, &mut used), Ok(BuildCommandResult::Finished));
    let mut runner = GeneraotrRunner::new(vec![GeneratorCommand::FillMap(TileType::Floor)], 80, 50).unwrap();
    runner.next(&mut builder, &mut used).unwrap();
    assert_eq!(runner.next(&mut builder, &mut used), Ok(BuildCommandResult::Finished));
    let cmd = GeneratorCommand::FillMap(TileType::Wall);
    cmd.perform(&mut builder, &mut used).unwrap();
    assert_eq!(used.range(0, 1_000_000), fresh.range(0, 1_000_000));
}

#[test]
fn a_room_attempt_draws_four_values() {
    let mut used = WorldGenRng::seeded(9);
    let mut fresh = WorldGenRng::seeded(9);
    let mut builder = MapBuilder::new(80, 50, 3);
    builder.build_room(3, 10, &mut used).unwrap();
    let x = fresh.range(1, 70);
    let y = fresh.range(1, 40);
    let w = fresh.range(2, 10);
    let h = fresh.range(2, 10);
    assert_eq!(builder.rooms, vec![Rect::with_size(x, y, w, h)]);
    assert_eq!(used.range(0, 1_000_000), fresh.range(0, 1_000_000));
}

#[test]
fn one_room_on_an_empty_map_is_found_at_the_first_attempt() {
    let mut builder = MapBuilder::new(30, 30, 1);
    let mut rng = WorldGenRng::seeded(77);
    assert_eq!(builder.build_rooms(1, 6, 1, &mut rng), Ok(BuildCommandResult::Finished));
    assert_eq!(builder.rooms.len(), 1);
}
