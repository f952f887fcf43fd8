use encounter::engine::actor_gen::ActorGenParams;
use encounter::engine::encounter::EncounterInstance;
use encounter::engine::terrain::TerrainInfo;
use encounter::engine::terrain::TerrainType;
use encounter::engine::terrain_gen::carve_room;
use encounter::engine::terrain_gen::generate_terrain;
use encounter::engine::terrain_gen::split_node;
use encounter::engine::terrain_gen::BSPNode;
use encounter::engine::terrain_gen::Doors;
use encounter::engine::terrain_gen::TerrainGenParams;
use encounter::engine::terrain_gen::MIN_ROOM_WIDTH;
use encounter::engine::terrain_gen::MIN_WIDTH;

fn room(x: usize, y: usize, width: usize, height: usize) -> BSPNode {
    BSPNode { x, y, width, height, children: None }
}

fn picture(terrain: &Vec<TerrainInfo>, width: usize) -> Vec<String> {
    terrain
        .chunks(width)
        .map(|row| {
            row.iter()
                .map(|t| match t.terrain_type {
                    TerrainType::Empty => ' ',
                    TerrainType::Floor => '.',
                    TerrainType::Wall => '#',
                })
                .collect()
        })
        .collect()
}

#[test]
fn room_that_is_higher_than_wide_is_split_across() {
    let split = split_node(room(2, 3, 10, 14), 6);
    assert_eq!((split.x, split.y, split.width, split.height), (2, 3, 10, 14));
    let (first, second) = split.children.unwrap();
    assert_eq!((first.x, first.y, first.width, first.height), (2, 3, 10, 6));
    assert_eq!((second.x, second.y, second.width, second.height), (2, 9, 10, 8));
    assert!(first.children.is_none() && second.children.is_none());
}

#[test]
fn room_that_is_wider_than_high_is_split_lengthwise() {
    let split = split_node(room(0, 0, 20, 8), 13);
    let (first, second) = split.children.unwrap();
    assert_eq!((first.x, first.y, first.width, first.height), (0, 0, 13, 8));
    assert_eq!((second.x, second.y, second.width, second.height), (13, 0, 7, 8));
}

#[test]
fn square_room_is_split_across() {
    let split = split_node(room(1, 1, 13, 13), 6);
    let (first, second) = split.children.unwrap();
    assert_eq!((first.x, first.y, first.width, first.height), (1, 1, 13, 6));
    assert_eq!((second.x, second.y, second.width, second.height), (1, 7, 13, 7));
}

#[test]
fn carved_room_has_floor_walls_and_doors() {
    let params = TerrainGenParams { width: 9, height: 8, branch_depth: 0, branch_prob: 0 };
    let mut terrain = vec![TerrainInfo { terrain_type: TerrainType::Empty }; 72];
    let doors = Doors {
        door_width_horizontal: 4,
        door_offset_horizontal: 1,
        door_width_vertical: 5,
        door_offset_vertical: 0,
    };
    carve_room(&mut terrain, &params, &room(1, 1, 7, 7), doors);
    assert_eq!(
        picture(&terrain, 9),
        vec![
            "         ",
            " .......",
            " .......",
            " .......",
            " .......",
            " .......",
            " ......# ",
            " #....## ",
        ]
        .iter()
        .map(|row| format!("{:<9}", row))
        .collect::<Vec<String>>()
    );
}

#[test]
fn later_room_is_carved_over_earlier_ones() {
    let params = TerrainGenParams { width: 12, height: 6, branch_depth: 0, branch_prob: 0 };
    let mut terrain = vec![TerrainInfo { terrain_type: TerrainType::Empty }; 72];
    let doors = Doors {
        door_width_horizontal: 4,
        door_offset_horizontal: 0,
        door_width_vertical: 4,
        door_offset_vertical: 1,
    };
    carve_room(&mut terrain, &params, &room(0, 0, 6, 6), doors);
    carve_room(&mut terrain, &params, &room(6, 0, 6, 6), doors);
    assert_eq!(
        picture(&terrain, 12),
        vec![
            ".....#.....#",
            "............",
            "............",
            "............",
            "............",
            "....##....##",
        ]
    );
}

#[test]
fn arena_that_is_never_split_is_one_room() {
    let params = TerrainGenParams { width: 10, height: 7, branch_depth: 5, branch_prob: 1000 };
    for _ in 0..30 {
        let terrain = generate_terrain(&params);
        assert_eq!(terrain.len(), 70);
        let rows = picture(&terrain, 10);
        for y in 0..6 {
            assert_eq!(&rows[y][..9], ".........");
        }
        assert_eq!(&rows[6][9..], "#");
        let door_below = rows[6][..9].matches('.').count();
        assert!(MIN_WIDTH <= door_below && door_below < 2 * MIN_WIDTH, "rows {:?}", rows);
        assert_eq!(rows[6][..9].trim_matches('#').len(), door_below);
        let right: String = rows[..6].iter().map(|r| r.chars().nth(9).unwrap()).collect();
        let door_right = right.matches('.').count();
        assert!(MIN_WIDTH <= door_right && door_right < 6, "rows {:?}", rows);
        assert_eq!(right.trim_matches('#').len(), door_right);
    }
}

#[test]
fn likelihood_zero_never_splits() {
    let params = TerrainGenParams { width: 40, height: 20, branch_depth: 8, branch_prob: 0 };
    let rows = picture(&generate_terrain(&params), 40);
    for y in 0..19 {
        assert_eq!(&rows[y][..39], ".".repeat(39));
    }
}

#[test]
fn generated_arena_is_covered_by_rooms() {
    let params = TerrainGenParams { width: 40, height: 20, branch_depth: 8, branch_prob: 500 };
    let mut split_seen = false;
    for _ in 0..20 {
        let terrain = generate_terrain(&params);
        assert_eq!(terrain.len(), 800);
        assert!(terrain.iter().all(|t| t.terrain_type != TerrainType::Empty));
        assert_eq!(terrain[799].terrain_type, TerrainType::Wall);
        let rows = picture(&terrain, 40);
        let inner_walls = rows[..19].iter().map(|r| r[..39].matches('#').count()).sum::<usize>();
        if inner_walls > 0 {
            split_seen = true;
        }
        let floors = terrain.iter().filter(|t| t.terrain_type == TerrainType::Floor).count();
        assert!(floors >= 800 - 39 - 20 - 8 * (40 + 20));
    }
    assert!(split_seen);
    assert_eq!(MIN_ROOM_WIDTH, 6);
}

#[test]
fn smallest_arena_can_be_generated() {
    let params = TerrainGenParams { width: 6, height: 6, branch_depth: 3, branch_prob: 1000 };
    let rows = picture(&generate_terrain(&params), 6);
    assert_eq!(&rows[5][5..], "#");
    assert_eq!(rows[5].matches('.').count(), 4);
    for y in 0..5 {
        assert_eq!(&rows[y][..5], ".....");
    }
}

#[test]
fn encounter_is_set_up_from_parameters() {
    let terrain_params = TerrainGenParams { width: 40, height: 20, branch_depth: 8, branch_prob: 500 };
    let actor_params = ActorGenParams { cr_target: 1000, n_teams: 2 };
    let mut e = EncounterInstance::from_params(&terrain_params, &actor_params).unwrap();
    assert_eq!(e.width(), 40);
    assert_eq!(e.height(), 20);
    assert_eq!(e.terrain().len(), 800);
    assert!(e.is_initialized());
    assert_eq!(e.actor_id_next(), 8);
    assert_eq!(e.initiative_tracker().len(), 8);
    for id in 0..8 {
        let a = e.get_actor(id).unwrap();
        assert_eq!(a.team(), id / 4);
        assert!(a.initiative().is_some());
        let at = a.location();
        for (dx, dy) in [(0, 0), (1, 0), (0, 1), (1, 1)] {
            let c = encounter::engine::types::Coordinate::new(at.x + dx, at.y + dy);
            assert_eq!(e.actor_id_at(c), Some(id));
            assert_eq!(e.terrain_at(c).terrain_type, TerrainType::Floor);
        }
        let listed = e.initiative_tracker().entries().iter().filter(|el| el.actor_id == id).count();
        assert_eq!(listed, 1);
    }
    assert!(e.encounter_stack().is_empty());
    e.process_stack();
    let first = e.initiative_tracker().entries()[0].actor_id;
    assert_eq!(e.peek_prompt().unwrap().actor_id(), first);
}

#[test]
fn setup_without_creatures_is_the_bare_arena_started() {
    let terrain_params = TerrainGenParams { width: 12, height: 9, branch_depth: 2, branch_prob: 500 };
    for actor_params in [
        ActorGenParams { cr_target: 0, n_teams: 3 },
        ActorGenParams { cr_target: 700, n_teams: 0 },
        ActorGenParams { cr_target: 0, n_teams: 0 },
    ] {
        let e = EncounterInstance::from_params(&terrain_params, &actor_params).unwrap();
        assert!(e.is_initialized());
        assert_eq!(e.width(), 12);
        assert_eq!(e.height(), 9);
        assert_eq!(e.terrain().len(), 108);
        assert_eq!(e.actor_id_next(), 0);
        assert!(e.get_actor(0).is_none());
        assert!(e.actor_map().iter().all(|c| c.is_none()));
        assert_eq!(e.initiative_tracker().len(), 0);
        assert_eq!(e.initiative_tracker().cursor(), 0);
        assert!(e.encounter_stack().is_empty());
        assert!(e.temp_encounter_queue().is_empty());
        assert!(e.messages().is_empty());
        assert_eq!(e.outcome_tracker().peek_next_id(), 0);
    }
}

#[test]
fn likelihood_of_a_thousand_always_splits_a_large_room() {
    let params = TerrainGenParams { width: 40, height: 20, branch_depth: 1, branch_prob: 1000 };
    for _ in 0..30 {
        let rows = picture(&generate_terrain(&params), 40);
        let wall_columns: Vec<usize> = (0..39)
            .filter(|&x| (0..19).filter(|&y| rows[y].as_bytes()[x] == b'#').count() >= 12)
            .collect();
        assert_eq!(wall_columns.len(), 1, "rows {:?}", rows);
        let cut = wall_columns[0] + 1;
        assert!(6 <= cut && cut < 34, "cut {}", cut);
        let wall_rows = (0..19)
            .filter(|&y| rows[y][..39].matches('#').count() >= 12)
            .count();
        assert_eq!(wall_rows, 0);
    }
}

#[test]
fn high_room_is_split_across_when_it_must_be() {
    let params = TerrainGenParams { width: 10, height: 30, branch_depth: 1, branch_prob: 2000 };
    for _ in 0..30 {
        let rows = picture(&generate_terrain(&params), 10);
        let wall_rows: Vec<usize> =
            (0..29).filter(|&y| rows[y][..9].matches('#').count() >= 2).collect();
        assert_eq!(wall_rows.len(), 1, "rows {:?}", rows);
        let cut = wall_rows[0] + 1;
        assert!(6 <= cut && cut < 24, "cut {}", cut);
    }
}

#[test]
fn setup_for_one_zombie_never_fails() {
    for (depth, prob) in [(0, 1000), (8, 500), (3, 1000), (8, 0)] {
        for _ in 0..15 {
            let terrain_params =
                TerrainGenParams { width: 6, height: 6, branch_depth: depth, branch_prob: prob };
            let actor_params = ActorGenParams { cr_target: 250, n_teams: 1 };
            let e = EncounterInstance::from_params(&terrain_params, &actor_params).unwrap();
            assert_eq!(e.actor_id_next(), 1);
            assert_eq!(e.current_player(), Some(0));
            let wide = TerrainGenParams { width: 40, height: 20, branch_depth: depth, branch_prob: prob };
            let one = ActorGenParams { cr_target: 1, n_teams: 1 };
            let e = EncounterInstance::from_params(&wide, &one).unwrap();
            assert_eq!(e.actor_id_next(), 1);
        }
    }
}

#[test]
fn no_round_of_splitting_leaves_one_room() {
    let params = TerrainGenParams { width: 40, height: 20, branch_depth: 0, branch_prob: 1000 };
    for _ in 0..10 {
        let rows = picture(&generate_terrain(&params), 40);
        for y in 0..19 {
            assert_eq!(&rows[y][..39], ".".repeat(39));
        }
    }
}

#[test]
fn rooms_are_split_no_deeper_than_there_are_rounds() {
    let params = TerrainGenParams { width: 60, height: 14, branch_depth: 2, branch_prob: 1000 };
    for _ in 0..20 {
        let rows = picture(&generate_terrain(&params), 60);
        let wall_columns = (0..59)
            .filter(|&x| (0..13).filter(|&y| rows[y].as_bytes()[x] == b'#').count() >= 6)
            .count();
        assert!(1 <= wall_columns && wall_columns <= 3, "rows {:?}", rows);
    }
}
