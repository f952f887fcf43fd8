use encounter::actors::actor_template::CreatureTemplate;
use encounter::actors::creatures::zombies::zombie_template;
use encounter::engine::encounter::EncounterInstance;
use encounter::engine::terrain::TerrainInfo;
use encounter::engine::terrain::TerrainType;
use encounter::engine::types::Coordinate;
use encounter::engine::types::Size;
use encounter::engine::util::get_colored_span;
use encounter::engine::util::terrain_char;
use encounter::engine::util::MapCell;
use encounter::engine::util::SpanColor;

fn floor() -> TerrainInfo {
    TerrainInfo { terrain_type: TerrainType::Floor }
}

fn wall() -> TerrainInfo {
    TerrainInfo { terrain_type: TerrainType::Wall }
}

fn floor_arena(width: usize, height: usize) -> EncounterInstance {
    EncounterInstance::with_seed(width, height, vec![floor(); width * height], 7).unwrap()
}

fn sized_zombie(size: Size) -> CreatureTemplate {
    let mut ct = zombie_template();
    ct.size = size;
    ct
}

fn cells_held_by(e: &EncounterInstance, id: usize) -> Vec<(usize, usize)> {
    let mut cells = Vec::new();
    for y in 0..e.height() {
        for x in 0..e.width() {
            if e.actor_map()[x + y * e.width()] == Some(id) {
                cells.push((x, y));
            }
        }
    }
    cells
}

#[test]
fn new_encounter_is_empty() {
    let e = floor_arena(4, 3);
    assert_eq!(e.width(), 4);
    assert_eq!(e.height(), 3);
    assert_eq!(e.terrain().len(), 12);
    assert_eq!(e.actor_map().len(), 12);
    assert!(e.actor_map().iter().all(|c| c.is_none()));
    assert_eq!(e.actor_id_next(), 0);
    assert!(!e.is_initialized());
    assert!(e.encounter_stack().is_empty());
    assert!(e.temp_encounter_queue().is_empty());
    assert!(e.messages().is_empty());
    assert_eq!(e.tmp_message(), "");
    assert_eq!(e.current_player(), None);
    assert!(e.get_actor(0).is_none());
    assert!(e.peek_prompt().is_none());
}

#[test]
fn terrain_must_have_one_entry_per_cell() {
    assert!(EncounterInstance::new(4, 3, vec![floor(); 11]).is_none());
    assert!(EncounterInstance::new(4, 3, vec![floor(); 13]).is_none());
    assert!(EncounterInstance::new(4, 3, vec![floor(); 12]).is_some());
    assert!(EncounterInstance::new(0, 0, vec![]).is_some());
    assert!(EncounterInstance::new(0, 5, vec![]).is_some());
    assert!(EncounterInstance::new(usize::MAX, usize::MAX, vec![floor(); 1]).is_none());
    assert!(EncounterInstance::new(usize::MAX, 0, vec![]).is_none());
}

#[test]
fn idx_is_row_major() {
    let e = floor_arena(4, 3);
    assert_eq!(e.idx(Coordinate::new(0, 0)).unwrap(), 0);
    assert_eq!(e.idx(Coordinate::new(3, 0)).unwrap(), 3);
    assert_eq!(e.idx(Coordinate::new(0, 1)).unwrap(), 4);
    assert_eq!(e.idx(Coordinate::new(2, 2)).unwrap(), 10);
}

#[test]
fn idx_refuses_negative_addresses() {
    let e = floor_arena(4, 3);
    let err = e.idx(Coordinate::new(-1, 2)).unwrap_err();
    assert_eq!(err.coord(), Coordinate::new(-1, 2));
    assert_eq!(err.message(), "Got absolute coordinate with negative value: (-1, 2)");
    let err = e.idx(Coordinate::new(1, -7)).unwrap_err();
    assert_eq!(err.coord(), Coordinate::new(1, -7));
    assert!(e.idx(Coordinate::new(isize::MIN, isize::MIN)).is_err());
}

#[test]
fn coordinate_arithmetic() {
    let a = Coordinate::new(3, -4);
    let b = Coordinate::new(-1, 6);
    assert_eq!(a + b, Coordinate::new(2, 2));
    assert_eq!(a - b, Coordinate::new(4, -10));
    assert_eq!(a.checked_add(b), Some(Coordinate::new(2, 2)));
    assert_eq!(Coordinate::new(isize::MAX, 0).checked_add(Coordinate::new(1, 0)), None);
    assert_eq!(Coordinate::new(0, isize::MIN).checked_add(Coordinate::new(0, -1)), None);
    assert_eq!(a.to_text(), "(3, -4)");
    assert_eq!(Coordinate::new(0, 120).to_text(), "(0, 120)");
}

#[test]
fn walls_and_empty_cells_are_not_spawnable() {
    let mut terrain = vec![floor(); 9];
    terrain[4] = wall();
    terrain[8] = TerrainInfo { terrain_type: TerrainType::Empty };
    let e = EncounterInstance::new(3, 3, terrain).unwrap();
    assert!(e.is_spawnable(Coordinate::new(0, 0)));
    assert!(e.is_spawnable(Coordinate::new(2, 1)));
    assert!(!e.is_spawnable(Coordinate::new(1, 1)));
    assert!(!e.is_spawnable(Coordinate::new(2, 2)));
    assert!(!e.is_spawnable(Coordinate::new(3, 0)));
    assert!(!e.is_spawnable(Coordinate::new(0, 3)));
    assert!(!e.is_spawnable(Coordinate::new(-1, 0)));
    assert!(!e.is_spawnable(Coordinate::new(0, -1)));
    assert_eq!(e.terrain_at(Coordinate::new(1, 1)).terrain_type, TerrainType::Wall);
    assert_eq!(e.terrain_at(Coordinate::new(2, 2)).terrain_type, TerrainType::Empty);
    assert_eq!(e.terrain_at(Coordinate::new(0, 2)).terrain_type, TerrainType::Floor);
    assert!(e.can_spawn_at(Coordinate::new(0, 0), Size::Tiny));
    assert!(!e.can_spawn_at(Coordinate::new(0, 0), Size::Medium));
    assert!(!e.can_spawn_at(Coordinate::new(1, 1), Size::Tiny));
    assert!(!e.can_spawn_at(Coordinate::new(2, 0), Size::Small));
}

#[test]
fn instantiated_creature_takes_its_footprint() {
    let mut e = floor_arena(6, 5);
    let ct = sized_zombie(Size::Medium);
    let id = e.instantiate_creature(&ct, Coordinate::new(2, 1), 3, 0).unwrap();
    assert_eq!(id, 0);
    assert_eq!(e.actor_id_next(), 1);
    assert_eq!(cells_held_by(&e, id), vec![(2, 1), (3, 1), (2, 2), (3, 2)]);
    assert_eq!(e.actor_id_at(Coordinate::new(2, 1)), Some(0));
    assert_eq!(e.actor_id_at(Coordinate::new(3, 2)), Some(0));
    assert_eq!(e.actor_id_at(Coordinate::new(4, 2)), None);
    assert_eq!(e.actor_id_at(Coordinate::new(1, 1)), None);
    assert_eq!(e.actor_id_at(Coordinate::new(9, 9)), None);
    let a = e.get_actor(id).unwrap();
    assert_eq!(a.location(), Coordinate::new(2, 1));
    assert_eq!(a.team(), 3);
    assert_eq!(a.name(), "Zombie 0");
    assert_eq!(a.remaining_movement(), 20000);
    assert_eq!(a.action_slots(), 1);
    assert_eq!(a.bonus_action_slots(), 1);
    assert_eq!(a.initiative(), None);
    assert!(8 <= a.hitpoints() && a.hitpoints() <= 22);
    assert_eq!(a.hitpoints(), a.max_hitpoints());
    assert!(!e.is_spawnable(Coordinate::new(2, 1)));
    assert!(e.is_spawnable(Coordinate::new(1, 1)));
    assert_eq!(e.current_player(), None);

    let second = e.instantiate_creature(&sized_zombie(Size::Tiny), Coordinate::new(0, 0), 1, 5).unwrap();
    assert_eq!(second, 1);
    assert_eq!(cells_held_by(&e, second), vec![(0, 0)]);
    assert_eq!(cells_held_by(&e, id).len(), 4);
    assert_eq!(e.get_actor(second).unwrap().name(), "Zombie 5");
}

#[test]
fn footprints_of_every_size() {
    for (size, side) in [
        (Size::Tiny, 1usize),
        (Size::Small, 2),
        (Size::Medium, 2),
        (Size::Large, 4),
        (Size::Huge, 6),
        (Size::Gargantuan, 8),
    ] {
        let mut e = floor_arena(10, 10);
        let id = e.instantiate_creature(&sized_zombie(size), Coordinate::new(1, 2), 0, 0).unwrap();
        let cells = cells_held_by(&e, id);
        assert_eq!(cells.len(), side * side);
        assert!(cells.iter().all(|&(x, y)| 1 <= x && x < 1 + side && 2 <= y && y < 2 + side));
    }
}

#[test]
fn move_legality_for_a_one_cell_actor_on_floor() {
    let mut e = floor_arena(5, 4);
    let tiny = sized_zombie(Size::Tiny);
    let me = e.instantiate_creature(&tiny, Coordinate::new(1, 1), 0, 0).unwrap();
    let other = e.instantiate_creature(&tiny, Coordinate::new(3, 2), 1, 1).unwrap();
    let big = e.instantiate_creature(&sized_zombie(Size::Medium), Coordinate::new(0, 2), 1, 2).unwrap();
    for y in 0..4isize {
        for x in 0..5isize {
            let c = Coordinate::new(x, y);
            let holder = e.actor_id_at(c);
            let expected = holder.is_none() || holder == Some(me);
            assert_eq!(e.can_move_to(me, c), expected, "cell {:?}", c);
        }
    }
    assert!(e.can_move_to(me, Coordinate::new(1, 1)));
    assert!(!e.can_move_to(me, Coordinate::new(3, 2)));
    assert!(!e.can_move_to(me, Coordinate::new(0, 2)));
    assert!(!e.can_move_to(me, Coordinate::new(1, 3)));
    assert!(!e.can_move_to(me, Coordinate::new(5, 0)));
    assert!(!e.can_move_to(me, Coordinate::new(0, 4)));
    assert!(!e.can_move_to(me, Coordinate::new(-1, 0)));
    assert!(!e.can_move_to(me, Coordinate::new(0, -1)));
    assert!(!e.can_move_to(me, Coordinate::new(isize::MAX, isize::MAX)));
    assert!(!e.can_move_to(77, Coordinate::new(0, 0)));
    assert!(e.can_move_to(other, Coordinate::new(3, 2)));
    assert!(!e.can_move_to(other, Coordinate::new(1, 1)));
    assert!(e.can_move_to(big, Coordinate::new(0, 2)));
}

#[test]
fn move_legality_for_a_larger_footprint() {
    let mut terrain = vec![floor(); 36];
    terrain[5 + 5 * 6] = wall();
    let mut e = EncounterInstance::new(6, 6, terrain).unwrap();
    let me = e.instantiate_creature(&sized_zombie(Size::Medium), Coordinate::new(0, 0), 0, 0).unwrap();
    let other = e.instantiate_creature(&sized_zombie(Size::Tiny), Coordinate::new(3, 0), 1, 0).unwrap();
    assert!(e.can_move_to(me, Coordinate::new(0, 0)));
    assert!(e.can_move_to(me, Coordinate::new(1, 0)));
    assert!(e.can_move_to(me, Coordinate::new(1, 1)));
    assert!(!e.can_move_to(me, Coordinate::new(2, 0)));
    assert!(!e.can_move_to(me, Coordinate::new(3, 0)));
    assert!(e.can_move_to(me, Coordinate::new(2, 1)));
    assert!(e.can_move_to(me, Coordinate::new(4, 0)));
    assert!(!e.can_move_to(me, Coordinate::new(5, 0)));
    assert!(!e.can_move_to(me, Coordinate::new(0, 5)));
    assert!(!e.can_move_to(me, Coordinate::new(4, 4)));
    assert!(e.can_move_to(me, Coordinate::new(3, 4)));
    assert!(e.can_move_to(other, Coordinate::new(5, 4)));
    assert!(!e.can_move_to(other, Coordinate::new(5, 5)));
    assert!(!e.can_move_to(other, Coordinate::new(1, 1)));
}

#[test]
fn set_actor_map_moves_the_footprint_only() {
    let mut e = floor_arena(6, 6);
    let id = e.instantiate_creature(&sized_zombie(Size::Medium), Coordinate::new(0, 0), 0, 0).unwrap();
    assert!(e.set_actor_map(id, Coordinate::new(1, 1)).is_ok());
    assert_eq!(cells_held_by(&e, id), vec![(1, 1), (2, 1), (1, 2), (2, 2)]);
    assert_eq!(e.get_actor(id).unwrap().location(), Coordinate::new(0, 0));
}

#[test]
fn set_actor_map_needs_a_known_actor() {
    let mut e = floor_arena(3, 3);
    let err = e.set_actor_map(4, Coordinate::new(0, 0)).unwrap_err();
    assert_eq!(err.message(), "Actor not found");
    assert!(e.actor_map().iter().all(|c| c.is_none()));
}

#[test]
fn relocate_actor_moves_footprint_and_position() {
    let mut e = floor_arena(6, 6);
    let id = e.instantiate_creature(&sized_zombie(Size::Medium), Coordinate::new(0, 0), 0, 0).unwrap();
    let other = e.instantiate_creature(&sized_zombie(Size::Tiny), Coordinate::new(5, 5), 0, 1).unwrap();
    e.relocate_actor(id, Coordinate::new(1, 0));
    assert_eq!(cells_held_by(&e, id), vec![(1, 0), (2, 0), (1, 1), (2, 1)]);
    assert_eq!(e.get_actor(id).unwrap().location(), Coordinate::new(1, 0));
    assert_eq!(cells_held_by(&e, other), vec![(5, 5)]);
    e.relocate_actor(id, Coordinate::new(4, 3));
    assert_eq!(cells_held_by(&e, id), vec![(4, 3), (5, 3), (4, 4), (5, 4)]);
    assert_eq!(e.get_actor(id).unwrap().location(), Coordinate::new(4, 3));
}

#[test]
fn next_actor_id_counts_up() {
    let mut e = floor_arena(2, 2);
    assert_eq!(e.next_actor_id(), 0);
    assert_eq!(e.next_actor_id(), 1);
    let id = e.instantiate_creature(&sized_zombie(Size::Tiny), Coordinate::new(0, 0), 0, 0).unwrap();
    assert_eq!(id, 2);
    assert!(e.get_actor(0).is_none());
    assert!(e.get_actor(2).is_some());
}

#[test]
fn random_spawn_is_a_place_that_fits() {
    let mut terrain = vec![wall(); 64];
    for y in 2..5 {
        for x in 3..6 {
            terrain[x + y * 8] = floor();
        }
    }
    let mut e = EncounterInstance::new(8, 8, terrain).unwrap();
    for _ in 0..50 {
        let c = e.get_random_spawn(Size::Medium).unwrap();
        assert!(3 <= c.x && c.x <= 4 && 2 <= c.y && c.y <= 3, "got {:?}", c);
        let t = e.get_random_spawn(Size::Tiny).unwrap();
        assert!(3 <= t.x && t.x <= 5 && 2 <= t.y && t.y <= 4, "got {:?}", t);
    }
    assert!(e.get_random_spawn(Size::Large).is_err());
    e.instantiate_creature(&sized_zombie(Size::Tiny), Coordinate::new(4, 3), 0, 0).unwrap();
    assert!(e.get_random_spawn(Size::Medium).is_err());
    for _ in 0..50 {
        let t = e.get_random_spawn(Size::Tiny).unwrap();
        assert!(t != Coordinate::new(4, 3));
        assert!(e.is_spawnable(t));
    }
}

#[test]
fn random_spawn_fails_without_room() {
    let e = EncounterInstance::new(3, 3, vec![wall(); 9]).unwrap();
    let err = e.get_random_spawn(Size::Tiny).unwrap_err();
    assert_eq!(err.message(), "could not find a legal position");
    let none = EncounterInstance::new(0, 0, vec![]).unwrap();
    assert!(none.get_random_spawn(Size::Tiny).is_err());
}

#[test]
fn random_spawn_varies() {
    let e = floor_arena(30, 30);
    let first = e.get_random_spawn(Size::Tiny).unwrap();
    let mut differs = false;
    for _ in 0..40 {
        if e.get_random_spawn(Size::Tiny).unwrap() != first {
            differs = true;
        }
    }
    assert!(differs);
}

#[test]
fn first_spawn_among_takes_the_first_that_fits() {
    let mut terrain = vec![floor(); 16];
    terrain[0] = wall();
    let e = EncounterInstance::new(4, 4, terrain).unwrap();
    let coords = vec![
        Coordinate::new(0, 0),
        Coordinate::new(3, 3),
        Coordinate::new(-1, 1),
        Coordinate::new(2, 1),
        Coordinate::new(1, 1),
    ];
    assert_eq!(e.first_spawn_among(&coords, Size::Medium), Some(Coordinate::new(2, 1)));
    assert_eq!(e.first_spawn_among(&coords, Size::Tiny), Some(Coordinate::new(3, 3)));
    assert_eq!(e.first_spawn_among(&coords, Size::Large), None);
    assert_eq!(e.first_spawn_among(&vec![], Size::Tiny), None);
}

#[test]
fn map_shows_actors_over_terrain() {
    let mut terrain = vec![floor(); 6];
    terrain[2] = wall();
    terrain[5] = TerrainInfo { terrain_type: TerrainType::Empty };
    let mut e = EncounterInstance::new(3, 2, terrain).unwrap();
    let id = e.instantiate_creature(&sized_zombie(Size::Tiny), Coordinate::new(1, 1), 0, 0).unwrap();
    let other = e.instantiate_creature(&sized_zombie(Size::Tiny), Coordinate::new(0, 0), 18, 0).unwrap();
    assert_eq!(id, 0);
    assert_eq!(other, 1);
    assert_eq!(
        e.map_cell(Coordinate::new(1, 1)),
        MapCell::Actor('a', SpanColor::Indexed(0), SpanColor::LightCyan)
    );
    assert_eq!(
        e.map_cell(Coordinate::new(0, 0)),
        MapCell::Actor('b', SpanColor::Indexed(2), SpanColor::Black)
    );
    assert_eq!(e.map_cell(Coordinate::new(2, 0)), MapCell::Terrain('\u{2588}'));
    assert_eq!(e.map_cell(Coordinate::new(1, 0)), MapCell::Terrain('\u{2591}'));
    assert_eq!(e.map_cell(Coordinate::new(2, 1)), MapCell::Terrain(' '));
    let rows = e.map_rows();
    assert_eq!(rows.len(), 2);
    assert_eq!(
        rows[0],
        vec![
            MapCell::Terrain('\u{2591}'),
            MapCell::Actor('a', SpanColor::Indexed(0), SpanColor::LightCyan),
            MapCell::Terrain(' '),
        ]
    );
    assert_eq!(
        rows[1],
        vec![
            MapCell::Actor('b', SpanColor::Indexed(2), SpanColor::Black),
            MapCell::Terrain('\u{2591}'),
            MapCell::Terrain('\u{2588}'),
        ]
    );
}

#[test]
fn actor_glyphs_and_colours() {
    assert_eq!(get_colored_span(0, 0), ('a', SpanColor::Indexed(0), SpanColor::LightCyan));
    assert_eq!(get_colored_span(25, 1), ('z', SpanColor::Indexed(1), SpanColor::Black));
    assert_eq!(get_colored_span(26, 15), ('*', SpanColor::Indexed(15), SpanColor::Black));
    assert_eq!(get_colored_span(27, 16), ('!', SpanColor::Indexed(0), SpanColor::LightCyan));
    assert_eq!(get_colored_span(28, 33), ('a', SpanColor::Indexed(1), SpanColor::Black));
    assert_eq!(terrain_char(TerrainType::Empty), ' ');
    assert_eq!(terrain_char(TerrainType::Floor), '\u{2591}');
    assert_eq!(terrain_char(TerrainType::Wall), '\u{2588}');
}

#[test]
fn messages_are_appended() {
    let mut e = floor_arena(1, 1);
    e.push_message(String::from("first"));
    e.push_message(String::from("second"));
    assert_eq!(e.messages(), &vec![String::from("first"), String::from("second")]);
}

#[test]
fn nobody_is_found_outside_the_arena() {
    let mut e = floor_arena(4, 3);
    let id = e.instantiate_creature(&sized_zombie(Size::Tiny), Coordinate::new(0, 1), 0, 0).unwrap();
    assert_eq!(e.actor_id_at(Coordinate::new(0, 1)), Some(id));
    assert_eq!(e.actor_id_at(Coordinate::new(4, 0)), None);
    assert_eq!(e.actor_id_at(Coordinate::new(-4, 2)), None);
    assert_eq!(e.actor_id_at(Coordinate::new(0, 3)), None);
    assert_eq!(e.actor_id_at(Coordinate::new(-1, 1)), None);
    assert_eq!(e.actor_id_at(Coordinate::new(0, -1)), None);
    assert_eq!(e.actor_id_at(Coordinate::new(isize::MAX, isize::MAX)), None);
    assert_eq!(e.actor_id_at(Coordinate::new(isize::MIN, 1)), None);
    assert_eq!(e.actor_id_at(Coordinate::new(1, 1)), None);
}
