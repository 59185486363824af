use rust_sokoban::components::Position;
use rust_sokoban::map::{initialize_level, load_map, parse_map, tile_of, Cell, Tile};
use rust_sokoban::world::World;

fn chars(s: &str) -> Vec<char> {
    s.chars().collect()
}

#[test]
fn each_token_names_its_tile() {
    assert_eq!(tile_of(&chars("N")), Some(Tile::Empty));
    assert_eq!(tile_of(&chars(".")), Some(Tile::Floor));
    assert_eq!(tile_of(&chars("W")), Some(Tile::Wall));
    assert_eq!(tile_of(&chars("P")), Some(Tile::Player));
    assert_eq!(tile_of(&chars("B")), Some(Tile::Box));
    assert_eq!(tile_of(&chars("S")), Some(Tile::BoxSpot));
    assert_eq!(tile_of(&chars("X")), None);
    assert_eq!(tile_of(&chars("WW")), None);
    assert_eq!(tile_of(&chars("")), None);
}

#[test]
fn parse_reads_rows_and_columns() {
    let cells = parse_map("\n   N .\n   W P  \n  B S\n").unwrap();
    let expected = vec![
        Cell { x: 0, y: 0, tile: Tile::Empty },
        Cell { x: 1, y: 0, tile: Tile::Floor },
        Cell { x: 0, y: 1, tile: Tile::Wall },
        Cell { x: 1, y: 1, tile: Tile::Player },
        Cell { x: 0, y: 2, tile: Tile::Box },
        Cell { x: 1, y: 2, tile: Tile::BoxSpot },
    ];
    assert_eq!(cells, expected);
}

#[test]
fn parse_reports_first_unknown_token() {
    let e = parse_map("W W\nW X Y").unwrap_err();
    assert_eq!(e.token, vec!['X']);
    assert_eq!(e.x, 1);
    assert_eq!(e.y, 1);
}

#[test]
fn two_spaces_make_an_empty_token() {
    let e = parse_map("W  W").unwrap_err();
    assert_eq!(e.token, Vec::<char>::new());
    assert_eq!(e.x, 1);
    assert_eq!(e.y, 0);
}

#[test]
fn empty_map_is_one_empty_token() {
    let e = parse_map("   ").unwrap_err();
    assert_eq!(e.token, Vec::<char>::new());
    assert_eq!((e.x, e.y), (0, 0));
}

#[test]
fn load_map_puts_floor_under_each_object() {
    let mut world = World::new();
    load_map(&mut world, "W P\nN B S").unwrap();
    let got: Vec<(u8, u8, u8, String, bool, bool, bool, bool)> = world
        .entities
        .iter()
        .map(|e| {
            (
                e.position.x,
                e.position.y,
                e.position.z,
                e.renderable.path.clone(),
                e.wall.is_some(),
                e.player.is_some(),
                e.boxed.is_some(),
                e.box_spot.is_some(),
            )
        })
        .collect();
    let s = |p: &str| p.to_string();
    let expected = vec![
        (0, 0, 5, s("/images/floor.png"), false, false, false, false),
        (0, 0, 10, s("/images/wall.png"), true, false, false, false),
        (1, 0, 5, s("/images/floor.png"), false, false, false, false),
        (1, 0, 10, s("/images/player.png"), false, true, false, false),
        (1, 1, 5, s("/images/floor.png"), false, false, false, false),
        (1, 1, 10, s("/images/box.png"), false, false, true, false),
        (2, 1, 5, s("/images/floor.png"), false, false, false, false),
        (2, 1, 9, s("/images/box_spot.png"), false, false, false, true),
    ];
    assert_eq!(got, expected);
}

#[test]
fn load_map_error_leaves_world_unchanged() {
    let mut world = World::new();
    load_map(&mut world, ". .").unwrap();
    assert_eq!(world.len(), 2);
    let e = load_map(&mut world, ". . Q").unwrap_err();
    assert_eq!(e.token, vec!['Q']);
    assert_eq!(world.len(), 2);
}

#[test]
fn load_map_appends_to_existing_entities() {
    let mut world = World::new();
    load_map(&mut world, "P").unwrap();
    load_map(&mut world, ". .").unwrap();
    assert_eq!(world.len(), 4);
    assert_eq!(world.entities[3].position, Position { x: 1, y: 0, z: 5 });
}

#[test]
fn wide_map_coordinates_wrap_to_a_byte() {
    let mut text = String::new();
    for i in 0..257 {
        if i > 0 {
            text.push(' ');
        }
        text.push(if i == 256 { 'P' } else { 'N' });
    }
    let mut world = World::new();
    load_map(&mut world, &text).unwrap();
    assert_eq!(world.len(), 2);
    assert_eq!(world.entities[1].position, Position { x: 0, y: 0, z: 10 });
}

#[test]
fn starting_level_loads() {
    let mut world = World::new();
    assert!(initialize_level(&mut world).is_ok());
    assert_eq!(world.len(), 103);
    let count = |f: &dyn Fn(&rust_sokoban::world::Entity) -> bool| world.entities.iter().filter(|e| f(e)).count();
    assert_eq!(count(&|e| e.wall.is_some()), 30);
    assert_eq!(count(&|e| e.position.z == 5), 70);
    assert_eq!(count(&|e| e.boxed.is_some()), 1);
    assert_eq!(count(&|e| e.box_spot.is_some()), 1);
    assert_eq!(count(&|e| e.player.is_some()), 1);
    let player = world.entities.iter().find(|e| e.player.is_some()).unwrap();
    assert_eq!(player.position, Position { x: 2, y: 4, z: 10 });
    let boxed = world.entities.iter().find(|e| e.boxed.is_some()).unwrap();
    assert_eq!(boxed.position, Position { x: 4, y: 2, z: 10 });
    let spot = world.entities.iter().find(|e| e.box_spot.is_some()).unwrap();
    assert_eq!(spot.position, Position { x: 3, y: 6, z: 9 });
}
