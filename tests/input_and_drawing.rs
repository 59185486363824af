use rust_sokoban::components::Position;
use rust_sokoban::input::{apply_key, InputQueue, InputSystem, Key};
use rust_sokoban::map::load_map;
use rust_sokoban::render::{draw_list, draw_order, TILE_WIDTH};
use rust_sokoban::world::{create_box_spot, create_floor, create_player, create_wall, World};

fn pos(x: u8, y: u8) -> Position {
    Position::new(x, y, 0)
}

#[test]
fn keys_move_one_cell() {
    let p = Position::new(3, 4, 10);
    assert_eq!(apply_key(p, Key::Up), Position::new(3, 3, 10));
    assert_eq!(apply_key(p, Key::Down), Position::new(3, 5, 10));
    assert_eq!(apply_key(p, Key::Left), Position::new(2, 4, 10));
    assert_eq!(apply_key(p, Key::Right), Position::new(4, 4, 10));
    assert_eq!(apply_key(p, Key::Other), p);
}

#[test]
fn moves_wrap_at_the_edges() {
    assert_eq!(apply_key(Position::new(0, 0, 10), Key::Up), Position::new(0, 255, 10));
    assert_eq!(apply_key(Position::new(0, 0, 10), Key::Left), Position::new(255, 0, 10));
    assert_eq!(apply_key(Position::new(255, 255, 10), Key::Down), Position::new(255, 0, 10));
    assert_eq!(apply_key(Position::new(255, 255, 10), Key::Right), Position::new(0, 255, 10));
}

#[test]
fn input_moves_only_the_player_by_the_last_key() {
    let mut world = World::new();
    load_map(&mut world, ". P\nB S").unwrap();
    let before: Vec<Position> = world.entities.iter().map(|e| e.position).collect();
    let mut queue = InputQueue::default();
    queue.keys_pressed.push(Key::Left);
    queue.keys_pressed.push(Key::Down);
    InputSystem {}.run(&mut queue, &mut world);
    assert_eq!(queue.keys_pressed, vec![Key::Left]);
    for (i, e) in world.entities.iter().enumerate() {
        if e.player.is_some() {
            assert_eq!(e.position, Position::new(1, 1, 10));
        } else {
            assert_eq!(e.position, before[i]);
        }
    }
    InputSystem {}.run(&mut queue, &mut world);
    assert!(queue.keys_pressed.is_empty());
    let player = world.entities.iter().find(|e| e.player.is_some()).unwrap();
    assert_eq!(player.position, Position::new(0, 1, 10));
    InputSystem {}.run(&mut queue, &mut world);
    let player = world.entities.iter().find(|e| e.player.is_some()).unwrap();
    assert_eq!(player.position, Position::new(0, 1, 10));
}

#[test]
fn each_player_takes_one_key() {
    let mut world = World::new();
    create_player(&mut world, pos(5, 5));
    create_wall(&mut world, pos(1, 1));
    create_player(&mut world, pos(7, 7));
    create_player(&mut world, pos(9, 9));
    let mut queue = InputQueue::default();
    queue.keys_pressed.push(Key::Up);
    queue.keys_pressed.push(Key::Right);
    InputSystem {}.run(&mut queue, &mut world);
    assert!(queue.keys_pressed.is_empty());
    assert_eq!(world.entities[0].position, Position::new(6, 5, 10));
    assert_eq!(world.entities[1].position, Position::new(1, 1, 10));
    assert_eq!(world.entities[2].position, Position::new(7, 6, 10));
    assert_eq!(world.entities[3].position, Position::new(9, 9, 10));
}

#[test]
fn other_keys_are_used_up_without_moving() {
    let mut world = World::new();
    create_player(&mut world, pos(2, 2));
    let mut queue = InputQueue::default();
    queue.keys_pressed.push(Key::Up);
    queue.keys_pressed.push(Key::Other);
    InputSystem {}.run(&mut queue, &mut world);
    assert_eq!(queue.keys_pressed, vec![Key::Up]);
    assert_eq!(world.entities[0].position, Position::new(2, 2, 10));
}

#[test]
fn deeper_entities_are_drawn_first() {
    let mut world = World::new();
    create_wall(&mut world, pos(0, 0));
    create_box_spot(&mut world, pos(1, 0));
    create_floor(&mut world, pos(2, 0));
    create_player(&mut world, pos(3, 0));
    create_floor(&mut world, pos(4, 0));
    assert_eq!(draw_order(&world), vec![2, 4, 1, 0, 3]);
}

#[test]
fn empty_world_draws_nothing() {
    let world = World::new();
    assert!(draw_order(&world).is_empty());
    assert!(draw_list(&world).is_empty());
}

#[test]
fn draw_list_scales_cells_to_pixels() {
    assert_eq!(TILE_WIDTH, 32);
    let mut world = World::new();
    load_map(&mut world, "N N\nN W").unwrap();
    let cmds = draw_list(&world);
    let got: Vec<(u32, u32, String)> = cmds.iter().map(|c| (c.x, c.y, c.path.clone())).collect();
    assert_eq!(
        got,
        vec![
            (32, 32, "/images/floor.png".to_string()),
            (32, 32, "/images/wall.png".to_string()),
        ]
    );
}

#[test]
fn largest_cell_fits_in_pixels() {
    let mut world = World::new();
    create_floor(&mut world, pos(255, 255));
    let cmds = draw_list(&world);
    assert_eq!((cmds[0].x, cmds[0].y), (255 * 32, 255 * 32));
}
