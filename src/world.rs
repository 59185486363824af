use vstd::prelude::*;
use vstd::string::StringExecFns;
use crate::components::{Box, BoxSpot, Player, Position, Renderable, Wall};

verus! {

/// Depth of floor tiles.
pub const FLOOR_Z: u8 = 5;

/// Depth of box spots, drawn above the floor.
pub const BOX_SPOT_Z: u8 = 9;

/// Depth of walls, boxes and the player, drawn above everything else.
pub const TOP_Z: u8 = 10;

/// One entity: a position and an image, with any of the marker components.
#[derive(Debug, Clone)]
pub struct Entity {
    pub position: Position,
    pub renderable: Renderable,
    pub wall: Option<Wall>,
    pub player: Option<Player>,
    pub boxed: Option<Box>,
    pub box_spot: Option<BoxSpot>,
}

/// What an entity holds, with the image path as characters and each marker as a flag.
pub struct EntityModel {
    pub position: Position,
    pub path: Seq<char>,
    pub wall: bool,
    pub player: bool,
    pub boxed: bool,
    pub box_spot: bool,
}

impl View for Entity {
    type V = EntityModel;

    open spec fn view(&self) -> EntityModel {
        EntityModel {
            position: self.position,
            path: self.renderable@,
            wall: self.wall is Some,
            player: self.player is Some,
            boxed: self.boxed is Some,
            box_spot: self.box_spot is Some,
        }
    }
}

/// All entities of a level, in the order they were created.
pub struct World {
    pub entities: Vec<Entity>,
}

impl View for World {
    type V = Seq<EntityModel>;

    open spec fn view(&self) -> Seq<EntityModel> {
        self.entities@.map_values(|e: Entity| e@)
    }
}

pub open spec fn floor_model(p: Position) -> EntityModel {
    EntityModel {
        position: Position { z: FLOOR_Z, ..p },
        path: "/images/floor.png"@,
        wall: false,
        player: false,
        boxed: false,
        box_spot: false,
    }
}

pub open spec fn wall_model(p: Position) -> EntityModel {
    EntityModel {
        position: Position { z: TOP_Z, ..p },
        path: "/images/wall.png"@,
        wall: true,
        player: false,
        boxed: false,
        box_spot: false,
    }
}

pub open spec fn box_model(p: Position) -> EntityModel {
    EntityModel {
        position: Position { z: TOP_Z, ..p },
        path: "/images/box.png"@,
        wall: false,
        player: false,
        boxed: true,
        box_spot: false,
    }
}

pub open spec fn box_spot_model(p: Position) -> EntityModel {
    EntityModel {
        position: Position { z: BOX_SPOT_Z, ..p },
        path: "/images/box_spot.png"@,
        wall: false,
        player: false,
        boxed: false,
        box_spot: true,
    }
}

pub open spec fn player_model(p: Position) -> EntityModel {
    EntityModel {
        position: Position { z: TOP_Z, ..p },
        path: "/images/player.png"@,
        wall: false,
        player: true,
        boxed: false,
        box_spot: false,
    }
}

impl World {
    pub fn new() -> (r: World)
        ensures
            r@ == Seq::<EntityModel>::empty(),
    {
        World { entities: Vec::new() }
    }

    pub fn len(&self) -> (r: usize)
        ensures
            r == self@.len(),
    {
        self.entities.len()
    }

    /// Appends one entity at the end of the world.
    pub fn add(&mut self, e: Entity)
        ensures
            final(self)@ == old(self)@.push(e@),
    {
        self.entities.push(e);
        proof {
            assert(final(self)@ =~= old(self)@.push(e@));
        }
    }

    /// Moves the `i`-th entity to `position`, keeping its other components.
    pub fn set_position(&mut self, i: usize, position: Position)
        requires
            i < old(self)@.len(),
        ensures
            final(self)@ == old(self)@.update(i as int, EntityModel { position, ..old(self)@[i as int] }),
    {
        let e = &self.entities[i];
        let moved = Entity {
            position,
            renderable: Renderable { path: e.renderable.path.clone() },
            wall: e.wall,
            player: e.player,
            boxed: e.boxed,
            box_spot: e.box_spot,
        };
        self.entities.set(i, moved);
        proof {
            assert(final(self)@ =~= old(self)@.update(i as int, EntityModel { position, ..old(self)@[i as int] }));
        }
    }
}

/// Creates a wall, drawn on top, at the grid cell of `position`.
pub fn create_wall(world: &mut World, position: Position)
    ensures
        final(world)@ == old(world)@.push(wall_model(position)),
{
    world.add(Entity {
        position: Position { z: TOP_Z, ..position },
        renderable: Renderable { path: String::from_str("/images/wall.png") },
        wall: Some(Wall {}),
        player: None,
        boxed: None,
        box_spot: None,
    });
}

/// Creates a floor tile, drawn below everything else, at the grid cell of `position`.
pub fn create_floor(world: &mut World, position: Position)
    ensures
        final(world)@ == old(world)@.push(floor_model(position)),
{
    world.add(Entity {
        position: Position { z: FLOOR_Z, ..position },
        renderable: Renderable { path: String::from_str("/images/floor.png") },
        wall: None,
        player: None,
        boxed: None,
        box_spot: None,
    });
}

/// Creates a box, drawn on top, at the grid cell of `position`.
pub fn create_box(world: &mut World, position: Position)
    ensures
        final(world)@ == old(world)@.push(box_model(position)),
{
    world.add(Entity {
        position: Position { z: TOP_Z, ..position },
        renderable: Renderable { path: String::from_str("/images/box.png") },
        wall: None,
        player: None,
        boxed: Some(Box {}),
        box_spot: None,
    });
}

/// Creates a box spot, drawn above the floor, at the grid cell of `position`.
pub fn create_box_spot(world: &mut World, position: Position)
    ensures
        final(world)@ == old(world)@.push(box_spot_model(position)),
{
    world.add(Entity {
        position: Position { z: BOX_SPOT_Z, ..position },
        renderable: Renderable { path: String::from_str("/images/box_spot.png") },
        wall: None,
        player: None,
        boxed: None,
        box_spot: Some(BoxSpot {}),
    });
}

/// Creates the player, drawn on top, at the grid cell of `position`.
pub fn create_player(world: &mut World, position: Position)
    ensures
        final(world)@ == old(world)@.push(player_model(position)),
{
    world.add(Entity {
        position: Position { z: TOP_Z, ..position },
        renderable: Renderable { path: String::from_str("/images/player.png") },
        wall: None,
        player: Some(Player {}),
        boxed: None,
        box_spot: None,
    });
}

} // verus!
