use vstd::prelude::*;
use crate::components::Position;
use crate::text::{chars_of, split, split_chars, trim, trim_chars};
use crate::world::{
    box_model, box_spot_model, create_box, create_box_spot, create_floor, create_player,
    create_wall, floor_model, player_model, wall_model, World, EntityModel,
};

verus! {

/// What one token of a level map stands for.
#[derive(Debug, Clone, Copy, PartialEq, Eq, Structural)]
pub enum Tile {
    /// `N`: nothing at all.
    Empty,
    /// `.`: bare floor.
    Floor,
    /// `W`: a wall on the floor.
    Wall,
    /// `P`: the player on the floor.
    Player,
    /// `B`: a box on the floor.
    Box,
    /// `S`: a box spot on the floor.
    BoxSpot,
}

/// One token of a map with its column `x` and row `y`.
#[derive(Debug, Clone, Copy, PartialEq, Eq, Structural)]
pub struct Cell {
    pub x: usize,
    pub y: usize,
    pub tile: Tile,
}

/// The first token of a map that stands for nothing known, with its column and row.
#[derive(Debug, Clone)]
pub struct MapError {
    pub token: Vec<char>,
    pub x: usize,
    pub y: usize,
}

/// The tile that a token names, if any.
pub open spec fn token_tile(t: Seq<char>) -> Option<Tile> {
    if t.len() != 1 {
        None
    } else if t[0] == 'N' {
        Some(Tile::Empty)
    } else if t[0] == '.' {
        Some(Tile::Floor)
    } else if t[0] == 'W' {
        Some(Tile::Wall)
    } else if t[0] == 'P' {
        Some(Tile::Player)
    } else if t[0] == 'B' {
        Some(Tile::Box)
    } else if t[0] == 'S' {
        Some(Tile::BoxSpot)
    } else {
        None
    }
}

/// The rows of a map: its lines once the whole text is trimmed.
pub open spec fn map_rows(s: Seq<char>) -> Seq<Seq<char>> {
    split(trim(s), '\n')
}

/// The tokens of a row: the trimmed row cut at each single space.
pub open spec fn row_tokens(row: Seq<char>) -> Seq<Seq<char>> {
    split(trim(row), ' ')
}

pub open spec fn row_valid(row: Seq<char>) -> bool {
    forall|x: int| 0 <= x < row_tokens(row).len() ==> (#[trigger] token_tile(row_tokens(row)[x])) is Some
}

/// Every token of every row names a tile.
pub open spec fn map_valid(s: Seq<char>) -> bool {
    forall|y: int| 0 <= y < map_rows(s).len() ==> #[trigger] row_valid(map_rows(s)[y])
}

pub open spec fn tile_or_empty(t: Seq<char>) -> Tile {
    match token_tile(t) {
        Some(k) => k,
        None => Tile::Empty,
    }
}

/// The cells of a row of tokens, left to right.
pub open spec fn row_cells(toks: Seq<Seq<char>>, y: int) -> Seq<Cell>
    decreases toks.len(),
{
    if toks.len() == 0 {
        Seq::empty()
    } else {
        row_cells(toks.drop_last(), y).push(
            Cell { x: (toks.len() - 1) as usize, y: y as usize, tile: tile_or_empty(toks.last()) },
        )
    }
}

/// The cells of the given rows, row after row.
pub open spec fn grid_cells(rows: Seq<Seq<char>>) -> Seq<Cell>
    decreases rows.len(),
{
    if rows.len() == 0 {
        Seq::empty()
    } else {
        grid_cells(rows.drop_last()) + row_cells(row_tokens(rows.last()), rows.len() - 1)
    }
}

/// The cells of a map, in reading order.
pub open spec fn map_cells(s: Seq<char>) -> Seq<Cell> {
    grid_cells(map_rows(s))
}

/// The token is the first of the map, in reading order, that names no tile.
pub open spec fn first_unknown(s: Seq<char>, e_x: int, e_y: int, token: Seq<char>) -> bool {
    &&& 0 <= e_y < map_rows(s).len()
    &&& 0 <= e_x < row_tokens(map_rows(s)[e_y]).len()
    &&& token == row_tokens(map_rows(s)[e_y])[e_x]
    &&& token_tile(token) is None
    &&& forall|y: int| 0 <= y < e_y ==> #[trigger] row_valid(map_rows(s)[y])
    &&& forall|x: int|
        0 <= x < e_x ==> (#[trigger] token_tile(row_tokens(map_rows(s)[e_y])[x])) is Some
}

/// The tile that a token names, if any.
pub fn tile_of(t: &Vec<char>) -> (r: Option<Tile>)
    ensures
        r == token_tile(t@),
{
    if t.len() != 1 {
        None
    } else if t[0] == 'N' {
        Some(Tile::Empty)
    } else if t[0] == '.' {
        Some(Tile::Floor)
    } else if t[0] == 'W' {
        Some(Tile::Wall)
    } else if t[0] == 'P' {
        Some(Tile::Player)
    } else if t[0] == 'B' {
        Some(Tile::Box)
    } else if t[0] == 'S' {
        Some(Tile::BoxSpot)
    } else {
        None
    }
}

/// Reads a level map: rows of tokens separated by single spaces.
pub fn parse_map(map: &str) -> (r: Result<Vec<Cell>, MapError>)
    ensures
        match r {
            Ok(cells) => map_valid(map@) && cells@ == map_cells(map@),
            Err(e) => !map_valid(map@) && first_unknown(map@, e.x as int, e.y as int, e.token@),
        },
{
    let chars = chars_of(map);
    let body = trim_chars(&chars);
    let rows = split_chars(&body, '\n');
    let ghost rs = map_rows(map@);
    let mut cells: Vec<Cell> = Vec::new();
    let mut y: usize = 0;
    while y < rows.len()
        invariant
            y <= rows@.len() == rs.len(),
            rs == map_rows(map@),
            forall|i: int| 0 <= i < rows@.len() ==> #[trigger] rows@[i]@ == rs[i],
            forall|i: int| 0 <= i < y ==> #[trigger] row_valid(rs[i]),
            cells@ == grid_cells(rs.take(y as int)),
        decreases rows@.len() - y,
    {
        let row = trim_chars(&rows[y]);
        let toks = split_chars(&row, ' ');
        let ghost ts = row_tokens(rs[y as int]);
        let ghost before = cells@;
        let mut x: usize = 0;
        while x < toks.len()
            invariant
                y < rows@.len() == rs.len(),
                rs == map_rows(map@),
                ts == row_tokens(rs[y as int]),
                x <= toks@.len() == ts.len(),
                forall|i: int| 0 <= i < toks@.len() ==> #[trigger] toks@[i]@ == ts[i],
                forall|i: int| 0 <= i < y ==> #[trigger] row_valid(rs[i]),
                forall|i: int| 0 <= i < x ==> (#[trigger] token_tile(ts[i])) is Some,
                before == grid_cells(rs.take(y as int)),
                cells@ == before + row_cells(ts.take(x as int), y as int),
            decreases toks@.len() - x,
        {
            match tile_of(&toks[x]) {
                Some(tile) => {
                    proof {
                        assert(ts.take(x + 1).drop_last() =~= ts.take(x as int));
                    }
                    cells.push(Cell { x, y, tile });
                    x += 1;
                    proof {
                        assert(cells@ =~= before + row_cells(ts.take(x as int), y as int));
                    }
                },
                None => {
                    let token = toks[x].clone();
                    proof {
                        assert(!row_valid(rs[y as int]));
                    }
                    return Err(MapError { token, x, y });
                },
            }
        }
        proof {
            assert(ts.take(x as int) =~= ts);
            assert(rs.take(y + 1).drop_last() =~= rs.take(y as int));
            assert(rs.take(y + 1).last() == rs[y as int]);
        }
        y += 1;
    }
    proof {
        assert(rs.take(y as int) =~= rs);
    }
    Ok(cells)
}

/// The grid position of a cell, its coordinates cut to a byte, with depth 0.
pub open spec fn cell_position(c: Cell) -> Position {
    Position { x: (c.x % 256) as u8, y: (c.y % 256) as u8, z: 0 }
}

/// The entities that a tile puts at `p`: the floor first, then what stands on it.
pub open spec fn tile_models(t: Tile, p: Position) -> Seq<EntityModel> {
    match t {
        Tile::Empty => Seq::empty(),
        Tile::Floor => seq![floor_model(p)],
        Tile::Wall => seq![floor_model(p), wall_model(p)],
        Tile::Player => seq![floor_model(p), player_model(p)],
        Tile::Box => seq![floor_model(p), box_model(p)],
        Tile::BoxSpot => seq![floor_model(p), box_spot_model(p)],
    }
}

/// The entities of the given cells, in order.
pub open spec fn cells_models(cells: Seq<Cell>) -> Seq<EntityModel>
    decreases cells.len(),
{
    if cells.len() == 0 {
        Seq::empty()
    } else {
        cells_models(cells.drop_last()) + tile_models(
            cells.last().tile,
            cell_position(cells.last()),
        )
    }
}

/// Creates the entities that `tile` stands for at `position`.
pub fn place_tile(world: &mut World, tile: Tile, position: Position)
    ensures
        final(world)@ == old(world)@ + tile_models(tile, position),
{
    match tile {
        Tile::Empty => {},
        Tile::Floor => create_floor(world, position),
        Tile::Wall => {
            create_floor(world, position);
            create_wall(world, position);
        },
        Tile::Player => {
            create_floor(world, position);
            create_player(world, position);
        },
        Tile::Box => {
            create_floor(world, position);
            create_box(world, position);
        },
        Tile::BoxSpot => {
            create_floor(world, position);
            create_box_spot(world, position);
        },
    }
    proof {
        assert(final(world)@ =~= old(world)@ + tile_models(tile, position));
    }
}

/// Creates the entities of each cell, in order.
pub fn place_cells(world: &mut World, cells: &Vec<Cell>)
    ensures
        final(world)@ == old(world)@ + cells_models(cells@),
{
    let mut i: usize = 0;
    while i < cells.len()
        invariant
            i <= cells@.len(),
            world@ == old(world)@ + cells_models(cells@.take(i as int)),
        decreases cells@.len() - i,
    {
        let c = cells[i];
        let position = Position { x: (c.x % 256) as u8, y: (c.y % 256) as u8, z: 0 };
        place_tile(world, c.tile, position);
        proof {
            assert(cells@.take(i + 1).drop_last() =~= cells@.take(i as int));
        }
        i += 1;
        proof {
            assert(world@ =~= old(world)@ + cells_models(cells@.take(i as int)));
        }
    }
    proof {
        assert(cells@.take(i as int) =~= cells@);
    }
}

/// Reads a level map and creates its entities, cell by cell in reading order.
/// A map with a token that names no tile leaves the world as it was.
pub fn load_map(world: &mut World, map_string: &str) -> (r: Result<(), MapError>)
    ensures
        match r {
            Ok(()) => map_valid(map_string@) && final(world)@ == old(world)@ + cells_models(
                map_cells(map_string@),
            ),
            Err(e) => !map_valid(map_string@) && final(world)@ == old(world)@ && first_unknown(
                map_string@,
                e.x as int,
                e.y as int,
                e.token@,
            ),
        },
{
    match parse_map(map_string) {
        Ok(cells) => {
            place_cells(world, &cells);
            Ok(())
        },
        Err(e) => Err(e),
    }
}

/// The level that the game starts with.
pub const LEVEL: &'static str = "
    N N W W W W W W
    W W W . . . . W
    W . . . B . . W
    W . . . . . . W 
    W . P . . . . W
    W . . . . . . W
    W . . S . . . W
    W . . . . . . W
    W W W W W W W W
    ";

/// Loads the starting level into `world`.
pub fn initialize_level(world: &mut World) -> (r: Result<(), MapError>)
    ensures
        match r {
            Ok(()) => map_valid(LEVEL@) && final(world)@ == old(world)@ + cells_models(
                map_cells(LEVEL@),
            ),
            Err(e) => !map_valid(LEVEL@) && final(world)@ == old(world)@ && first_unknown(
                LEVEL@,
                e.x as int,
                e.y as int,
                e.token@,
            ),
        },
{
    load_map(world, LEVEL)
}

} // verus!
