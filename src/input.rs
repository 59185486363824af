use vstd::prelude::*;
use crate::components::Position;
use crate::world::{EntityModel, World};

verus! {

/// A key as the game reads it: the four arrows, and any other key.
#[derive(Debug, Clone, Copy, PartialEq, Eq, Structural)]
pub enum Key {
    Up,
    Down,
    Left,
    Right,
    Other,
}

/// Keys pressed and not yet handled; the last one pressed is handled first.
pub struct InputQueue {
    pub keys_pressed: Vec<Key>,
}

impl Default for InputQueue {
    fn default() -> (r: InputQueue)
        ensures
            r.keys_pressed@ == Seq::<Key>::empty(),
    {
        InputQueue { keys_pressed: Vec::new() }
    }
}

/// Where a key moves a position: one cell up, down, left or right, the coordinate wrapping
/// around at the ends of its range; any other key leaves it in place.
pub open spec fn moved(p: Position, key: Key) -> Position {
    match key {
        Key::Up => Position { y: (if p.y == 0 { 255 } else { p.y - 1 }) as u8, ..p },
        Key::Down => Position { y: (if p.y == 255 { 0 } else { p.y + 1 }) as u8, ..p },
        Key::Left => Position { x: (if p.x == 0 { 255 } else { p.x - 1 }) as u8, ..p },
        Key::Right => Position { x: (if p.x == 255 { 0 } else { p.x + 1 }) as u8, ..p },
        Key::Other => p,
    }
}

/// Moves `p` as `key` says.
pub fn apply_key(p: Position, key: Key) -> (r: Position)
    ensures
        r == moved(p, key),
{
    match key {
        Key::Up => Position { y: p.y.wrapping_sub(1), ..p },
        Key::Down => Position { y: p.y.wrapping_add(1), ..p },
        Key::Left => Position { x: p.x.wrapping_sub(1), ..p },
        Key::Right => Position { x: p.x.wrapping_add(1), ..p },
        Key::Other => p,
    }
}

/// How many of the first `i` entities are players.
pub open spec fn players_before(es: Seq<EntityModel>, i: int) -> nat
    decreases i,
{
    if i <= 0 {
        0
    } else {
        players_before(es, i - 1) + (if es[i - 1].player { 1nat } else { 0nat })
    }
}

/// The keys left once `n` players have taken one each from the end of the queue.
pub open spec fn keys_left(q: Seq<Key>, n: nat) -> Seq<Key> {
    if n >= q.len() {
        Seq::empty()
    } else {
        q.take(q.len() - n)
    }
}

/// The world after the input step: the `k`-th player, counting in entity order, moves by
/// the `k`-th key taken from the end of the queue, while keys last; nothing else changes.
pub open spec fn after_input(es: Seq<EntityModel>, q: Seq<Key>) -> Seq<EntityModel> {
    Seq::new(
        es.len(),
        |i: int|
            {
                let k = players_before(es, i);
                if es[i].player && k < q.len() {
                    EntityModel { position: moved(es[i].position, q[q.len() - 1 - k]), ..es[i] }
                } else {
                    es[i]
                }
            },
    )
}

/// Moves the player by the keys pressed.
pub struct InputSystem {}

impl InputSystem {
    /// Hands each player, in entity order, the key pressed last that is still queued, and
    /// moves it by that key; the keys handed out leave the queue.
    pub fn run(&mut self, input_queue: &mut InputQueue, world: &mut World)
        ensures
            final(world)@ == after_input(old(world)@, old(input_queue).keys_pressed@),
            final(input_queue).keys_pressed@ == keys_left(
                old(input_queue).keys_pressed@,
                players_before(old(world)@, old(world)@.len() as int),
            ),
    {
        let ghost es = world@;
        let ghost q = input_queue.keys_pressed@;
        let n = world.entities.len();
        let mut i: usize = 0;
        while i < n
            invariant
                i <= n == es.len() == world@.len(),
                forall|j: int| 0 <= j < i ==> #[trigger] world@[j] == after_input(es, q)[j],
                forall|j: int| i <= j < n ==> #[trigger] world@[j] == es[j],
                input_queue.keys_pressed@ == keys_left(q, players_before(es, i as int)),
            decreases n - i,
        {
            let ghost k = players_before(es, i as int);
            proof {
                assert(world@[i as int] == es[i as int]);
                assert(world@[i as int] == world.entities@[i as int]@);
                assert(players_before(es, i + 1) == k + (if es[i as int].player { 1nat } else { 0nat }));
                if k < q.len() {
                    assert(keys_left(q, k).len() == q.len() - k);
                    assert(keys_left(q, k).drop_last() =~= keys_left(q, k + 1));
                } else {
                    assert(keys_left(q, k).len() == 0);
                    assert(keys_left(q, k + 1).len() == 0);
                }
            }
            if world.entities[i].player.is_some() {
                match input_queue.keys_pressed.pop() {
                    Some(key) => {
                        let position = apply_key(world.entities[i].position, key);
                        world.set_position(i, position);
                    },
                    None => {},
                }
            }
            i += 1;
        }
        proof {
            assert(world@ =~= after_input(es, q));
        }
    }
}

} // verus!
