use vstd::prelude::*;
use crate::world::{EntityModel, World};

verus! {

/// Width and height of one grid cell, in pixels.
pub const TILE_WIDTH: u32 = 32;

/// One image to draw, with the pixel coordinates of its top left corner.
pub struct DrawCommand {
    pub x: u32,
    pub y: u32,
    pub path: String,
}

pub struct DrawCommandModel {
    pub x: nat,
    pub y: nat,
    pub path: Seq<char>,
}

impl View for DrawCommand {
    type V = DrawCommandModel;

    open spec fn view(&self) -> DrawCommandModel {
        DrawCommandModel { x: self.x as nat, y: self.y as nat, path: self.path@ }
    }
}

/// Entity `a` is drawn before entity `b`: it lies deeper, or as deep and was created first.
pub open spec fn draws_before(es: Seq<EntityModel>, a: int, b: int) -> bool {
    es[a].position.z < es[b].position.z || (es[a].position.z == es[b].position.z && a < b)
}

/// `ord` lists every entity once, deeper ones first and, at equal depth, in creation order.
pub open spec fn is_draw_order(es: Seq<EntityModel>, ord: Seq<usize>) -> bool {
    &&& ord.len() == es.len()
    &&& forall|k: int| 0 <= k < ord.len() ==> #[trigger] ord[k] < es.len()
    &&& forall|k1: int, k2: int|
        0 <= k1 < k2 < ord.len() ==> draws_before(es, #[trigger] ord[k1] as int, #[trigger] ord[k2] as int)
    &&& forall|i: usize| i < es.len() ==> #[trigger] ord.contains(i)
}

/// What is drawn for an entity: its image at its cell, scaled by the tile width.
pub open spec fn draw_of(e: EntityModel) -> DrawCommandModel {
    DrawCommandModel {
        x: (e.position.x * TILE_WIDTH) as nat,
        y: (e.position.y * TILE_WIDTH) as nat,
        path: e.path,
    }
}

proof fn lemma_draw_order_prefix(es: Seq<EntityModel>, a: Seq<usize>, b: Seq<usize>, k: int)
    requires
        is_draw_order(es, a),
        is_draw_order(es, b),
        0 <= k <= a.len(),
    ensures
        forall|j: int| 0 <= j < k ==> a[j] == b[j],
    decreases k,
{
    if k > 0 {
        lemma_draw_order_prefix(es, a, b, k - 1);
        let x = a[k - 1];
        let y = b[k - 1];
        if x != y {
            assert(a.contains(y));
            let m = choose|m: int| 0 <= m < a.len() && a[m] == y;
            assert(b.contains(x));
            let n = choose|n: int| 0 <= n < b.len() && b[n] == x;
            if m < k - 1 {
                assert(b[m] == y);
                assert(draws_before(es, b[m] as int, b[k - 1] as int));
            } else if n < k - 1 {
                assert(a[n] == x);
                assert(draws_before(es, a[n] as int, a[k - 1] as int));
            } else {
                assert(draws_before(es, a[k - 1] as int, a[m] as int));
                assert(draws_before(es, b[k - 1] as int, b[n] as int));
            }
        }
    }
}

/// There is only one draw order of a given list of entities, so the order that
/// `draw_order` returns, and the commands of `draw_list`, are fully determined.
pub proof fn lemma_draw_order_unique(es: Seq<EntityModel>, a: Seq<usize>, b: Seq<usize>)
    requires
        is_draw_order(es, a),
        is_draw_order(es, b),
    ensures
        a == b,
{
    lemma_draw_order_prefix(es, a, b, a.len() as int);
    assert(a =~= b);
}

/// The indices of the entities in the order they are drawn.
pub fn draw_order(world: &World) -> (r: Vec<usize>)
    ensures
        is_draw_order(world@, r@),
{
    let ghost es = world@;
    let n = world.entities.len();
    let mut ord: Vec<usize> = Vec::new();
    let mut i: usize = 0;
    while i < n
        invariant
            i <= n == es.len(),
            es == world@,
            ord@.len() == i,
            forall|k: int| 0 <= k < ord@.len() ==> #[trigger] ord@[k] < i,
            forall|k1: int, k2: int|
                0 <= k1 < k2 < ord@.len() ==> draws_before(es, #[trigger] ord@[k1] as int, #[trigger] ord@[k2] as int),
            forall|j: usize| j < i ==> #[trigger] ord@.contains(j),
        decreases n - i,
    {
        let z = world.entities[i].position.z;
        proof {
            assert(world@[i as int] == world.entities@[i as int]@);
        }
        let mut p: usize = 0;
        while p < ord.len() && world.entities[ord[p]].position.z <= z
            invariant
                i < n == es.len(),
                es == world@,
                z == es[i as int].position.z,
                p <= ord@.len() == i,
                forall|k: int| 0 <= k < ord@.len() ==> #[trigger] ord@[k] < i,
                forall|k: int| 0 <= k < p ==> es[#[trigger] ord@[k] as int].position.z <= z,
            decreases ord@.len() - p,
        {
            proof {
                assert(world@[ord@[p as int] as int] == world.entities@[ord@[p as int] as int]@);
            }
            p += 1;
        }
        proof {
            if p < ord@.len() {
                assert(world@[ord@[p as int] as int] == world.entities@[ord@[p as int] as int]@);
                assert forall|k: int| p <= k < ord@.len() implies es[#[trigger] ord@[k] as int].position.z > z by {
                    if k > p {
                        assert(draws_before(es, ord@[p as int] as int, ord@[k] as int));
                    }
                }
            }
        }
        let ghost prev = ord@;
        ord.insert(p, i);
        proof {
            assert forall|k1: int, k2: int|
                0 <= k1 < k2 < ord@.len() implies draws_before(es, #[trigger] ord@[k1] as int, #[trigger] ord@[k2] as int) by {
                if k1 < p && k2 == p {
                } else if k1 == p {
                    assert(ord@[k2] == prev[k2 - 1]);
                } else if k2 < p {
                    assert(draws_before(es, prev[k1] as int, prev[k2] as int));
                } else {
                    let a = if k1 < p { k1 } else { k1 - 1 };
                    assert(ord@[k1] == prev[a]);
                    assert(ord@[k2] == prev[k2 - 1]);
                    assert(draws_before(es, prev[a] as int, prev[k2 - 1] as int));
                }
            }
            assert forall|j: usize| j < i + 1 implies #[trigger] ord@.contains(j) by {
                if j == i {
                    assert(ord@[p as int] == i);
                } else {
                    assert(prev.contains(j));
                    let k = choose|k: int| 0 <= k < prev.len() && prev[k] == j;
                    if k < p {
                        assert(ord@[k] == prev[k]);
                    } else {
                        assert(ord@[k + 1] == prev[k]);
                    }
                }
            }
            assert forall|k: int| 0 <= k < ord@.len() implies #[trigger] ord@[k] < i + 1 by {
                if k < p {
                    assert(ord@[k] == prev[k]);
                } else if k > p {
                    assert(ord@[k] == prev[k - 1]);
                }
            }
        }
        i += 1;
    }
    ord
}

/// What to draw, in order: each entity's image at its cell, deeper entities first.
pub fn draw_list(world: &World) -> (r: Vec<DrawCommand>)
    ensures
        exists|ord: Seq<usize>|
            is_draw_order(world@, ord) && r@.len() == ord.len() && forall|k: int|
                0 <= k < ord.len() ==> #[trigger] r@[k]@ == draw_of(world@[ord[k] as int]),
{
    let ord = draw_order(world);
    let mut r: Vec<DrawCommand> = Vec::new();
    let mut k: usize = 0;
    while k < ord.len()
        invariant
            is_draw_order(world@, ord@),
            k <= ord@.len(),
            r@.len() == k,
            forall|j: int| 0 <= j < k ==> #[trigger] r@[j]@ == draw_of(world@[ord@[j] as int]),
        decreases ord@.len() - k,
    {
        let e = &world.entities[ord[k]];
        proof {
            assert(ord@[k as int] < world@.len());
            assert(world@[ord@[k as int] as int] == world.entities@[ord@[k as int] as int]@);
        }
        r.push(DrawCommand {
            x: e.position.x as u32 * TILE_WIDTH,
            y: e.position.y as u32 * TILE_WIDTH,
            path: e.renderable.path.clone(),
        });
        k += 1;
    }
    r
}

} // verus!
