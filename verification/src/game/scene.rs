//! The scene record: which room is shown and which entities it created.
use vstd::prelude::*;
use vstd::utf8::*;
use crate::game::room::{kind_of, EntityKind, Layer, LayerType, MapEntity};

verus! {

/// The scene of one room: its position in the world map, and the entities
/// it created (so that they can be removed when the scene ends).
pub struct GameScene {
    pub room_x: i32,
    pub room_y: i32,
    pub entities: Vec<u32>,
}

impl GameScene {
    /// The scene of room `(x, y)`, with no entity yet.
    pub fn with_room(x: i32, y: i32) -> (r: GameScene)
        ensures
            r.room_x == x,
            r.room_y == y,
            r.entities@ == Seq::<u32>::empty(),
    {
        GameScene { room_x: x, room_y: y, entities: Vec::new() }
    }

    /// Records that the scene created entity `id`.
    pub fn track(&mut self, id: u32)
        ensures
            final(self).entities@ == old(self).entities@.push(id),
            final(self).room_x == old(self).room_x,
            final(self).room_y == old(self).room_y,
    {
        self.entities.push(id);
    }

    /// Hands out the entities the scene created, in creation order, and
    /// forgets them.
    pub fn release_entities(&mut self) -> (r: Vec<u32>)
        ensures
            r@ == old(self).entities@,
            final(self).entities@ == Seq::<u32>::empty(),
            final(self).room_x == old(self).room_x,
            final(self).room_y == old(self).room_y,
    {
        let mut taken: Vec<u32> = Vec::new();
        std::mem::swap(&mut taken, &mut self.entities);
        taken
    }
}

/// What an entity placed in a room is given in the scene, besides its
/// position and its sprite.
#[derive(Debug, PartialEq, Eq)]
pub enum Spawn {
    /// A light, with a switch operated by the button named `button`.
    Light { button: &'static str },
    /// A button of that name, not pressed.
    Button { name: String },
    /// Nothing more.
    Sprite,
}

/// Where a placed entity appears in the world, the sprite it shows (named
/// by its identifier), and what else it is given.
#[derive(Debug, PartialEq, Eq)]
pub struct SpawnPlan {
    pub x: i32,
    pub y: i32,
    pub sprite: String,
    pub spawn: Spawn,
}

/// Whether the entity `e` placed in the room at `(room_x, room_y)` can be
/// spawned: its position in the world fits in an `i32`, and a button has a
/// custom field to name it.
pub open spec fn spawnable(room_x: i32, room_y: i32, e: MapEntity) -> bool {
    &&& i32::MIN <= room_x + e.px <= i32::MAX
    &&& i32::MIN <= room_y + e.py <= i32::MAX
    &&& kind_of(encode_utf8(e.identifier@)) == EntityKind::Button ==> e.custom_fields@.len() > 0
}

/// Whether `p` is the spawn plan of the entity `e` placed in the room at
/// `(room_x, room_y)`: it appears at the sum of the two positions and shows
/// the sprite of its identifier; a light gets a switch operated by button
/// "b3", a button is named by the first of its custom fields.
pub open spec fn plan_of(room_x: i32, room_y: i32, e: MapEntity, p: SpawnPlan) -> bool {
    &&& p.x == room_x + e.px
    &&& p.y == room_y + e.py
    &&& p.sprite@ == e.identifier@
    &&& match kind_of(encode_utf8(e.identifier@)) {
        EntityKind::Light => p.spawn matches Spawn::Light { button } && button@ == "b3"@,
        EntityKind::Button => p.spawn matches Spawn::Button { name } && name@ == e.custom_fields@[0]@,
        EntityKind::Other => p.spawn == Spawn::Sprite,
    }
}

/// The entities placed in the entity layers of `layers`, layer by layer.
pub open spec fn placed_entities(layers: Seq<Layer>) -> Seq<MapEntity>
    decreases layers.len(),
{
    if layers.len() == 0 {
        Seq::empty()
    } else {
        let before = placed_entities(layers.drop_last());
        if layers.last().kind == LayerType::Entities {
            before + layers.last().entities@
        } else {
            before
        }
    }
}

/// The spawn plan of the entity `e` placed in the room at `(room_x, room_y)`.
pub fn spawn_plan(room_x: i32, room_y: i32, e: &MapEntity) -> (r: SpawnPlan)
    requires
        spawnable(room_x, room_y, *e),
    ensures
        plan_of(room_x, room_y, *e, r),
{
    let spawn = match e.kind() {
        EntityKind::Light => Spawn::Light { button: "b3" },
        EntityKind::Button => Spawn::Button { name: e.custom_fields[0].clone() },
        EntityKind::Other => Spawn::Sprite,
    };
    SpawnPlan { x: room_x + e.px, y: room_y + e.py, sprite: e.identifier.clone(), spawn }
}

/// The spawn plans of all entities placed in the entity layers of a room
/// at `(room_x, room_y)`, layer by layer and in placement order.
pub fn spawn_list(room_x: i32, room_y: i32, layers: &[Layer]) -> (r: Vec<SpawnPlan>)
    requires
        forall|i: int, j: int|
            0 <= i < layers@.len() && layers@[i].kind == LayerType::Entities && 0 <= j
                < layers@[i].entities@.len() ==> spawnable(room_x, room_y, #[trigger] layers@[i].entities@[j]),
    ensures
        r@.len() == placed_entities(layers@).len(),
        forall|k: int| 0 <= k < r@.len() ==> plan_of(room_x, room_y, placed_entities(layers@)[k], #[trigger] r@[k]),
{
    let mut r: Vec<SpawnPlan> = Vec::new();
    let mut i: usize = 0;
    while i < layers.len()
        invariant
            i <= layers@.len(),
            forall|i: int, j: int|
                0 <= i < layers@.len() && layers@[i].kind == LayerType::Entities && 0 <= j
                    < layers@[i].entities@.len() ==> spawnable(room_x, room_y, #[trigger] layers@[i].entities@[j]),
            r@.len() == placed_entities(layers@.take(i as int)).len(),
            forall|k: int| 0 <= k < r@.len() ==> plan_of(room_x, room_y, placed_entities(layers@.take(i as int))[k], #[trigger] r@[k]),
        decreases layers@.len() - i,
    {
        let ghost before = placed_entities(layers@.take(i as int));
        proof {
            assert(layers@.take(i + 1).drop_last() =~= layers@.take(i as int));
        }
        if layers[i].kind == LayerType::Entities {
            let entities = &layers[i].entities;
            let mut j: usize = 0;
            while j < entities.len()
                invariant
                    j <= entities@.len(),
                    entities@ == layers@[i as int].entities@,
                    layers@[i as int].kind == LayerType::Entities,
                    i < layers@.len(),
                    forall|i: int, j: int|
                        0 <= i < layers@.len() && layers@[i].kind == LayerType::Entities && 0 <= j
                            < layers@[i].entities@.len() ==> spawnable(room_x, room_y, #[trigger] layers@[i].entities@[j]),
                    r@.len() == before.len() + j,
                    forall|k: int| 0 <= k < before.len() ==> plan_of(room_x, room_y, before[k], #[trigger] r@[k]),
                    forall|k: int| 0 <= k < j ==> plan_of(room_x, room_y, entities@[k], #[trigger] r@[before.len() + k]),
                decreases entities@.len() - j,
            {
                assert(spawnable(room_x, room_y, layers@[i as int].entities@[j as int]));
                let plan = spawn_plan(room_x, room_y, &entities[j]);
                let ghost prev = r@;
                r.push(plan);
                proof {
                    assert forall|k: int| 0 <= k < j + 1 implies plan_of(room_x, room_y, entities@[k], #[trigger] r@[before.len() + k]) by {
                        if k < j {
                            assert(r@[before.len() + k] == prev[before.len() + k]);
                        }
                    }
                }
                j = j + 1;
            }
            proof {
                let after = placed_entities(layers@.take(i + 1));
                assert(after == before + entities@);
                assert forall|k: int| 0 <= k < r@.len() implies plan_of(room_x, room_y, after[k], #[trigger] r@[k]) by {
                    if k >= before.len() {
                        assert(r@[before.len() + (k - before.len())] == r@[k]);
                    }
                }
            }
        } else {
            proof {
                assert(placed_entities(layers@.take(i + 1)) == before);
            }
        }
        i = i + 1;
    }
    proof {
        assert(layers@.take(layers@.len() as int) =~= layers@);
    }
    r
}

/// Which room the player is in, and the scene showing it.
pub struct SceneSystem {
    pub initialised: bool,
    pub scene: GameScene,
}

impl SceneSystem {
    /// Not yet initialised, showing room `(0, 0)`.
    pub fn new() -> (r: SceneSystem)
        ensures
            !r.initialised,
            r.scene.room_x == 0,
            r.scene.room_y == 0,
            r.scene.entities@ == Seq::<u32>::empty(),
    {
        SceneSystem { initialised: false, scene: GameScene::with_room(0, 0) }
    }

    /// Whether the player, now in room `(room_x, room_y)`, has left the
    /// room of the scene shown.
    pub fn room_changed(&self, room_x: usize, room_y: usize) -> (r: bool)
        ensures
            r == (room_x != self.scene.room_x as usize || room_y != self.scene.room_y as usize),
    {
        room_x != self.scene.room_x as usize || room_y != self.scene.room_y as usize
    }
}

} // verus!
