//! Rooms as they are saved: layers of tiles and of placed entities.
use vstd::prelude::*;
use vstd::utf8::*;
use crate::game::{GAME_TILE_COUNT, GAME_TILE_WIDTH};

verus! {

/// Whether a tile blocks movement.
#[derive(Clone, Copy, PartialEq, Eq, Debug, Structural)]
pub enum TileType {
    Empty,
    Solid,
}

impl TileType {
    /// The other kind.
    pub open spec fn flipped(self) -> TileType {
        match self {
            TileType::Empty => TileType::Solid,
            TileType::Solid => TileType::Empty,
        }
    }

    /// The other kind (the editor toggles a tile with it).
    pub fn other(&self) -> (r: TileType)
        ensures
            r == self.flipped(),
    {
        match self {
            TileType::Empty => TileType::Solid,
            TileType::Solid => TileType::Empty,
        }
    }
}

/// Toggling twice gives the kind back, and toggling always changes it.
pub proof fn lemma_other_involution(t: TileType)
    ensures
        t.flipped().flipped() == t,
        t.flipped() != t,
{
}

/// A tile: where its image is in the tileset, in pixels, and its kind.
#[derive(Clone, Copy, PartialEq, Eq, Debug, Structural)]
pub struct Tile {
    pub src_x: i64,
    pub src_y: i64,
    pub kind: TileType,
}

impl Tile {
    /// The empty tile at the tileset's origin.
    pub open spec fn blank() -> Tile {
        Tile { src_x: 0, src_y: 0, kind: TileType::Empty }
    }
}

impl Default for Tile {
    /// The empty tile at the tileset's origin.
    fn default() -> (r: Tile)
        ensures
            r == Tile::blank(),
    {
        Tile { src_x: 0, src_y: 0, kind: TileType::Empty }
    }
}

/// Which of the two tile layers.
#[derive(PartialEq, Eq, Debug, Clone, Copy, Structural)]
pub enum TileLayerType {
    Foreground,
    Background,
}

/// What a layer holds.
#[derive(PartialEq, Eq, Debug, Clone, Copy, Structural)]
pub enum LayerType {
    Tiles(TileLayerType),
    Entities,
}

/// An entity placed in a room: its position in the room, its kind and
/// the values set on it in the editor.
#[derive(Debug, Clone)]
pub struct MapEntity {
    pub px: i32,
    pub py: i32,
    pub identifier: String,
    pub custom_fields: Vec<String>,
}

/// What an entity placed in a room becomes in the scene.
#[derive(Clone, Copy, PartialEq, Eq, Debug, Structural)]
pub enum EntityKind {
    /// A light with its switch.
    Light,
    /// A floor button.
    Button,
    /// Just a sprite.
    Other,
}

/// The UTF-8 bytes of "Light".
pub open spec fn light_prefix() -> Seq<u8> {
    seq![76u8, 105u8, 103u8, 104u8, 116u8]
}

/// The UTF-8 bytes of "Button".
pub open spec fn button_name() -> Seq<u8> {
    seq![66u8, 117u8, 116u8, 116u8, 111u8, 110u8]
}

/// What an identifier (by its UTF-8 bytes) stands for: identifiers that
/// start with "Light" are lights, "Button" is a button.
pub open spec fn kind_of(id: Seq<u8>) -> EntityKind {
    if light_prefix().len() <= id.len() && id.subrange(0, light_prefix().len() as int) == light_prefix() {
        EntityKind::Light
    } else if id == button_name() {
        EntityKind::Button
    } else {
        EntityKind::Other
    }
}

/// Whether two byte strings are equal.
fn same_bytes(a: &[u8], b: &[u8]) -> (r: bool)
    ensures
        r == (a@ == b@),
{
    if a.len() != b.len() {
        return false;
    }
    let mut i: usize = 0;
    while i < a.len()
        invariant
            i <= a@.len(),
            a@.len() == b@.len(),
            forall|j: int| 0 <= j < i ==> a@[j] == b@[j],
        decreases a@.len() - i,
    {
        if a[i] != b[i] {
            return false;
        }
        i = i + 1;
    }
    assert(a@ =~= b@);
    true
}

impl MapEntity {
    /// What the entity becomes in the scene, by its identifier.
    pub fn kind(&self) -> (r: EntityKind)
        ensures
            r == kind_of(encode_utf8(self.identifier@)),
    {
        let b = crate::aseprite::text::string_bytes(&self.identifier);
        let light: [u8; 5] = [76, 105, 103, 104, 116];
        let button: [u8; 6] = [66, 117, 116, 116, 111, 110];
        assert(light@ =~= light_prefix());
        assert(button@ =~= button_name());
        if b.len() >= 5 && same_bytes(vstd::slice::slice_subrange(b, 0, 5), vstd::array::array_as_slice(&light)) {
            return EntityKind::Light;
        }
        if same_bytes(b, vstd::array::array_as_slice(&button)) {
            return EntityKind::Button;
        }
        EntityKind::Other
    }
}

/// The first layer that holds tiles.
pub fn first_tile_layer(layers: &[Layer]) -> (r: Option<usize>)
    ensures
        match r {
            Some(k) => k < layers@.len() && layers@[k as int].kind is Tiles && forall|j: int|
                0 <= j < k ==> !(layers@[j].kind is Tiles),
            None => forall|j: int| 0 <= j < layers@.len() ==> !(layers@[j].kind is Tiles),
        },
{
    let mut i: usize = 0;
    while i < layers.len()
        invariant
            i <= layers@.len(),
            forall|j: int| 0 <= j < i ==> !(layers@[j].kind is Tiles),
        decreases layers@.len() - i,
    {
        match layers[i].kind {
            LayerType::Tiles(_) => return Some(i),
            LayerType::Entities => {},
        }
        i = i + 1;
    }
    None
}

/// The index of the cell `(x, y)` in the row-major tile grid.
pub open spec fn cell_index(x: int, y: int) -> int {
    y * GAME_TILE_WIDTH + x
}

/// The cell of index `i`: column and row.
pub open spec fn cell_at(i: int) -> (usize, usize) {
    ((i % GAME_TILE_WIDTH as int) as usize, (i / GAME_TILE_WIDTH as int) as usize)
}

/// The grid of tiles of one room layer, row by row.
#[derive(Debug, Clone)]
pub struct Tiles {
    tiles: Vec<Tile>,
}

impl View for Tiles {
    type V = Seq<Tile>;

    closed spec fn view(&self) -> Seq<Tile> {
        self.tiles@
    }
}

/// The solid tiles of the first `n` cells of `cells`, in order, with their
/// column and row.
pub open spec fn solid_tiles(cells: Seq<Tile>, n: nat) -> Seq<(usize, usize, Tile)>
    decreases n,
{
    if n == 0 {
        Seq::empty()
    } else {
        let before = solid_tiles(cells, (n - 1) as nat);
        let i = n - 1;
        if cells[i].kind == TileType::Solid {
            before.push((cell_at(i).0, cell_at(i).1, cells[i]))
        } else {
            before
        }
    }
}

impl Tiles {
    /// Every room has the same number of cells.
    pub open spec fn wf(&self) -> bool {
        self@.len() == GAME_TILE_COUNT
    }

    /// The number of cells of the grid.
    pub fn cell_count(&self) -> (r: usize)
        ensures
            r == self@.len(),
    {
        self.tiles.len()
    }

    /// A grid of empty tiles.
    pub fn empty() -> (r: Tiles)
        ensures
            r.wf(),
            r@ == Seq::new(GAME_TILE_COUNT as nat, |i: int| Tile::blank()),
    {
        let mut tiles: Vec<Tile> = Vec::new();
        let mut i: usize = 0;
        while i < GAME_TILE_COUNT
            invariant
                i <= GAME_TILE_COUNT,
                tiles@.len() == i,
                forall|j: int| 0 <= j < i ==> #[trigger] tiles@[j] == Tile::blank(),
            decreases GAME_TILE_COUNT - i,
        {
            tiles.push(Tile::default());
            i = i + 1;
        }
        let r = Tiles { tiles };
        assert(r@ =~= Seq::new(GAME_TILE_COUNT as nat, |i: int| Tile::blank()));
        r
    }

    /// A grid holding `cells`, row by row.  There must be one per cell.
    pub fn from_cells(cells: Vec<Tile>) -> (r: Tiles)
        requires
            cells@.len() == GAME_TILE_COUNT,
        ensures
            r.wf(),
            r@ == cells@,
    {
        Tiles { tiles: cells }
    }

    /// Puts `tile` at column `x` of row `y`.
    pub fn set(&mut self, x: usize, y: usize, tile: Tile)
        requires
            old(self).wf(),
            cell_index(x as int, y as int) < GAME_TILE_COUNT,
        ensures
            final(self).wf(),
            final(self)@ == old(self)@.update(cell_index(x as int, y as int), tile),
    {
        let index = y * GAME_TILE_WIDTH + x;
        self.tiles.set(index, tile);
    }

    /// The tile at column `x` of row `y`.
    pub fn get(&self, x: usize, y: usize) -> (r: &Tile)
        requires
            self.wf(),
            cell_index(x as int, y as int) < GAME_TILE_COUNT,
        ensures
            *r == self@[cell_index(x as int, y as int)],
    {
        &self.tiles[y * GAME_TILE_WIDTH + x]
    }

    /// The tile at column `x` of row `y`, to be changed in place.
    pub fn get_mut(&mut self, x: usize, y: usize) -> (r: &mut Tile)
        requires
            old(self).wf(),
            cell_index(x as int, y as int) < GAME_TILE_COUNT,
        ensures
            *r == old(self)@[cell_index(x as int, y as int)],
            final(self).wf(),
            final(self)@ == old(self)@.update(cell_index(x as int, y as int), *final(r)),
    {
        let index = y * GAME_TILE_WIDTH + x;
        &mut self.tiles[index]
    }

    /// The collision grid of the layer, row by row: a cell is blocked
    /// exactly where its tile is solid.
    pub fn collision_grid(&self) -> (r: Vec<bool>)
        requires
            self.wf(),
        ensures
            r@.len() == GAME_TILE_COUNT,
            forall|i: int| 0 <= i < GAME_TILE_COUNT ==> #[trigger] r@[i] == (self@[i].kind == TileType::Solid),
    {
        let mut r: Vec<bool> = Vec::new();
        let mut i: usize = 0;
        while i < self.tiles.len()
            invariant
                self.wf(),
                i <= GAME_TILE_COUNT,
                r@.len() == i,
                forall|j: int| 0 <= j < i ==> #[trigger] r@[j] == (self@[j].kind == TileType::Solid),
            decreases GAME_TILE_COUNT - i,
        {
            r.push(self.tiles[i].kind == TileType::Solid);
            i = i + 1;
        }
        r
    }

    /// The solid tiles in row-major order, each with its column and row.
    pub fn solid(&self) -> (r: Vec<(usize, usize, Tile)>)
        requires
            self.wf(),
        ensures
            r@ == solid_tiles(self@, GAME_TILE_COUNT as nat),
    {
        let mut r: Vec<(usize, usize, Tile)> = Vec::new();
        let mut i: usize = 0;
        while i < self.tiles.len()
            invariant
                self.wf(),
                i <= GAME_TILE_COUNT,
                r@ == solid_tiles(self@, i as nat),
            decreases GAME_TILE_COUNT - i,
        {
            let tile = self.tiles[i];
            if tile.kind == TileType::Solid {
                r.push((i % GAME_TILE_WIDTH, i / GAME_TILE_WIDTH, tile));
            }
            i = i + 1;
        }
        r
    }
}

/// A walk over the solid tiles of a grid, in row-major order, each handed
/// out with its column and row.
pub struct TileIterator<'a> {
    tiles: &'a [Tile],
    index: usize,
}

impl<'a> TileIterator<'a> {
    /// The cells walked over.
    pub closed spec fn cells(&self) -> Seq<Tile> {
        self.tiles@
    }

    /// How many cells have been passed.
    pub closed spec fn position(&self) -> nat {
        self.index as nat
    }

    /// The walk never passes the end of the cells.
    pub open spec fn wf(&self) -> bool {
        self.position() <= self.cells().len()
    }

    /// The next solid tile with its column and row, or `None` once every
    /// solid tile has been handed out.  What has been handed out after the
    /// call is what the solid-tile listing holds of the cells passed.
    pub fn next(&mut self) -> (r: Option<(usize, usize, Tile)>)
        requires
            old(self).wf(),
        ensures
            final(self).wf(),
            final(self).position() <= final(self).cells().len(),
            final(self).cells() == old(self).cells(),
            old(self).position() <= final(self).position(),
            forall|k: int|
                old(self).position() <= k < final(self).position() - 1
                    ==> (#[trigger] old(self).cells()[k]).kind != TileType::Solid,
            match r {
                Some(e) => {
                    let i = final(self).position() - 1;
                    &&& old(self).position() < final(self).position()
                    &&& old(self).cells()[i].kind == TileType::Solid
                    &&& e == (cell_at(i).0, cell_at(i).1, old(self).cells()[i])
                },
                None => {
                    &&& final(self).position() == old(self).cells().len()
                    &&& old(self).position() < final(self).position()
                        ==> old(self).cells()[final(self).position() - 1].kind != TileType::Solid
                },
            },
            solid_tiles(final(self).cells(), final(self).position()) == match r {
                Some(e) => solid_tiles(old(self).cells(), old(self).position()).push(e),
                None => solid_tiles(old(self).cells(), old(self).position()),
            },
    {
        let ghost start = self.index as nat;
        while self.index < self.tiles.len()
            invariant
                start == old(self).index,
                start <= self.index <= self.tiles@.len(),
                self.tiles@ == old(self).tiles@,
                forall|k: int| start <= k < self.index ==> (#[trigger] self.tiles@[k]).kind != TileType::Solid,
                solid_tiles(self.tiles@, self.index as nat) == solid_tiles(self.tiles@, start),
            decreases self.tiles@.len() - self.index,
        {
            let i = self.index;
            let tile = self.tiles[i];
            self.index = i + 1;
            if tile.kind == TileType::Solid {
                let x = i % GAME_TILE_WIDTH;
                let y = i / GAME_TILE_WIDTH;
                assert(solid_tiles(self.tiles@, self.index as nat) == solid_tiles(self.tiles@, i as nat).push((x, y, tile)));
                return Some((x, y, tile));
            }
            assert(solid_tiles(self.tiles@, self.index as nat) == solid_tiles(self.tiles@, i as nat));
        }
        None
    }
}

impl Tiles {
    /// A walk over the solid tiles of the grid, from the first cell.
    pub fn iter(&self) -> (r: TileIterator<'_>)
        ensures
            r.wf(),
            r.cells() == self@,
            r.position() == 0,
    {
        TileIterator { tiles: self.tiles.as_slice(), index: 0 }
    }
}

/// What `get` reads back of `set`: the tile written at a cell, and the
/// old tile at every other cell.
pub proof fn lemma_get_after_set(cells: Seq<Tile>, x: int, y: int, tile: Tile, i: int)
    requires
        cells.len() == GAME_TILE_COUNT,
        0 <= cell_index(x, y) < GAME_TILE_COUNT,
        0 <= i < GAME_TILE_COUNT,
    ensures
        cells.update(cell_index(x, y), tile)[cell_index(x, y)] == tile,
        i != cell_index(x, y) ==> cells.update(cell_index(x, y), tile)[i] == cells[i],
        cells.update(cell_index(x, y), tile).len() == GAME_TILE_COUNT,
{
}

/// What the solid-tile listing reports: each entry is a solid tile at the
/// column and row it reports, entries come in increasing cell order, and
/// every solid cell among the first `n` is reported.
pub proof fn lemma_solid_tiles(cells: Seq<Tile>, n: nat)
    requires
        n <= cells.len(),
        n <= GAME_TILE_COUNT,
    ensures
        forall|k: int|
            0 <= k < solid_tiles(cells, n).len() ==> {
                let (x, y, t) = #[trigger] solid_tiles(cells, n)[k];
                &&& t.kind == TileType::Solid
                &&& x < GAME_TILE_WIDTH
                &&& 0 <= cell_index(x as int, y as int) < n
                &&& t == cells[cell_index(x as int, y as int)]
            },
        forall|k: int, l: int|
            0 <= k < l < solid_tiles(cells, n).len() ==> cell_index(
                (#[trigger] solid_tiles(cells, n)[k]).0 as int,
                solid_tiles(cells, n)[k].1 as int,
            ) < cell_index(
                (#[trigger] solid_tiles(cells, n)[l]).0 as int,
                solid_tiles(cells, n)[l].1 as int,
            ),
        forall|i: int|
            0 <= i < n && (#[trigger] cells[i]).kind == TileType::Solid ==> solid_tiles(
                cells,
                n,
            ).contains((cell_at(i).0, cell_at(i).1, cells[i])),
    decreases n,
{
    if n > 0 {
        let m = (n - 1) as nat;
        lemma_solid_tiles(cells, m);
        let i = m as int;
        assert(cell_index(cell_at(i).0 as int, cell_at(i).1 as int) == i && cell_at(i).0 < GAME_TILE_WIDTH) by {
            assert(0 <= i % 40 < 40 && 0 <= i / 40 <= i && i == (i / 40) * 40 + i % 40) by (nonlinear_arith)
                requires 0 <= i;
        }
        let before = solid_tiles(cells, m);
        if cells[i].kind == TileType::Solid {
            let e = (cell_at(i).0, cell_at(i).1, cells[i]);
            assert(solid_tiles(cells, n) == before.push(e));
            assert forall|j: int| 0 <= j < n && (#[trigger] cells[j]).kind == TileType::Solid implies solid_tiles(
                cells,
                n,
            ).contains((cell_at(j).0, cell_at(j).1, cells[j])) by {
                if j < m {
                    let k = choose|k: int| 0 <= k < before.len() && before[k] == (cell_at(j).0, cell_at(j).1, cells[j]);
                    assert(solid_tiles(cells, n)[k] == before[k]);
                } else {
                    assert(solid_tiles(cells, n)[before.len() as int] == e);
                }
            }
        } else {
            assert(solid_tiles(cells, n) == before);
        }
    }
}

/// A layer of a room: its tileset, what it holds, its tiles and its
/// placed entities.
#[derive(Debug, Clone)]
pub struct Layer {
    pub tileset_id: i64,
    pub kind: LayerType,
    pub tiles: Tiles,
    pub entities: Vec<MapEntity>,
}

impl Layer {
    /// The solid tiles of the layer in row-major order, each with its
    /// column and row.
    pub fn tiles(&self) -> (r: Vec<(usize, usize, Tile)>)
        requires
            self.tiles.wf(),
        ensures
            r@ == solid_tiles(self.tiles@, GAME_TILE_COUNT as nat),
    {
        self.tiles.solid()
    }
}

/// Whether `k` is the first of `layers` that holds tiles of kind `which`.
pub open spec fn first_of_kind(layers: Seq<Layer>, which: TileLayerType, k: int) -> bool {
    &&& 0 <= k < layers.len()
    &&& layers[k].kind == LayerType::Tiles(which)
    &&& forall|j: int| 0 <= j < k ==> (#[trigger] layers[j]).kind != LayerType::Tiles(which)
}

/// The first layer that holds tiles of kind `which`.
pub fn find_tile_layer(layers: &[Layer], which: TileLayerType) -> (r: Option<usize>)
    ensures
        match r {
            Some(k) => first_of_kind(layers@, which, k as int),
            None => forall|j: int| 0 <= j < layers@.len() ==> (#[trigger] layers@[j]).kind != LayerType::Tiles(which),
        },
{
    let mut i: usize = 0;
    while i < layers.len()
        invariant
            i <= layers@.len(),
            forall|j: int| 0 <= j < i ==> (#[trigger] layers@[j]).kind != LayerType::Tiles(which),
        decreases layers@.len() - i,
    {
        if layers[i].kind == LayerType::Tiles(which) {
            return Some(i);
        }
        i = i + 1;
    }
    None
}

/// The map editor's brush: the cell at column `x` of row `y` of the first
/// layer of `which` tiles becomes a solid tile at the tileset's origin.
/// The room must have such a layer.
pub fn paint_solid(layers: &mut Vec<Layer>, which: TileLayerType, x: usize, y: usize)
    requires
        cell_index(x as int, y as int) < GAME_TILE_COUNT,
        exists|k: int| 0 <= k < old(layers)@.len() && (#[trigger] old(layers)@[k]).kind == LayerType::Tiles(which),
        forall|j: int| 0 <= j < old(layers)@.len() ==> (#[trigger] old(layers)@[j]).tiles.wf(),
    ensures
        final(layers)@.len() == old(layers)@.len(),
        exists|k: int|
            #![trigger final(layers)@[k]]
            {
                &&& first_of_kind(old(layers)@, which, k)
                &&& final(layers)@[k].kind == old(layers)@[k].kind
                &&& final(layers)@[k].tileset_id == old(layers)@[k].tileset_id
                &&& final(layers)@[k].entities == old(layers)@[k].entities
                &&& final(layers)@[k].tiles.wf()
                &&& final(layers)@[k].tiles@ == old(layers)@[k].tiles@.update(
                    cell_index(x as int, y as int),
                    Tile { src_x: 0, src_y: 0, kind: TileType::Solid },
                )
                &&& forall|j: int| 0 <= j < old(layers)@.len() && j != k ==> #[trigger] final(layers)@[j] == old(layers)@[j]
            },
{
    let found = find_tile_layer(layers.as_slice(), which);
    match found {
        Some(k) => {
            let tile = Tile { src_x: 0, src_y: 0, kind: TileType::Solid };
            layers[k].tiles.set(x, y, tile);
            assert(first_of_kind(old(layers)@, which, k as int));
        },
        None => {
            let ghost w = choose|k: int| 0 <= k < old(layers)@.len() && (#[trigger] old(layers)@[k]).kind == LayerType::Tiles(which);
            assert(old(layers)@[w].kind == LayerType::Tiles(which));
        },
    }
}

/// A room as it is saved: where it is in the world and its layers.
#[derive(Debug)]
pub struct SavedRoom {
    pub world_position: (u32, u32),
    pub layers: Vec<Layer>,
}

/// The saved world: its size in rooms and the rooms.
#[derive(Debug)]
pub struct MapData {
    pub width: u32,
    pub height: u32,
    pub rooms: Vec<SavedRoom>,
}

} // verus!
