//! The draw batches of the sprite batcher: which ranges of the index buffer
//! are drawn with which material, texture, sampler, blend and stencil
//! state.  Vertex data lives with the caller; the queue counts vertices and
//! writes the indices that refer to them.
use std::rc::Rc;
use vstd::prelude::*;
use crate::graphics::blend;
use crate::graphics::blend::BlendMode;
use crate::graphics::material::{Material, MaterialKey};
use crate::graphics::share;
use crate::graphics::stencil::Stencil;
use crate::graphics::texture::{Texture, TextureSampler};

verus! {

/// A run of triangles drawn with one state: triangles `offset` up to
/// `offset + elements` of the index buffer.
pub struct DrawBatch {
    offset: i64,
    elements: i64,
    material: Material,
    texture: Rc<Texture>,
    sampler: TextureSampler,
    blend: BlendMode,
    stencil: Option<Stencil>,
}

/// A draw batch as a value.
pub struct BatchView {
    pub offset: int,
    pub elements: int,
    pub material: MaterialKey,
    pub texture: Texture,
    pub sampler: TextureSampler,
    pub blend: BlendMode,
    pub stencil: Option<Stencil>,
}

impl View for DrawBatch {
    type V = BatchView;

    closed spec fn view(&self) -> BatchView {
        BatchView {
            offset: self.offset as int,
            elements: self.elements as int,
            material: self.material.key(),
            texture: *self.texture,
            sampler: self.sampler,
            blend: self.blend,
            stencil: self.stencil,
        }
    }
}

/// The batches, the indices written so far, the number of vertices the
/// indices may refer to, the stack of materials saved by `push_material`,
/// and the material a first batch starts with.
pub struct QueueView {
    pub batches: Seq<BatchView>,
    pub indices: Seq<u32>,
    pub vertex_count: int,
    pub stack: Seq<MaterialKey>,
    pub default_material: MaterialKey,
}

/// The batch a queue starts drawing with.
pub open spec fn first_batch(default_material: MaterialKey) -> BatchView {
    BatchView {
        offset: 0,
        elements: 0,
        material: default_material,
        texture: Texture::placeholder(),
        sampler: TextureSampler::standard(),
        blend: blend::normal_mode(),
        stencil: None,
    }
}

impl QueueView {
    /// The batch drawn into.
    pub open spec fn current(self) -> BatchView {
        self.batches.last()
    }

    /// The queue with a batch to draw into: where there is none, the first
    /// batch is started, and the default material is saved on the stack.
    pub open spec fn with_current(self) -> QueueView {
        if self.batches.len() == 0 {
            QueueView {
                batches: seq![first_batch(self.default_material)],
                stack: self.stack.push(self.default_material),
                ..self
            }
        } else {
            self
        }
    }

    /// A new batch that continues the current one's state, starting where
    /// it ends.
    pub open spec fn split(self) -> QueueView {
        let c = self.current();
        QueueView {
            batches: self.batches.push(BatchView { offset: c.offset + c.elements, elements: 0, ..c }),
            ..self
        }
    }

    /// The current batch replaced by `b`.
    pub open spec fn set_current(self, b: BatchView) -> QueueView {
        QueueView { batches: self.batches.update(self.batches.len() - 1, b), ..self }
    }

    /// A change of state: where the current batch already holds triangles
    /// and `differs` holds, a new batch is split off first.
    pub open spec fn split_if(self, differs: bool) -> QueueView {
        if self.current().elements > 0 && differs {
            self.split()
        } else {
            self
        }
    }

    /// The state after a new stencil setting.
    pub open spec fn stencil_set(self, s: Option<Stencil>) -> QueueView {
        let q = self.with_current();
        let q2 = q.split_if(s != q.current().stencil);
        q2.set_current(BatchView { stencil: s, ..q2.current() })
    }

    /// The state after a new sampler.
    pub open spec fn sampler_set(self, s: TextureSampler) -> QueueView {
        let q = self.with_current();
        let q2 = q.split_if(s != q.current().sampler);
        q2.set_current(BatchView { sampler: s, ..q2.current() })
    }

    /// The state after a new texture.
    pub open spec fn texture_set(self, t: Texture) -> QueueView {
        let q = self.with_current();
        let q2 = q.split_if(t != q.current().texture);
        q2.set_current(BatchView { texture: t, ..q2.current() })
    }

    /// The state after a new blend mode: a different one always starts a
    /// new batch, even an empty current one.
    pub open spec fn blend_set(self, b: BlendMode) -> QueueView {
        let q = self.with_current();
        if q.current().blend == b {
            q
        } else {
            let q2 = q.split();
            q2.set_current(BatchView { blend: b, ..q2.current() })
        }
    }

    /// The state after `push_material(m)`: the current material is saved on
    /// the stack, and `m` is drawn with from now on.
    pub open spec fn material_pushed(self, m: MaterialKey) -> QueueView {
        let q = self.with_current();
        let q1 = QueueView { stack: q.stack.push(q.current().material), ..q };
        let q2 = q1.split_if(m != q1.current().material);
        q2.set_current(BatchView { material: m, ..q2.current() })
    }

    /// The state after `pop_material`: the material on top of the stack is
    /// taken off and drawn with from now on.
    pub open spec fn material_popped(self) -> QueueView {
        let top = self.stack.last();
        let q0 = QueueView { stack: self.stack.drop_last(), ..self };
        let q = q0.with_current();
        let q2 = q.split_if(top != q.current().material);
        q2.set_current(BatchView { material: top, ..q2.current() })
    }

    /// `n` more triangles in the current batch, with their indices.
    pub open spec fn drawn(self, new_indices: Seq<u32>, new_vertices: int, n: int) -> QueueView {
        let q = self.with_current();
        QueueView {
            indices: self.indices + new_indices,
            vertex_count: self.vertex_count + new_vertices,
            ..q.set_current(BatchView { elements: q.current().elements + n, ..q.current() })
        }
    }
}

/// The indices of a triangle whose vertices start at `v`.
pub open spec fn triangle_indices(v: u32) -> Seq<u32> {
    seq![v, (v + 1) as u32, (v + 2) as u32]
}

/// The indices of a quad (two triangles) whose four vertices start at `v`:
/// bottom right, top right, bottom left, top left.
pub open spec fn quad_indices(v: u32) -> Seq<u32> {
    seq![(v + 1) as u32, v, (v + 3) as u32, v, (v + 2) as u32, (v + 3) as u32]
}

/// The batches draw the index buffer in order and without gaps, three
/// indices per triangle, and every index refers to a counted vertex.
pub open spec fn well_laid(q: QueueView) -> bool {
    &&& q.batches.len() == 0 ==> q.indices.len() == 0
    &&& q.batches.len() > 0 ==> q.batches[0].offset == 0
    &&& forall|i: int|
        1 <= i < q.batches.len() ==> #[trigger] q.batches[i].offset == q.batches[i - 1].offset
            + q.batches[i - 1].elements
    &&& forall|i: int| 0 <= i < q.batches.len() ==> #[trigger] q.batches[i].elements >= 0
    &&& q.batches.len() > 0 ==> 3 * (q.current().offset + q.current().elements) == q.indices.len()
    &&& forall|j: int| 0 <= j < q.indices.len() ==> #[trigger] q.indices[j] < q.vertex_count
    &&& q.indices.len() <= i64::MAX
}

/// The draw calls for the first `n` batches: for each batch with
/// triangles, its index, its first index in the index buffer and its
/// number of indices.
pub open spec fn draw_plan(batches: Seq<BatchView>, n: int) -> Seq<(usize, i64, i64)>
    decreases n,
{
    if n <= 0 {
        Seq::empty()
    } else {
        let b = batches[n - 1];
        let before = draw_plan(batches, n - 1);
        if b.elements > 0 {
            before.push(((n - 1) as usize, (b.offset * 3) as i64, (b.elements * 3) as i64))
        } else {
            before
        }
    }
}

/// In a well laid queue offsets are not negative.
proof fn lemma_offset_nonneg(q: QueueView, i: int)
    requires
        well_laid(q),
        0 <= i < q.batches.len(),
    ensures
        0 <= q.batches[i].offset,
    decreases i,
{
    if i > 0 {
        lemma_offset_nonneg(q, i - 1);
        assert(q.batches[i].offset == q.batches[i - 1].offset + q.batches[i - 1].elements);
    }
}

/// In a well laid queue every batch ends no later than the current one.
proof fn lemma_end_within(q: QueueView, i: int)
    requires
        well_laid(q),
        0 <= i < q.batches.len(),
    ensures
        q.batches[i].offset + q.batches[i].elements <= q.current().offset + q.current().elements,
    decreases q.batches.len() - i,
{
    if i < q.batches.len() - 1 {
        assert(q.batches[i + 1].offset == q.batches[i].offset + q.batches[i].elements);
        assert(q.batches[i + 1].elements >= 0);
        lemma_end_within(q, i + 1);
    }
}

/// In a well laid queue each batch lies within the index buffer.
proof fn lemma_batch_bounds(q: QueueView, i: int)
    requires
        well_laid(q),
        0 <= i < q.batches.len(),
    ensures
        0 <= q.batches[i].offset,
        0 <= q.batches[i].elements,
        3 * (q.batches[i].offset + q.batches[i].elements) <= q.indices.len(),
{
    lemma_offset_nonneg(q, i);
    lemma_end_within(q, i);
}

/// The sprite batcher's queue of draw batches.
pub struct BatchQueue {
    batches: Vec<DrawBatch>,
    indices: Vec<u32>,
    vertex_count: u32,
    material_stack: Vec<Material>,
    default_material: Material,
}

impl View for BatchQueue {
    type V = QueueView;

    closed spec fn view(&self) -> QueueView {
        QueueView {
            batches: self.batches@.map_values(|b: DrawBatch| b@),
            indices: self.indices@,
            vertex_count: self.vertex_count as int,
            stack: self.material_stack@.map_values(|m: Material| m.key()),
            default_material: self.default_material.key(),
        }
    }
}

impl BatchQueue {
    /// The material of batch `i`.
    pub closed spec fn material_of(&self, i: int) -> Material {
        self.batches@[i].material
    }

    /// The queue is laid out well, and every material in it has a texture
    /// and a sampler per texture uniform.
    pub closed spec fn wf(&self) -> bool {
        &&& well_laid(self@)
        &&& self.default_material.wf()
        &&& forall|i: int| 0 <= i < self.batches@.len() ==> (#[trigger] self.batches@[i]).material.wf()
        &&& forall|i: int| 0 <= i < self.material_stack@.len() ==> (#[trigger] self.material_stack@[i]).wf()
    }

    /// An empty queue whose first batch will use `material`.
    pub fn new(material: Material) -> (r: BatchQueue)
        requires
            material.wf(),
        ensures
            r.wf(),
            r@ == (QueueView {
                batches: Seq::empty(),
                indices: Seq::empty(),
                vertex_count: 0,
                stack: Seq::empty(),
                default_material: material.key(),
            }),
    {
        let r = BatchQueue {
            batches: Vec::new(),
            indices: Vec::new(),
            vertex_count: 0,
            material_stack: Vec::new(),
            default_material: material,
        };
        assert(r@.batches =~= Seq::<BatchView>::empty());
        assert(r@.stack =~= Seq::<MaterialKey>::empty());
        r
    }

    /// Makes sure there is a batch to draw into (see [`QueueView::with_current`]).
    fn ensure_current(&mut self)
        requires
            old(self).wf(),
        ensures
            final(self).wf(),
            final(self)@ == old(self)@.with_current(),
            final(self)@.batches.len() > 0,
    {
        if self.batches.len() == 0 {
            let ghost before = self@;
            let b = DrawBatch {
                offset: 0,
                elements: 0,
                material: self.default_material.duplicate(),
                texture: Rc::new(Texture::default()),
                sampler: TextureSampler::default(),
                blend: blend::normal(),
                stencil: None,
            };
            let saved = self.default_material.duplicate();
            self.batches.push(b);
            self.material_stack.push(saved);
            assert(self@.batches =~= seq![first_batch(before.default_material)]);
            assert(self@.stack =~= before.stack.push(before.default_material));
        }
    }

    /// Takes the current batch out, to be put back with `put_current`.
    fn take_current(&mut self) -> (r: DrawBatch)
        requires
            old(self).batches@.len() > 0,
        ensures
            r@ == old(self)@.current(),
            r.material.wf() == old(self).batches@.last().material.wf(),
            final(self).batches@ == old(self).batches@.drop_last(),
            final(self).indices == old(self).indices,
            final(self).vertex_count == old(self).vertex_count,
            final(self).material_stack == old(self).material_stack,
            final(self).default_material == old(self).default_material,
    {
        self.batches.pop().unwrap()
    }

    /// Splits off a new batch that continues the current one's state.
    fn push_batch(&mut self)
        requires
            old(self).wf(),
            old(self)@.batches.len() > 0,
        ensures
            final(self).wf(),
            final(self)@ == old(self)@.split(),
    {
        let ghost before = self@;
        let n = self.batches.len();
        let c = &self.batches[n - 1];
        assert(self@.batches[n - 1] == c@);
        assert(3 * (c.offset + c.elements) == self.indices@.len());
        assert(self.indices@.len() == self.indices.len());
        let b = DrawBatch {
            offset: c.offset + c.elements,
            elements: 0,
            material: c.material.duplicate(),
            texture: share(&c.texture),
            sampler: c.sampler,
            blend: c.blend,
            stencil: c.stencil,
        };
        self.batches.push(b);
        assert(self@.batches =~= before.split().batches);
    }

    /// Whether two stencil settings are the same.
    fn same_stencil(a: &Option<Stencil>, b: &Option<Stencil>) -> (r: bool)
        ensures
            r == (*a == *b),
    {
        match (a, b) {
            (None, None) => true,
            (Some(x), Some(y)) => *x == *y,
            _ => false,
        }
    }

    /// Draws from now on with stencil setting `stencil`.
    pub fn set_stencil(&mut self, stencil: Option<Stencil>)
        requires
            old(self).wf(),
        ensures
            final(self).wf(),
            final(self)@ == old(self)@.stencil_set(stencil),
    {
        self.ensure_current();
        let n = self.batches.len();
        if self.batches[n - 1].elements > 0 && !Self::same_stencil(&stencil, &self.batches[n - 1].stencil) {
            self.push_batch();
        }
        let ghost mid = self@;
        let mut b = self.take_current();
        b.stencil = stencil;
        self.put_current(b);
        assert(self@.batches =~= mid.set_current(BatchView { stencil, ..mid.current() }).batches);
        assert(self@.stack =~= mid.stack);
    }

    /// Draws from now on with `sampler`.
    pub fn set_sampler(&mut self, sampler: &TextureSampler)
        requires
            old(self).wf(),
        ensures
            final(self).wf(),
            final(self)@ == old(self)@.sampler_set(*sampler),
    {
        self.ensure_current();
        let n = self.batches.len();
        if self.batches[n - 1].elements > 0 && *sampler != self.batches[n - 1].sampler {
            self.push_batch();
        }
        let ghost mid = self@;
        let mut b = self.take_current();
        b.sampler = *sampler;
        self.put_current(b);
        assert(self@.batches =~= mid.set_current(BatchView { sampler: *sampler, ..mid.current() }).batches);
        assert(self@.stack =~= mid.stack);
    }

    /// Draws from now on with `texture`.
    pub fn set_texture(&mut self, texture: Rc<Texture>)
        requires
            old(self).wf(),
        ensures
            final(self).wf(),
            final(self)@ == old(self)@.texture_set(*texture),
    {
        self.ensure_current();
        let n = self.batches.len();
        if self.batches[n - 1].elements > 0 && *texture != *self.batches[n - 1].texture {
            self.push_batch();
        }
        let ghost mid = self@;
        let mut b = self.take_current();
        b.texture = texture;
        self.put_current(b);
        assert(self@.batches =~= mid.set_current(BatchView { texture: *texture, ..mid.current() }).batches);
        assert(self@.stack =~= mid.stack);
    }

    /// Draws from now on with `blend_mode`.
    #[verifier::spinoff_prover]
    pub fn set_blend(&mut self, blend_mode: BlendMode)
        requires
            old(self).wf(),
        ensures
            final(self).wf(),
            final(self)@ == old(self)@.blend_set(blend_mode),
    {
        self.ensure_current();
        let n = self.batches.len();
        if self.batches[n - 1].blend == blend_mode {
            return;
        }
        self.push_batch();
        let ghost mid = self@;
        let mut b = self.take_current();
        b.blend = blend_mode;
        self.put_current(b);
        assert(self@.batches =~= mid.set_current(BatchView { blend: blend_mode, ..mid.current() }).batches);
        assert(self@.stack =~= mid.stack);
    }

    /// Saves the current material and draws from now on with `material`.
    pub fn push_material(&mut self, material: &Material)
        requires
            old(self).wf(),
            material.wf(),
        ensures
            final(self).wf(),
            final(self)@ == old(self)@.material_pushed(material.key()),
    {
        self.ensure_current();
        let ghost q = self@;
        let n = self.batches.len();
        let saved = self.batches[n - 1].material.duplicate();
        self.material_stack.push(saved);
        assert(self@.stack =~= q.stack.push(q.current().material));
        assert(self@.batches =~= q.batches);
        if self.batches[n - 1].elements > 0 && !material.same_as(&self.batches[n - 1].material) {
            self.push_batch();
        }
        let ghost mid = self@;
        let mut b = self.take_current();
        b.material = material.duplicate();
        self.put_current(b);
        assert(self@.batches =~= mid.set_current(BatchView { material: material.key(), ..mid.current() }).batches);
        assert(self@.stack =~= mid.stack);
    }

    /// Draws from now on with the material last saved by `push_material`,
    /// taking it off the stack.  There must be one.
    pub fn pop_material(&mut self)
        requires
            old(self).wf(),
            old(self)@.stack.len() > 0,
        ensures
            final(self).wf(),
            final(self)@ == old(self)@.material_popped(),
    {
        let ghost q = self@;
        let material = self.material_stack.pop().unwrap();
        assert(self@.stack =~= q.stack.drop_last());
        assert(self@.batches =~= q.batches);
        self.ensure_current();
        let n = self.batches.len();
        if self.batches[n - 1].elements > 0 && !material.same_as(&self.batches[n - 1].material) {
            self.push_batch();
        }
        let ghost mid = self@;
        let mut b = self.take_current();
        b.material = material;
        self.put_current(b);
        assert(self@.batches =~= mid.set_current(BatchView { material: q.stack.last(), ..mid.current() }).batches);
        assert(self@.stack =~= mid.stack);
    }

    /// Adds `n` triangles to the current batch, given their indices, which
    /// refer to the `new_vertices` vertices added after the counted ones.
    #[verifier::spinoff_prover]
    #[verifier::rlimit(60)]
    fn draw(&mut self, new_indices: Vec<u32>, new_vertices: u32, n: i64)
        requires
            old(self).wf(),
            1 <= n <= 2,
            new_indices@.len() == 3 * n,
            old(self).vertex_count + new_vertices <= u32::MAX,
            old(self)@.indices.len() + 3 * n <= i64::MAX,
            forall|j: int| 0 <= j < new_indices@.len() ==> old(self).vertex_count <= #[trigger] new_indices@[j]
                < old(self).vertex_count + new_vertices,
        ensures
            final(self).wf(),
            final(self)@ == old(self)@.drawn(new_indices@, new_vertices as int, n as int),
    {
        let ghost before = self@;
        self.ensure_current();
        let ghost mid = self@;
        let k = self.batches.len() - 1;
        assert(self@.batches[k as int] == self.batches@[k as int]@);
        proof {
            lemma_batch_bounds(self@, k as int);
        }
        let mut b = self.take_current();
        b.elements = b.elements + n;
        self.put_current(b);
        let mut add = new_indices;
        let ghost added = add@;
        self.indices.append(&mut add);
        self.vertex_count = self.vertex_count + new_vertices;
        proof {
            let expect = before.drawn(added, new_vertices as int, n as int);
            assert(self@.batches =~= expect.batches);
            assert(self@.stack =~= expect.stack);
            assert(self@.indices =~= expect.indices);
            assert forall|j: int| 0 <= j < self@.indices.len() implies #[trigger] self@.indices[j] < self@.vertex_count by {
                if j >= mid.indices.len() {
                    assert(self@.indices[j] == added[j - mid.indices.len()]);
                } else {
                    assert(self@.indices[j] == mid.indices[j]);
                }
            }
        }
    }

    /// Adds a triangle whose three vertices come next.
    pub fn tri(&mut self)
        requires
            old(self).wf(),
            old(self)@.vertex_count + 3 <= u32::MAX,
            old(self)@.indices.len() + 3 <= i64::MAX,
        ensures
            final(self).wf(),
            final(self)@ == old(self)@.drawn(triangle_indices(old(self)@.vertex_count as u32), 3, 1),
    {
        let v = self.vertex_count;
        let idx = vec![v, v + 1, v + 2];
        assert(idx@ =~= triangle_indices(v));
        self.draw(idx, 3, 1);
    }

    /// Adds a quad (two triangles) whose four vertices come next: bottom
    /// right, top right, bottom left, top left.
    pub fn quad(&mut self)
        requires
            old(self).wf(),
            old(self)@.vertex_count + 4 <= u32::MAX,
            old(self)@.indices.len() + 6 <= i64::MAX,
        ensures
            final(self).wf(),
            final(self)@ == old(self)@.drawn(quad_indices(old(self)@.vertex_count as u32), 4, 2),
    {
        let v = self.vertex_count;
        let idx = vec![v + 1, v, v + 3, v, v + 2, v + 3];
        assert(idx@ =~= quad_indices(v));
        self.draw(idx, 4, 2);
    }

    /// Drops all batches, indices and saved materials.
    pub fn clear(&mut self)
        requires
            old(self).wf(),
        ensures
            final(self).wf(),
            final(self)@ == (QueueView {
                batches: Seq::empty(),
                indices: Seq::empty(),
                vertex_count: 0,
                stack: Seq::empty(),
                ..old(self)@
            }),
    {
        self.batches.clear();
        self.indices.clear();
        self.material_stack.clear();
        self.vertex_count = 0;
        assert(self@.batches =~= Seq::<BatchView>::empty());
        assert(self@.stack =~= Seq::<MaterialKey>::empty());
    }

    /// The indices written so far.
    pub fn indices(&self) -> (r: &Vec<u32>)
        ensures
            r@ == self@.indices,
    {
        &self.indices
    }

    /// How many vertices the indices may refer to.
    pub fn vertex_count(&self) -> (r: u32)
        ensures
            r == self@.vertex_count,
    {
        self.vertex_count
    }

    /// How many materials `push_material` has saved.
    pub fn stack_depth(&self) -> (r: usize)
        ensures
            r == self@.stack.len(),
    {
        self.material_stack.len()
    }

    /// The number of batches.
    pub fn batch_count(&self) -> (r: usize)
        ensures
            r == self@.batches.len(),
    {
        self.batches.len()
    }

    /// The draw calls of a render: for each batch with triangles, its
    /// index, the first index it draws and how many, in batch order.
    pub fn draw_ranges(&self) -> (r: Vec<(usize, i64, i64)>)
        requires
            self.wf(),
        ensures
            r@ == draw_plan(self@.batches, self@.batches.len() as int),
    {
        let mut r: Vec<(usize, i64, i64)> = Vec::new();
        let mut i: usize = 0;
        while i < self.batches.len()
            invariant
                self.wf(),
                i <= self.batches@.len(),
                r@ == draw_plan(self@.batches, i as int),
            decreases self.batches@.len() - i,
        {
            let b = &self.batches[i];
            assert(self@.batches[i as int] == b@);
            proof {
                lemma_batch_bounds(self@, i as int);
            }
            assert(self.indices@.len() == self.indices.len());
            if b.elements > 0 {
                r.push((i, b.offset * 3, b.elements * 3));
            }
            i = i + 1;
        }
        r
    }

    /// The blend mode and stencil setting of batch `i`.
    pub fn batch_state(&self, i: usize) -> (r: (BlendMode, Option<Stencil>))
        requires
            i < self@.batches.len(),
        ensures
            r == (self@.batches[i as int].blend, self@.batches[i as int].stencil),
    {
        assert(self@.batches[i as int] == self.batches@[i as int]@);
        (self.batches[i].blend, self.batches[i].stencil)
    }

    /// The material of batch `i`.
    pub fn batch_material(&self, i: usize) -> (r: &Material)
        requires
            i < self@.batches.len(),
        ensures
            *r == self.material_of(i as int),
            r.key() == self@.batches[i as int].material,
            self.wf() ==> r.wf(),
    {
        assert(self@.batches[i as int] == self.batches@[i as int]@);
        &self.batches[i].material
    }

    /// Before drawing batch `i`: where its material has the uniform `name`,
    /// the batch's texture and sampler are set in that slot.  The uniform,
    /// where there is one, must be a texture uniform.
    pub fn bind_own_texture(&mut self, i: usize, name: &str)
        requires
            old(self).wf(),
            i < old(self)@.batches.len(),
            old(self).material_of(i as int).has(name@) ==> crate::graphics::material::slot_of(
                old(self).material_of(i as int).shader().uniforms@,
                name@,
            ) is Some,
        ensures
            final(self).wf(),
            final(self)@.indices == old(self)@.indices,
            final(self)@.vertex_count == old(self)@.vertex_count,
            final(self)@.stack == old(self)@.stack,
            final(self)@.default_material == old(self)@.default_material,
            final(self)@.batches.len() == old(self)@.batches.len(),
            forall|j: int|
                0 <= j < final(self)@.batches.len() && j != i ==> #[trigger] final(self)@.batches[j]
                    == old(self)@.batches[j],
            ({
                let ob = old(self)@.batches[i as int];
                let nb = final(self)@.batches[i as int];
                let om = old(self).material_of(i as int);
                let nm = final(self).material_of(i as int);
                &&& nb == (BatchView { material: nm.key(), ..ob })
                &&& nm.shader() == om.shader()
                &&& if om.has(name@) {
                    let k = crate::graphics::material::slot_of(om.shader().uniforms@, name@)->0;
                    &&& nm.textures() == om.textures().update(k, ob.texture)
                    &&& nm.samplers() == om.samplers().update(k, ob.sampler)
                } else {
                    nm.textures() == om.textures() && nm.samplers() == om.samplers()
                }
            }),
    {
        let ghost before = self@;
        let mut b = self.batches.remove(i);
        if b.material.has_uniform(name) {
            let t = share(&b.texture);
            let s = b.sampler;
            b.material.set_texture(name, t);
            b.material.set_sampler(name, &s);
        }
        self.batches.insert(i, b);
        proof {
            assert forall|j: int| 0 <= j < self@.batches.len() && j != i implies #[trigger] self@.batches[j]
                == before.batches[j] by {
                assert(self.batches@[j] == old(self).batches@[j]);
            }
            assert(self@.batches[i as int].offset == before.batches[i as int].offset);
            assert(self@.batches[i as int].elements == before.batches[i as int].elements);
        }
    }

    /// Puts `b` back as the current batch.
    fn put_current(&mut self, b: DrawBatch)
        ensures
            final(self).batches@ == old(self).batches@.push(b),
            final(self).indices == old(self).indices,
            final(self).vertex_count == old(self).vertex_count,
            final(self).material_stack == old(self).material_stack,
            final(self).default_material == old(self).default_material,
    {
        self.batches.push(b);
    }
}

/// Every operation keeps the queue well laid: the batches draw the index
/// buffer from its start, each where the one before ends, none past its
/// end, and every index refers to a counted vertex.
pub proof fn lemma_queue_well_laid(q: &BatchQueue)
    requires
        q.wf(),
    ensures
        well_laid(q@),
        forall|i: int|
            0 <= i < q@.batches.len() ==> 0 <= #[trigger] q@.batches[i].offset && 3 * (q@.batches[i].offset
                + q@.batches[i].elements) <= q@.indices.len(),
{
    assert forall|i: int| 0 <= i < q@.batches.len() implies 0 <= #[trigger] q@.batches[i].offset && 3 * (
    q@.batches[i].offset + q@.batches[i].elements) <= q@.indices.len() by {
        lemma_batch_bounds(q@, i);
    }
}

/// A change of texture splits off a new batch exactly when the current one
/// already holds triangles and the texture differs; the new batch starts
/// where the current one ends.  Otherwise the current batch just takes the
/// texture.
pub proof fn lemma_texture_change(q: QueueView, t: Texture)
    requires
        q.batches.len() > 0,
    ensures
        q.current().elements > 0 && t != q.current().texture ==> {
            let r = q.texture_set(t);
            &&& r.batches.len() == q.batches.len() + 1
            &&& r.current().offset == q.current().offset + q.current().elements
            &&& r.current().elements == 0
            &&& r.current().texture == t
            &&& r.batches.take(q.batches.len() as int) == q.batches
        },
        q.current().elements == 0 || t == q.current().texture ==> {
            let r = q.texture_set(t);
            &&& r.batches.len() == q.batches.len()
            &&& r.current() == BatchView { texture: t, ..q.current() }
        },
{
    if q.current().elements > 0 && t != q.current().texture {
        let r = q.texture_set(t);
        assert(r.batches.take(q.batches.len() as int) =~= q.batches);
    }
}

/// Changing the sampler never changes what was already drawn: every batch
/// that holds triangles keeps its whole state (so they are drawn with the
/// sampler they were batched with).  Where the current batch holds
/// triangles and the sampler differs, a new batch is started where it ends;
/// otherwise the current batch just takes the sampler.  Nothing is drawn.
pub proof fn lemma_sampler_change(q: QueueView, s: TextureSampler)
    ensures
        ({
            let r = q.sampler_set(s);
            &&& forall|i: int|
                0 <= i < q.batches.len() && q.batches[i].elements > 0 ==> #[trigger] r.batches[i] == q.batches[i]
            &&& r.current().sampler == s
            &&& r.indices == q.indices
            &&& r.vertex_count == q.vertex_count
        }),
        q.batches.len() > 0 && q.current().elements > 0 && s != q.current().sampler ==> {
            let r = q.sampler_set(s);
            &&& r.batches.len() == q.batches.len() + 1
            &&& r.current().offset == q.current().offset + q.current().elements
            &&& r.current().elements == 0
        },
        q.batches.len() > 0 && (q.current().elements == 0 || s == q.current().sampler) ==> {
            let r = q.sampler_set(s);
            &&& r.batches.len() == q.batches.len()
            &&& r.current() == BatchView { sampler: s, ..q.current() }
        },
{
}

/// Changing the stencil setting never changes what was already drawn, in
/// the same way as a change of sampler.
pub proof fn lemma_stencil_change(q: QueueView, st: Option<Stencil>)
    ensures
        ({
            let r = q.stencil_set(st);
            &&& forall|i: int|
                0 <= i < q.batches.len() && q.batches[i].elements > 0 ==> #[trigger] r.batches[i] == q.batches[i]
            &&& r.current().stencil == st
            &&& r.indices == q.indices
            &&& r.vertex_count == q.vertex_count
        }),
        q.batches.len() > 0 && q.current().elements > 0 && st != q.current().stencil ==> {
            let r = q.stencil_set(st);
            &&& r.batches.len() == q.batches.len() + 1
            &&& r.current().offset == q.current().offset + q.current().elements
            &&& r.current().elements == 0
        },
        q.batches.len() > 0 && (q.current().elements == 0 || st == q.current().stencil) ==> {
            let r = q.stencil_set(st);
            &&& r.batches.len() == q.batches.len()
            &&& r.current() == BatchView { stencil: st, ..q.current() }
        },
{
}

} // verus!
