//! Materials: a shader together with the textures and samplers bound to its
//! texture uniforms.
use std::rc::Rc;
use vstd::prelude::*;
use crate::graphics::share;
use crate::graphics::shader::{Shader, ShaderType, Uniform, UniformType};
use crate::graphics::texture::{Texture, TextureSampler};

verus! {

/// Whether a uniform is a texture slot.
pub open spec fn is_texture_slot(u: Uniform) -> bool {
    u.uniform_type == UniformType::Texture2D
}

/// The texture uniforms of a uniform list, in order: texture slot `k` of a
/// material is the `k`-th of them.
pub open spec fn texture_slots(us: Seq<Uniform>) -> Seq<Uniform> {
    us.filter(|u: Uniform| is_texture_slot(u))
}

/// Whether `k` is the first of `slots` named `name`.
pub open spec fn first_named(slots: Seq<Uniform>, name: Seq<char>, k: int) -> bool {
    &&& 0 <= k < slots.len()
    &&& slots[k].name@ == name
    &&& forall|j: int| 0 <= j < k ==> (#[trigger] slots[j]).name@ != name
}

/// The slot of the texture uniform named `name`: the index, among the
/// texture uniforms, of the first one of that name.
pub open spec fn slot_of(us: Seq<Uniform>, name: Seq<char>) -> Option<int> {
    let slots = texture_slots(us);
    if exists|k: int| first_named(slots, name, k) {
        Some(choose|k: int| first_named(slots, name, k))
    } else {
        None
    }
}

/// `texture_slots` of a prefix grows by the next uniform exactly when that
/// uniform is a texture slot.
proof fn lemma_slots_step(us: Seq<Uniform>, i: int)
    requires
        0 <= i < us.len(),
    ensures
        texture_slots(us.take(i + 1)) == if is_texture_slot(us[i]) {
            texture_slots(us.take(i)).push(us[i])
        } else {
            texture_slots(us.take(i))
        },
{
    reveal(Seq::filter);
    assert(us.take(i + 1).drop_last() =~= us.take(i));
}

/// The texture uniforms of a list are those of a prefix followed by those
/// of the rest.
proof fn lemma_slots_split(us: Seq<Uniform>, i: int)
    requires
        0 <= i <= us.len(),
    ensures
        texture_slots(us) == texture_slots(us.take(i)) + texture_slots(us.skip(i)),
{
    assert(us =~= us.take(i) + us.skip(i));
    Seq::filter_distributes_over_add(us.take(i), us.skip(i), |u: Uniform| is_texture_slot(u));
}

/// There is at most one first uniform of a name.
proof fn lemma_first_named_unique(slots: Seq<Uniform>, name: Seq<char>, k: int, c: int)
    requires
        first_named(slots, name, k),
        first_named(slots, name, c),
    ensures
        k == c,
{
    if c < k {
        assert(slots[c].name@ != name);
    }
    if k < c {
        assert(slots[k].name@ != name);
    }
}

/// The slot a texture is set under by name is a texture uniform of that
/// name: so after `set_texture(name, t)` the binding of that slot in
/// `texture_bindings` holds `t` at the location of the uniform named `name`.
pub proof fn lemma_slot_of_names_a_texture_uniform(us: Seq<Uniform>, name: Seq<char>)
    ensures
        slot_of(us, name) matches Some(k) ==> {
            &&& 0 <= k < texture_slots(us).len()
            &&& texture_slots(us)[k].name@ == name
            &&& texture_slots(us)[k].uniform_type == UniformType::Texture2D
            &&& us.contains(texture_slots(us)[k])
        },
{
    if let Some(k) = slot_of(us, name) {
        let f = |u: Uniform| is_texture_slot(u);
        us.lemma_filter_pred(f, k);
        us.lemma_filter_contains_rev(f, texture_slots(us)[k]);
    }
}

/// A uniform as materials are compared by it.
pub open spec fn uniform_key(u: Uniform) -> (Seq<char>, i32, UniformType, ShaderType) {
    (u.name@, u.location, u.uniform_type, u.shader_type)
}

/// The value a material is compared by.
pub struct MaterialKey {
    pub program: u32,
    pub uniforms: Seq<(Seq<char>, i32, UniformType, ShaderType)>,
    pub textures: Seq<Texture>,
    pub samplers: Seq<TextureSampler>,
}

/// A shader with one texture and one sampler for each of its texture uniforms.
#[derive(PartialEq, Debug, Clone)]
pub struct Material {
    shader: Rc<Shader>,
    textures: Vec<Rc<Texture>>,
    samplers: Vec<TextureSampler>,
}

impl Material {
    /// One texture and one sampler per texture uniform of the shader.
    pub closed spec fn wf(&self) -> bool {
        &&& self.textures@.len() == texture_slots(self.shader.uniforms@).len()
        &&& self.samplers@.len() == texture_slots(self.shader.uniforms@).len()
    }

    pub closed spec fn shader(&self) -> Shader {
        *self.shader
    }

    /// The texture in each slot.
    pub closed spec fn textures(&self) -> Seq<Texture> {
        self.textures@.map_values(|t: Rc<Texture>| *t)
    }

    /// The sampler of each slot.
    pub closed spec fn samplers(&self) -> Seq<TextureSampler> {
        self.samplers@
    }

    /// What two materials are compared by: the shader's program and
    /// uniforms, the textures and the samplers.
    pub closed spec fn key(&self) -> MaterialKey {
        MaterialKey {
            program: self.shader.program,
            uniforms: self.shader.uniforms@.map_values(|u: Uniform| uniform_key(u)),
            textures: self.textures(),
            samplers: self.samplers(),
        }
    }

    /// Whether the two materials have the same shader, textures and samplers.
    pub fn same_as(&self, other: &Material) -> (r: bool)
        ensures
            r == (self.key() == other.key()),
    {
        let a = &self.shader.uniforms;
        let b = &other.shader.uniforms;
        let ghost ka = self.key();
        let ghost kb = other.key();
        if self.shader.program != other.shader.program || a.len() != b.len() || self.textures.len()
            != other.textures.len() || self.samplers.len() != other.samplers.len() {
            proof {
                if ka == kb {
                    assert(ka.uniforms.len() == kb.uniforms.len());
                    assert(ka.textures.len() == kb.textures.len());
                    assert(ka.samplers.len() == kb.samplers.len());
                }
            }
            return false;
        }
        let mut i: usize = 0;
        while i < a.len()
            invariant
                i <= a@.len(),
                a@.len() == b@.len(),
                a@ == self.shader.uniforms@,
                b@ == other.shader.uniforms@,
                ka == self.key(),
                kb == other.key(),
                forall|j: int| 0 <= j < i ==> uniform_key(#[trigger] a@[j]) == uniform_key(b@[j]),
            decreases a@.len() - i,
        {
            let u = &a[i];
            let v = &b[i];
            if u.name != v.name || u.location != v.location || u.uniform_type != v.uniform_type
                || u.shader_type != v.shader_type {
                proof {
                    if ka == kb {
                        assert(ka.uniforms[i as int] == kb.uniforms[i as int]);
                    }
                }
                return false;
            }
            i = i + 1;
        }
        let mut k: usize = 0;
        while k < self.textures.len()
            invariant
                k <= self.textures@.len(),
                self.textures@.len() == other.textures@.len(),
                ka == self.key(),
                kb == other.key(),
                forall|j: int| 0 <= j < k ==> *self.textures@[j] == *other.textures@[j],
            decreases self.textures@.len() - k,
        {
            if *self.textures[k] != *other.textures[k] {
                proof {
                    if ka == kb {
                        assert(ka.textures[k as int] == kb.textures[k as int]);
                    }
                }
                return false;
            }
            k = k + 1;
        }
        let mut m: usize = 0;
        while m < self.samplers.len()
            invariant
                m <= self.samplers@.len(),
                self.samplers@.len() == other.samplers@.len(),
                ka == self.key(),
                kb == other.key(),
                forall|j: int| 0 <= j < m ==> self.samplers@[j] == other.samplers@[j],
            decreases self.samplers@.len() - m,
        {
            if self.samplers[m] != other.samplers[m] {
                proof {
                    if ka == kb {
                        assert(ka.samplers[m as int] == kb.samplers[m as int]);
                    }
                }
                return false;
            }
            m = m + 1;
        }
        proof {
            assert(ka.uniforms =~= kb.uniforms);
            assert(ka.textures =~= kb.textures);
            assert(ka.samplers =~= kb.samplers);
        }
        true
    }

    /// A copy of the material sharing its shader and textures.
    pub fn duplicate(&self) -> (r: Material)
        ensures
            r.key() == self.key(),
            r.shader() == self.shader(),
            r.textures() == self.textures(),
            r.samplers() == self.samplers(),
            self.wf() ==> r.wf(),
    {
        let shader = share(&self.shader);
        let mut textures: Vec<Rc<Texture>> = Vec::new();
        let mut k: usize = 0;
        while k < self.textures.len()
            invariant
                k <= self.textures@.len(),
                textures@.len() == k,
                forall|j: int| 0 <= j < k ==> *textures@[j] == *self.textures@[j],
            decreases self.textures@.len() - k,
        {
            textures.push(share(&self.textures[k]));
            k = k + 1;
        }
        let mut samplers: Vec<TextureSampler> = Vec::new();
        let mut m: usize = 0;
        while m < self.samplers.len()
            invariant
                m <= self.samplers@.len(),
                samplers@.len() == m,
                forall|j: int| 0 <= j < m ==> samplers@[j] == self.samplers@[j],
            decreases self.samplers@.len() - m,
        {
            samplers.push(self.samplers[m]);
            m = m + 1;
        }
        let r = Material { shader, textures, samplers };
        assert(r.textures() =~= self.textures());
        assert(r.samplers() =~= self.samplers());
        r
    }

    /// The material's shader.
    pub fn get_shader(&self) -> (r: &Shader)
        ensures
            *r == self.shader(),
    {
        &self.shader
    }

    /// Counts the texture uniforms of `shader`.
    fn count_texture_slots(shader: &Shader) -> (n: usize)
        ensures
            n == texture_slots(shader.uniforms@).len(),
    {
        let mut n: usize = 0;
        let mut i: usize = 0;
        while i < shader.uniforms.len()
            invariant
                i <= shader.uniforms@.len(),
                n == texture_slots(shader.uniforms@.take(i as int)).len(),
                n <= i,
            decreases shader.uniforms@.len() - i,
        {
            proof {
                lemma_slots_step(shader.uniforms@, i as int);
            }
            if shader.uniforms[i].uniform_type == UniformType::Texture2D {
                n = n + 1;
            }
            i = i + 1;
        }
        assert(shader.uniforms@.take(i as int) =~= shader.uniforms@);
        n
    }

    /// A material for `shader` whose texture slots hold the placeholder
    /// texture, each sampled with `sampler`.
    pub fn with_sampler(shader: Shader, sampler: TextureSampler) -> (r: Material)
        ensures
            r.wf(),
            r.shader() == shader,
            r.textures().len() == texture_slots(shader.uniforms@).len(),
            forall|k: int| 0 <= k < r.textures().len() ==> #[trigger] r.textures()[k] == Texture::placeholder(),
            r.samplers() == Seq::new(texture_slots(shader.uniforms@).len(), |k: int| sampler),
    {
        let n = Self::count_texture_slots(&shader);
        let mut textures: Vec<Rc<Texture>> = Vec::new();
        let mut samplers: Vec<TextureSampler> = Vec::new();
        let mut k: usize = 0;
        while k < n
            invariant
                k <= n,
                textures@.len() == k,
                samplers@.len() == k,
                forall|j: int| 0 <= j < k ==> *#[trigger] textures@[j] == Texture::placeholder(),
                forall|j: int| 0 <= j < k ==> #[trigger] samplers@[j] == sampler,
            decreases n - k,
        {
            textures.push(Rc::new(Texture::default()));
            samplers.push(sampler);
            k = k + 1;
        }
        let r = Material { shader: Rc::new(shader), textures, samplers };
        assert(r.samplers() =~= Seq::new(n as nat, |k: int| sampler));
        r
    }

    /// A material for `shader` whose texture slots hold the placeholder
    /// texture, each sampled with the default sampler.
    pub fn new(shader: Shader) -> (r: Material)
        ensures
            r.wf(),
            r.shader() == shader,
            r.textures().len() == texture_slots(shader.uniforms@).len(),
            forall|k: int| 0 <= k < r.textures().len() ==> #[trigger] r.textures()[k] == Texture::placeholder(),
            r.samplers() == Seq::new(
                texture_slots(shader.uniforms@).len(),
                |k: int| TextureSampler::standard(),
            ),
    {
        Self::with_sampler(shader, TextureSampler::default())
    }
    /// The slot of the texture uniform named `name`, if there is one.
    fn find_slot(shader: &Shader, name: &str) -> (r: Option<usize>)
        ensures
            match r {
                Some(k) => slot_of(shader.uniforms@, name@) == Some(k as int),
                None => slot_of(shader.uniforms@, name@) is None,
            },
    {
        let ghost us = shader.uniforms@;
        let key: String = name.to_owned();
        let mut slot: usize = 0;
        let mut i: usize = 0;
        while i < shader.uniforms.len()
            invariant
                us == shader.uniforms@,
                key@ == name@,
                i <= us.len(),
                slot == texture_slots(us.take(i as int)).len(),
                slot <= i,
                forall|j: int|
                    0 <= j < slot ==> (#[trigger] texture_slots(us.take(i as int))[j]).name@ != name@,
            decreases us.len() - i,
        {
            proof {
                lemma_slots_step(us, i as int);
            }
            if shader.uniforms[i].uniform_type == UniformType::Texture2D {
                if shader.uniforms[i].name == key {
                    proof {
                        let slots = texture_slots(us);
                        lemma_slots_split(us, i + 1);
                        let pre = texture_slots(us.take(i + 1));
                        assert forall|j: int| 0 <= j <= slot implies #[trigger] slots[j] == pre[j] by {}
                        assert(slots[slot as int] == us[i as int]);
                        assert forall|j: int| 0 <= j < slot implies (#[trigger] slots[j]).name@ != name@ by {
                            assert(slots[j] == pre[j]);
                            assert(pre[j] == texture_slots(us.take(i as int))[j]);
                        }
                        assert(first_named(slots, name@, slot as int));
                        let c = choose|c: int| first_named(slots, name@, c);
                        lemma_first_named_unique(slots, name@, slot as int, c);
                    }
                    return Some(slot);
                }
                slot = slot + 1;
            }
            i = i + 1;
        }
        proof {
            assert(us.take(i as int) =~= us);
            let slots = texture_slots(us);
            assert forall|k: int| !first_named(slots, name@, k) by {
                if first_named(slots, name@, k) {
                    assert(slots[k] == texture_slots(us.take(i as int))[k]);
                }
            }
        }
        None
    }

    /// The texture slot of the uniform named `name`, if it is a texture uniform.
    pub fn texture_slot(&self, name: &str) -> (r: Option<usize>)
        ensures
            match r {
                Some(k) => slot_of(self.shader().uniforms@, name@) == Some(k as int),
                None => slot_of(self.shader().uniforms@, name@) is None,
            },
    {
        Self::find_slot(&self.shader, name)
    }

    /// Whether the shader has a uniform named `name`.
    pub open spec fn has(&self, name: Seq<char>) -> bool {
        exists|i: int|
            0 <= i < self.shader().uniforms@.len() && (#[trigger] self.shader().uniforms@[i]).name@
                == name
    }

    /// Whether the shader has a uniform named `name`.
    pub fn has_uniform(&self, name: &str) -> (r: bool)
        ensures
            r == self.has(name@),
    {
        match self.find_uniform(name) {
            Some(_) => true,
            None => false,
        }
    }

    /// The first uniform of the shader named `name`.
    pub fn find_uniform(&self, name: &str) -> (r: Option<&Uniform>)
        ensures
            match r {
                Some(u) => exists|i: int|
                    0 <= i < self.shader().uniforms@.len() && self.shader().uniforms@[i] == *u
                        && u.name@ == name@ && forall|j: int|
                        0 <= j < i ==> (#[trigger] self.shader().uniforms@[j]).name@ != name@,
                None => forall|i: int|
                    0 <= i < self.shader().uniforms@.len() ==> (
                    #[trigger] self.shader().uniforms@[i]).name@ != name@,
            },
    {
        let key: String = name.to_owned();
        let mut i: usize = 0;
        while i < self.shader.uniforms.len()
            invariant
                key@ == name@,
                i <= self.shader().uniforms@.len(),
                forall|j: int| 0 <= j < i ==> (#[trigger] self.shader().uniforms@[j]).name@ != name@,
            decreases self.shader().uniforms@.len() - i,
        {
            if self.shader.uniforms[i].name == key {
                return Some(&self.shader.uniforms[i]);
            }
            i = i + 1;
        }
        None
    }

    /// Puts `texture` into the slot of the texture uniform named `name`;
    /// where the shader has no such uniform nothing changes.
    pub fn set_texture(&mut self, name: &str, texture: Rc<Texture>)
        requires
            old(self).wf(),
        ensures
            final(self).wf(),
            final(self).shader() == old(self).shader(),
            final(self).samplers() == old(self).samplers(),
            final(self).textures() == match slot_of(old(self).shader().uniforms@, name@) {
                Some(k) => old(self).textures().update(k, *texture),
                None => old(self).textures(),
            },
    {
        match Self::find_slot(&self.shader, name) {
            Some(k) => {
                proof {
                    let slots = texture_slots(self.shader().uniforms@);
                    assert(first_named(slots, name@, k as int));
                }
                self.textures.set(k, texture);
                assert(self.textures() =~= old(self).textures().update(k as int, *texture));
            },
            None => {},
        }
    }

    /// Sets the sampler of the slot of the texture uniform named `name`.
    /// The shader must have such a uniform.
    pub fn set_sampler(&mut self, name: &str, sampler: &TextureSampler)
        requires
            old(self).wf(),
            slot_of(old(self).shader().uniforms@, name@) is Some,
        ensures
            final(self).wf(),
            final(self).shader() == old(self).shader(),
            final(self).textures() == old(self).textures(),
            final(self).samplers() == old(self).samplers().update(
                slot_of(old(self).shader().uniforms@, name@)->0,
                *sampler,
            ),
    {
        match Self::find_slot(&self.shader, name) {
            Some(k) => {
                proof {
                    let slots = texture_slots(self.shader().uniforms@);
                    assert(first_named(slots, name@, k as int));
                }
                self.samplers.set(k, *sampler);
            },
            None => {},
        }
    }

    /// What binding the material for a draw sets up, slot by slot: the
    /// texture's OpenGL name, its sampler, and the location of the slot's
    /// uniform (texture unit `k` is bound to the `k`-th texture uniform).
    pub fn texture_bindings(&self) -> (r: Vec<(u32, TextureSampler, i32)>)
        requires
            self.wf(),
        ensures
            r@.len() == self.textures().len(),
            forall|k: int|
                0 <= k < r@.len() ==> #[trigger] r@[k] == (
                    self.textures()[k].id,
                    self.samplers()[k],
                    texture_slots(self.shader().uniforms@)[k].location,
                ),
    {
        let ghost us = self.shader().uniforms@;
        let mut r: Vec<(u32, TextureSampler, i32)> = Vec::new();
        let mut slot: usize = 0;
        let mut i: usize = 0;
        while i < self.shader.uniforms.len()
            invariant
                self.wf(),
                us == self.shader().uniforms@,
                i <= us.len(),
                slot == texture_slots(us.take(i as int)).len(),
                r@.len() == slot,
                forall|k: int|
                    0 <= k < slot ==> #[trigger] r@[k] == (
                        self.textures()[k].id,
                        self.samplers()[k],
                        texture_slots(us.take(i as int))[k].location,
                    ),
            decreases us.len() - i,
        {
            proof {
                lemma_slots_step(us, i as int);
                lemma_slots_split(us, i + 1);
            }
            if self.shader.uniforms[i].uniform_type == UniformType::Texture2D {
                let t = self.textures[slot].id;
                let s = self.samplers[slot];
                r.push((t, s, self.shader.uniforms[i].location));
                slot = slot + 1;
            }
            i = i + 1;
        }
        proof {
            assert(us.take(i as int) =~= us);
        }
        r
    }
}

} // verus!
