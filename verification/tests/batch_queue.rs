use engine::graphics::batch::BatchQueue;
use engine::graphics::blend::{additive, normal};
use engine::graphics::material::Material;
use engine::graphics::shader::{Shader, ShaderType, Uniform, UniformType};
use engine::graphics::stencil::Stencil;
use engine::graphics::texture::{Texture, TextureFilter, TextureFormat, TextureSampler, TextureWrap};
use std::rc::Rc;

fn shader(program: u32) -> Shader {
    Shader {
        program,
        uniforms: vec![Uniform {
            name: "u_texture".to_string(),
            location: 3,
            uniform_type: UniformType::Texture2D,
            shader_type: ShaderType::FRAGMENT,
        }],
    }
}

fn texture(id: u32) -> Rc<Texture> {
    Rc::new(Texture { id, width: 4, height: 4, format: TextureFormat::RGBA })
}

#[test]
fn quads_and_triangles_index_their_vertices() {
    let mut q = BatchQueue::new(Material::new(shader(1)));
    q.quad();
    q.tri();
    assert_eq!(q.indices(), &vec![1, 0, 3, 0, 2, 3, 4, 5, 6]);
    assert_eq!(q.vertex_count(), 7);
    assert_eq!(q.batch_count(), 1);
    assert_eq!(q.draw_ranges(), vec![(0, 0, 9)]);
    assert_eq!(q.stack_depth(), 1);
}

#[test]
fn state_changes_split_only_drawn_batches() {
    let mut q = BatchQueue::new(Material::new(shader(1)));
    q.set_texture(texture(5));
    q.set_texture(texture(6));
    assert_eq!(q.batch_count(), 1);
    q.quad();
    q.set_texture(texture(6));
    assert_eq!(q.batch_count(), 1);
    q.set_texture(texture(7));
    assert_eq!(q.batch_count(), 2);
    q.tri();
    let nearest = TextureSampler { filter: TextureFilter::Nearest, wrap_x: TextureWrap::Clamp, wrap_y: TextureWrap::Clamp };
    q.set_sampler(&nearest);
    q.set_stencil(Stencil::mask_eq(1));
    assert_eq!(q.batch_count(), 3);
    q.set_stencil(Stencil::mask_eq(2));
    assert_eq!(q.batch_count(), 3);
    assert_eq!(q.draw_ranges(), vec![(0, 0, 6), (1, 6, 3)]);
    assert_eq!(q.batch_state(2).1, Stencil::mask_eq(2));
}

#[test]
fn a_new_blend_mode_always_starts_a_batch() {
    let mut q = BatchQueue::new(Material::new(shader(1)));
    q.set_blend(normal());
    assert_eq!(q.batch_count(), 1);
    q.set_blend(additive());
    assert_eq!(q.batch_count(), 2);
    assert_eq!(q.batch_state(1).0, additive());
    q.quad();
    assert_eq!(q.draw_ranges(), vec![(1, 0, 6)]);
}

#[test]
fn materials_are_saved_and_restored() {
    let mut q = BatchQueue::new(Material::new(shader(1)));
    q.quad();
    q.push_material(&Material::new(shader(2)));
    assert_eq!(q.batch_count(), 2);
    assert_eq!(q.batch_material(1).get_shader().program, 2);
    q.quad();
    q.pop_material();
    assert_eq!(q.batch_count(), 3);
    assert_eq!(q.batch_material(2).get_shader().program, 1);
    q.push_material(&Material::new(shader(1)));
    assert_eq!(q.batch_count(), 3);
    assert_eq!(q.draw_ranges(), vec![(0, 0, 6), (1, 6, 6)]);
}

#[test]
fn batches_bind_their_own_texture() {
    let mut q = BatchQueue::new(Material::new(shader(1)));
    q.set_texture(texture(9));
    q.quad();
    q.bind_own_texture(0, "u_texture");
    assert_eq!(q.batch_material(0).texture_bindings()[0], (9, TextureSampler::default(), 3));
    q.clear();
    assert_eq!(q.batch_count(), 0);
    assert!(q.indices().is_empty());
    assert!(q.draw_ranges().is_empty());
}

#[test]
fn material_comparison() {
    let a = Material::new(shader(1));
    let b = Material::new(shader(1));
    let c = Material::new(shader(2));
    assert!(a.same_as(&b));
    assert!(!a.same_as(&c));
    let d = a.duplicate();
    assert!(d.same_as(&a));
    let mut e = a.duplicate();
    e.set_texture("u_texture", texture(4));
    assert!(!e.same_as(&a));
}
