use engine::graphics::blend::{additive, normal, substract, BlendFactor, BlendMask, BlendMode, BlendOp};
use engine::graphics::material::Material;
use engine::graphics::shader::{Shader, ShaderType, Uniform, UniformType};
use engine::graphics::stencil::Stencil;
use engine::graphics::target::Target;
use engine::graphics::texture::{Texture, TextureFilter, TextureFormat, TextureSampler, TextureWrap};
use std::rc::Rc;

#[test]
fn blend_ops_match_opengl() {
    assert_eq!(BlendOp::Add.to_gl_enum(), gl::FUNC_ADD);
    assert_eq!(BlendOp::Subtract.to_gl_enum(), gl::FUNC_SUBTRACT);
    assert_eq!(BlendOp::ReverseSubtract.to_gl_enum(), gl::FUNC_REVERSE_SUBTRACT);
    assert_eq!(BlendOp::Min.to_gl_enum(), gl::MIN);
    assert_eq!(BlendOp::Max.to_gl_enum(), gl::MAX);
}

#[test]
fn blend_factors_match_opengl() {
    let cases = [
        (BlendFactor::Zero, gl::ZERO),
        (BlendFactor::One, gl::ONE),
        (BlendFactor::SrcColor, gl::SRC_COLOR),
        (BlendFactor::OneMinusSrcColor, gl::ONE_MINUS_SRC_COLOR),
        (BlendFactor::DstColor, gl::DST_COLOR),
        (BlendFactor::OneMinusDstColor, gl::ONE_MINUS_DST_COLOR),
        (BlendFactor::SrcAlpha, gl::SRC_ALPHA),
        (BlendFactor::OneMinusSrcAlpha, gl::ONE_MINUS_SRC_ALPHA),
        (BlendFactor::DstAlpha, gl::DST_ALPHA),
        (BlendFactor::OneMinusDstAlpha, gl::ONE_MINUS_DST_ALPHA),
        (BlendFactor::ConstantColor, gl::CONSTANT_COLOR),
        (BlendFactor::OneMinusConstantColor, gl::ONE_MINUS_CONSTANT_COLOR),
        (BlendFactor::ConstantAlpha, gl::CONSTANT_ALPHA),
        (BlendFactor::OneMinusConstantAlpha, gl::ONE_MINUS_CONSTANT_ALPHA),
        (BlendFactor::SrcAlphaSaturate, gl::SRC_ALPHA_SATURATE),
        (BlendFactor::Src1Color, gl::SRC1_COLOR),
        (BlendFactor::OneMinusSrc1Color, gl::ONE_MINUS_SRC1_COLOR),
        (BlendFactor::Src1Alpha, gl::SRC1_ALPHA),
        (BlendFactor::OneMinusSrc1Alpha, gl::ONE_MINUS_SRC1_ALPHA),
    ];
    for (i, (f, e)) in cases.iter().enumerate() {
        assert_eq!(f.to_gl_enum(), *e);
        for (g, _) in cases.iter().skip(i + 1) {
            assert_ne!(f.to_gl_enum(), g.to_gl_enum());
        }
    }
}

#[test]
fn blend_presets() {
    let n = normal();
    assert_eq!(n, BlendMode::new(BlendOp::Add, BlendFactor::SrcAlpha, BlendFactor::OneMinusSrcAlpha));
    assert_eq!(n.mask, BlendMask::rgba());
    let a = additive();
    assert_eq!((a.color_dst, a.alpha_dst), (BlendFactor::One, BlendFactor::One));
    let s = substract();
    assert_eq!(s.color_op, BlendOp::ReverseSubtract);
    assert_eq!(s.alpha_op, BlendOp::Add);
    let sep = BlendMode::new_separate(BlendOp::Min, BlendFactor::One, BlendFactor::Zero, BlendOp::Max,
        BlendFactor::DstAlpha, BlendFactor::SrcColor);
    assert_eq!(sep.alpha_src, BlendFactor::DstAlpha);
    assert_eq!(sep.mask.0, 15);
}

#[test]
fn blend_masks_combine_channels() {
    assert_eq!(BlendMask::rgb().0, BlendMask::red().0 | BlendMask::green().0 | BlendMask::blue().0);
    assert_eq!(BlendMask::rgba().0, BlendMask::rgb().0 | BlendMask::alpha().0);
    assert_eq!(BlendMask::none().0, 0);
}

#[test]
fn stencil_settings() {
    assert_eq!(Stencil::disable(), None);
    let m = Stencil::mask_eq(3).unwrap();
    assert_eq!((m.stencil_val, m.stencil_func, m.stencil_op), (3, gl::EQUAL, gl::KEEP));
    assert_eq!((m.color_mask, m.stencil_mask), (gl::TRUE, 0));
    let l = Stencil::mask_leq(2).unwrap();
    assert_eq!(l.stencil_func, gl::LEQUAL);
    let w = Stencil::write(5).unwrap();
    assert_eq!((w.stencil_func, w.stencil_op, w.color_mask, w.stencil_mask), (gl::ALWAYS, gl::REPLACE, gl::FALSE, 0xff));
    let wc = Stencil::write_color(5).unwrap();
    assert_eq!(wc.color_mask, gl::TRUE);
    assert_eq!(Stencil::increment().unwrap().stencil_op, gl::INCR);
    assert_eq!(Stencil::decr().unwrap().stencil_op, gl::DECR);
}

#[test]
fn texture_defaults_and_formats() {
    let t = Texture::default();
    assert_eq!((t.id, t.width, t.height), (99, 0, 0));
    assert_eq!(Texture::gl_formats(TextureFormat::R), (gl::RED, gl::RED, gl::UNSIGNED_BYTE));
    assert_eq!(Texture::gl_formats(TextureFormat::RG), (gl::RG, gl::RG, gl::UNSIGNED_BYTE));
    assert_eq!(Texture::gl_formats(TextureFormat::RGBA), (gl::RGBA, gl::RGBA, gl::UNSIGNED_BYTE));
    assert_eq!(Texture::gl_formats(TextureFormat::DepthStencil), (gl::DEPTH24_STENCIL8, gl::DEPTH_STENCIL, gl::DEPTH_STENCIL));
    t.loadImage("unused.png");
}

#[test]
fn sampler_parameters_match_opengl() {
    let s = TextureSampler::default();
    assert_eq!(s, TextureSampler { filter: TextureFilter::Linear, wrap_x: TextureWrap::Border, wrap_y: TextureWrap::Border });
    assert_eq!(s.gl_parameters(), (gl::LINEAR, gl::CLAMP_TO_BORDER, gl::CLAMP_TO_BORDER));
    let n = TextureSampler { filter: TextureFilter::Nearest, wrap_x: TextureWrap::Clamp, wrap_y: TextureWrap::Repeat };
    assert_eq!(n.gl_parameters(), (gl::NEAREST, gl::CLAMP_TO_EDGE, gl::REPEAT));
    assert_eq!(TextureFilter::NoFilter.to_gl_enum(), gl::NONE);
    assert_eq!(TextureFilter::NoFilter.to_string(), "None");
    assert_eq!(TextureFilter::Linear.to_string(), "Linear");
}

fn texture(id: u32, format: TextureFormat) -> Rc<Texture> {
    Rc::new(Texture { id, width: 8, height: 8, format })
}

#[test]
fn targets() {
    let e = Target::empty();
    assert_eq!((e.id, e.width, e.height, e.attachments.len()), (0, 0, 0, 0));
    let s = Target::screen(1280, 736);
    assert_eq!((s.id, s.width, s.height), (0, 1280, 736));
    let t = Target {
        id: 4,
        width: 8,
        height: 8,
        attachments: vec![texture(1, TextureFormat::DepthStencil), texture(2, TextureFormat::RGBA), texture(3, TextureFormat::RGBA)],
    };
    assert_eq!(t.color().id, 2);
}

#[test]
fn attachment_points() {
    let p = Target::attachment_points(&[TextureFormat::RGBA, TextureFormat::DepthStencil, TextureFormat::R]);
    assert_eq!(p, vec![gl::COLOR_ATTACHMENT0, gl::DEPTH_STENCIL_ATTACHMENT, gl::COLOR_ATTACHMENT0 + 2]);
}

fn uniform(name: &str, location: i32, uniform_type: UniformType) -> Uniform {
    Uniform { name: name.to_string(), location, uniform_type, shader_type: ShaderType::FRAGMENT }
}

fn shader() -> Shader {
    Shader {
        program: 1,
        uniforms: vec![
            uniform("u_matrix", 0, UniformType::FLOAT),
            uniform("u_texture", 1, UniformType::Texture2D),
            uniform("u_normal", 2, UniformType::Texture2D),
        ],
    }
}

#[test]
fn material_slots() {
    let mut m = Material::new(shader());
    assert!(m.has_uniform("u_matrix"));
    assert!(!m.has_uniform("u_missing"));
    assert_eq!(m.find_uniform("u_normal").unwrap().location, 2);
    let b = m.texture_bindings();
    assert_eq!(b.len(), 2);
    assert_eq!(b[0], (99, TextureSampler::default(), 1));
    m.set_texture("u_normal", texture(7, TextureFormat::RGBA));
    m.set_texture("u_matrix", texture(8, TextureFormat::RGBA));
    let nearest = TextureSampler { filter: TextureFilter::Nearest, wrap_x: TextureWrap::Clamp, wrap_y: TextureWrap::Clamp };
    m.set_sampler("u_texture", &nearest);
    let b = m.texture_bindings();
    assert_eq!(b[0], (99, nearest, 1));
    assert_eq!(b[1], (7, TextureSampler::default(), 2));
}

#[test]
fn material_with_sampler() {
    let s = TextureSampler { filter: TextureFilter::Nearest, wrap_x: TextureWrap::Repeat, wrap_y: TextureWrap::Repeat };
    let m = Material::with_sampler(shader(), s);
    let b = m.texture_bindings();
    assert_eq!(b.iter().map(|x| x.1).collect::<Vec<_>>(), vec![s, s]);
}
