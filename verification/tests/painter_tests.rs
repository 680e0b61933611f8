use egui_skia::color::{unpremultiply, Color32};
use egui_skia::fixed::{fx_scale, scale_rect, Rect, FX_ONE};
use egui_skia::mesh::{bits_are_nan, fix_vertex, split_to_u16, Mesh, Vertex};
use egui_skia::painter::Painter;
use egui_skia::renderer::{
    all_textures_loaded, paint, primitives_well_formed, ClippedPrimitive, DrawCommand,
    PaintCallback, Primitive,
};
use egui_skia::textures::{
    ColorImage, ImageDelta, PaintError, TextureCache, TextureFilter, TextureId, TextureOptions,
    TexturesDelta,
};

fn px(r: u8, g: u8, b: u8, a: u8) -> Color32 {
    Color32 { r, g, b, a }
}

fn opts() -> TextureOptions {
    TextureOptions { magnification: TextureFilter::Linear, minification: TextureFilter::Nearest }
}

fn solid_image(w: usize, h: usize, c: Color32) -> ColorImage {
    ColorImage { width: w, height: h, pixels: vec![c; w * h] }
}

fn vertex(x: f32, y: f32, c: Color32) -> Vertex {
    Vertex { x_bits: x.to_bits(), y_bits: y.to_bits(), u_bits: 0, v_bits: 0, color: c }
}

fn full_rect() -> Rect {
    Rect { left: 0, top: 0, right: 1000 * FX_ONE, bottom: 1000 * FX_ONE }
}

fn tri_mesh(id: TextureId) -> Mesh {
    Mesh {
        vertices: vec![
            vertex(0.0, 0.0, px(255, 255, 255, 255)),
            vertex(1.0, 0.0, px(255, 255, 255, 255)),
            vertex(0.0, 1.0, px(255, 255, 255, 255)),
        ],
        indices: vec![0, 1, 2],
        texture_id: id,
    }
}

#[test]
fn upload_then_free_leaves_textures_unloaded() {
    let mut painter = Painter::new();
    let id = TextureId::Managed(7);
    let delta = TexturesDelta {
        set: vec![(id, ImageDelta { pos: None, image: solid_image(2, 2, px(1, 2, 3, 255)), options: opts() })],
        free: vec![id],
    };
    let no_prims: Vec<ClippedPrimitive> = vec![];
    let r = painter.paint_and_update_textures(2 * FX_ONE, &no_prims, delta);
    assert!(r.is_ok());
    let prims = vec![ClippedPrimitive { clip_rect: full_rect(), primitive: Primitive::Mesh(tri_mesh(id)) }];
    assert!(!painter.all_textures_loaded(&prims));
}

#[test]
fn patch_preserves_outside_and_replaces_inside() {
    let mut cache = TextureCache::new();
    let id = TextureId::User(1);
    let base = px(10, 20, 30, 255);
    let patch = px(200, 100, 50, 255);
    let r = cache.apply_sets(vec![(id, ImageDelta { pos: None, image: solid_image(4, 4, base), options: opts() })]);
    assert!(r.is_ok());
    let r = cache.apply_sets(vec![(id, ImageDelta { pos: Some((1, 2)), image: solid_image(2, 1, patch), options: opts() })]);
    assert!(r.is_ok());
    let rec = cache.get(id).expect("record must be live");
    assert_eq!(rec.image.width, 4);
    assert_eq!(rec.image.height, 4);
    for row in 0..4usize {
        for col in 0..4usize {
            let got = rec.image.pixels[row * 4 + col];
            if row == 2 && (col == 1 || col == 2) {
                assert_eq!(got, patch);
            } else {
                assert_eq!(got, base);
            }
        }
    }
}

#[test]
fn patch_is_clipped_to_base_bounds() {
    let mut cache = TextureCache::new();
    let id = TextureId::User(2);
    let base = px(9, 9, 9, 255);
    let patch = px(77, 77, 77, 255);
    cache.apply_sets(vec![(id, ImageDelta { pos: None, image: solid_image(4, 4, base), options: opts() })]).unwrap();
    cache.apply_sets(vec![(id, ImageDelta { pos: Some((3, 3)), image: solid_image(2, 2, patch), options: opts() })]).unwrap();
    let rec = cache.get(id).expect("record must be live");
    for row in 0..4usize {
        for col in 0..4usize {
            let got = rec.image.pixels[row * 4 + col];
            if row == 3 && col == 3 {
                assert_eq!(got, patch);
            } else {
                assert_eq!(got, base);
            }
        }
    }
}

#[test]
fn unpremultiply_exact_values() {
    let c = unpremultiply(px(100, 50, 25, 200));
    assert_eq!((c.r, c.g, c.b, c.a), (127, 63, 31, 200));
    // Opaque colors are unchanged.
    let c = unpremultiply(px(10, 128, 255, 255));
    assert_eq!((c.r, c.g, c.b, c.a), (10, 128, 255, 255));
    // A fully transparent zero color stays zero; non-zero channels saturate.
    let c = unpremultiply(px(0, 0, 0, 0));
    assert_eq!((c.r, c.g, c.b, c.a), (0, 0, 0, 0));
    let c = unpremultiply(px(3, 0, 0, 0));
    assert_eq!((c.r, c.g, c.b, c.a), (255, 0, 0, 0));
}

#[test]
fn unpremultiply_remultiply_round_trip_within_one() {
    for a in 1..=255u32 {
        for x in (0..=a).step_by(7) {
            let c = unpremultiply(px(x as u8, 0, 0, a as u8));
            let re = (c.r as u32) * a / 255;
            assert!(re <= x && x - re <= 1, "x={x} a={a} re={re}");
        }
    }
}

#[test]
fn split_passes_small_mesh_through() {
    let id = TextureId::Managed(0);
    let mesh = Mesh {
        vertices: vec![
            vertex(0.0, 0.0, px(0, 0, 0, 255)),
            vertex(1.0, 0.0, px(0, 0, 0, 255)),
            vertex(0.0, 1.0, px(0, 0, 0, 255)),
            vertex(1.0, 1.0, px(0, 0, 0, 255)),
        ],
        indices: vec![0, 1, 2, 2, 1, 3],
        texture_id: id,
    };
    let subs = split_to_u16(mesh);
    assert_eq!(subs.len(), 1);
    assert_eq!(subs[0].indices, vec![0u16, 1, 2, 2, 1, 3]);
    assert_eq!(subs[0].vertices.len(), 4);
    assert_eq!(subs[0].texture_id, id);
}

#[test]
fn split_large_mesh_renders_same_triangles() {
    let id = TextureId::Managed(3);
    let n: usize = 70_000;
    let mut vertices = Vec::with_capacity(n);
    for i in 0..n {
        vertices.push(vertex(i as f32, 1.0, px(0, 0, 0, 255)));
    }
    let indices: Vec<u32> = vec![0, 1, 2, 69_997, 69_998, 69_999];
    let mesh = Mesh { vertices: vertices.clone(), indices: indices.clone(), texture_id: id };
    let subs = split_to_u16(mesh);
    assert!(subs.len() >= 2, "a mesh above the 16-bit limit must be split");
    let mut drawn: Vec<Vertex> = Vec::new();
    for sub in &subs {
        assert_eq!(sub.texture_id, id);
        assert!(sub.vertices.len() <= 65_535);
        assert_eq!(sub.indices.len() % 3, 0);
        for &ix in &sub.indices {
            drawn.push(sub.vertices[ix as usize]);
        }
    }
    let expected: Vec<Vertex> = indices.iter().map(|&ix| vertices[ix as usize]).collect();
    assert_eq!(drawn, expected);
}

#[test]
fn nan_vertex_snaps_to_origin_and_keeps_siblings() {
    let id = TextureId::Managed(4);
    let mut cache = TextureCache::new();
    cache.apply_sets(vec![(id, ImageDelta { pos: None, image: solid_image(1, 1, px(255, 255, 255, 255)), options: opts() })]).unwrap();
    let mesh = Mesh {
        vertices: vec![
            vertex(f32::NAN, 0.0, px(255, 255, 255, 255)),
            vertex(1.0, 0.0, px(255, 255, 255, 255)),
            vertex(0.0, 1.0, px(255, 255, 255, 255)),
            vertex(2.0, 2.0, px(255, 255, 255, 255)),
            vertex(3.0, 2.0, px(255, 255, 255, 255)),
            vertex(2.0, 3.0, px(255, 255, 255, 255)),
        ],
        indices: vec![0, 1, 2, 3, 4, 5],
        texture_id: id,
    };
    let prims = vec![ClippedPrimitive { clip_rect: full_rect(), primitive: Primitive::Mesh(mesh) }];
    assert!(primitives_well_formed(&prims));
    let cmds = paint(&cache, FX_ONE, &prims).expect("texture is loaded");
    assert_eq!(cmds.len(), 1);
    match &cmds[0] {
        DrawCommand::Mesh(mc) => {
            let total: usize = mc.sub_meshes.iter().map(|s| s.indices.len()).sum();
            assert_eq!(total, 6, "the NaN vertex must not drop sibling triangles");
            let sub = &mc.sub_meshes[0];
            // The NaN vertex was snapped to the origin's bit pattern.
            assert_eq!(sub.vertices[0].x_bits, 0);
            assert_eq!(sub.vertices[0].y_bits, 0);
            // Its siblings kept their positions.
            assert_eq!(sub.vertices[1].x_bits, 1.0f32.to_bits());
            assert_eq!(sub.vertices[4].x_bits, 3.0f32.to_bits());
        },
        DrawCommand::Callback(_) => panic!("expected a mesh command"),
    }
}

#[test]
fn commands_keep_order_and_own_clip() {
    let id = TextureId::Managed(5);
    let mut cache = TextureCache::new();
    cache.apply_sets(vec![(id, ImageDelta { pos: None, image: solid_image(1, 1, px(255, 255, 255, 255)), options: opts() })]).unwrap();
    let clip_a = full_rect();
    let clip_b = Rect { left: 10 * FX_ONE, top: 10 * FX_ONE, right: 20 * FX_ONE, bottom: 20 * FX_ONE };
    let prims = vec![
        ClippedPrimitive { clip_rect: clip_a, primitive: Primitive::Mesh(tri_mesh(id)) },
        ClippedPrimitive { clip_rect: clip_b, primitive: Primitive::Mesh(tri_mesh(id)) },
    ];
    let cmds = paint(&cache, FX_ONE, &prims).expect("texture is loaded");
    assert_eq!(cmds.len(), 2);
    match (&cmds[0], &cmds[1]) {
        (DrawCommand::Mesh(a), DrawCommand::Mesh(b)) => {
            assert_eq!(a.clip_rect, clip_a);
            assert_eq!(b.clip_rect, clip_b);
        },
        _ => panic!("expected two mesh commands"),
    }
}

#[test]
fn callback_gets_scaled_device_rect_and_ui_origin() {
    let cache = TextureCache::new();
    let ui_rect = Rect {
        left: 10 * FX_ONE,
        top: 10 * FX_ONE,
        right: 110 * FX_ONE,
        bottom: 110 * FX_ONE,
    };
    let prims = vec![ClippedPrimitive {
        clip_rect: full_rect(),
        primitive: Primitive::Callback(PaintCallback { rect: ui_rect, callback: 42 }),
    }];
    let cmds = paint(&cache, 2 * FX_ONE, &prims).expect("callbacks need no textures");
    assert_eq!(cmds.len(), 1);
    match &cmds[0] {
        DrawCommand::Callback(cc) => {
            assert_eq!(cc.callback, 42);
            assert_eq!(cc.device_rect.left, 20 * FX_ONE);
            assert_eq!(cc.device_rect.top, 20 * FX_ONE);
            assert_eq!(cc.device_rect.right, 220 * FX_ONE);
            assert_eq!(cc.device_rect.bottom, 220 * FX_ONE);
            assert_eq!(cc.origin_x, 10 * FX_ONE);
            assert_eq!(cc.origin_y, 10 * FX_ONE);
        },
        DrawCommand::Mesh(_) => panic!("expected a callback command"),
    }
}

#[test]
fn freeing_unknown_id_is_a_noop() {
    let mut cache = TextureCache::new();
    let id = TextureId::User(9);
    let known = TextureId::User(8);
    cache.apply_sets(vec![(known, ImageDelta { pos: None, image: solid_image(1, 1, px(5, 5, 5, 255)), options: opts() })]).unwrap();
    let r = cache.apply_deltas(vec![], &vec![id]);
    assert!(r.is_ok());
    assert!(cache.get(known).is_some());
    assert!(cache.get(id).is_none());
}

#[test]
fn malformed_pixel_buffer_fails_loudly() {
    let mut cache = TextureCache::new();
    let id = TextureId::User(11);
    let bad = ColorImage { width: 3, height: 3, pixels: vec![px(0, 0, 0, 0); 8] };
    let r = cache.apply_sets(vec![(id, ImageDelta { pos: None, image: bad, options: opts() })]);
    assert_eq!(r, Err(PaintError::MalformedPixelBuffer(id)));
    assert!(cache.get(id).is_none());
}

#[test]
fn patch_of_unknown_id_fails_loudly() {
    let mut cache = TextureCache::new();
    let id = TextureId::User(12);
    let r = cache.apply_sets(vec![(id, ImageDelta { pos: Some((0, 0)), image: solid_image(1, 1, px(0, 0, 0, 0)), options: opts() })]);
    assert_eq!(r, Err(PaintError::PatchTargetMissing(id)));
}

#[test]
fn mesh_with_unloaded_texture_fails_loudly() {
    let cache = TextureCache::new();
    let id = TextureId::Managed(13);
    let prims = vec![ClippedPrimitive { clip_rect: full_rect(), primitive: Primitive::Mesh(tri_mesh(id)) }];
    let r = paint(&cache, FX_ONE, &prims);
    assert_eq!(r.err(), Some(PaintError::TextureMissing(id)));
    assert!(!all_textures_loaded(&cache, &prims));
}

#[test]
fn callback_only_frame_needs_no_textures() {
    let cache = TextureCache::new();
    let prims = vec![ClippedPrimitive {
        clip_rect: full_rect(),
        primitive: Primitive::Callback(PaintCallback { rect: full_rect(), callback: 1 }),
    }];
    assert!(all_textures_loaded(&cache, &prims));
    assert!(paint(&cache, FX_ONE, &prims).is_ok());
}

#[test]
fn nan_bit_patterns_are_detected_exactly() {
    assert!(bits_are_nan(f32::NAN.to_bits()));
    assert!(!bits_are_nan(0.0f32.to_bits()));
    assert!(!bits_are_nan((-1.5f32).to_bits()));
    assert!(!bits_are_nan(f32::INFINITY.to_bits()));
    assert!(!bits_are_nan(f32::NEG_INFINITY.to_bits()));
}

#[test]
fn fix_vertex_repairs_only_nan_positions() {
    let v = vertex(2.5, f32::NAN, px(100, 100, 100, 200));
    let fixed = fix_vertex(&v);
    assert_eq!(fixed.x_bits, 0);
    assert_eq!(fixed.y_bits, 0);
    let v = vertex(2.5, 3.5, px(100, 100, 100, 200));
    let fixed = fix_vertex(&v);
    assert_eq!(fixed.x_bits, 2.5f32.to_bits());
    assert_eq!(fixed.y_bits, 3.5f32.to_bits());
    assert_eq!(fixed.color.r, 127);
    assert_eq!(fixed.color.a, 200);
}

#[test]
fn fixed_point_scaling_truncates_toward_zero() {
    assert_eq!(fx_scale(10 * FX_ONE, 2 * FX_ONE), 20 * FX_ONE);
    // 1.5 x -3 = -4.5, truncated toward zero.
    assert_eq!(fx_scale(-3 * FX_ONE, FX_ONE + FX_ONE / 2), -4 * FX_ONE - FX_ONE / 2);
    assert_eq!(fx_scale(5, 0), 0);
    let r = scale_rect(&Rect { left: -FX_ONE, top: 0, right: FX_ONE, bottom: 2 * FX_ONE }, 3 * FX_ONE);
    assert_eq!(r, Rect { left: -3 * FX_ONE, top: 0, right: 3 * FX_ONE, bottom: 6 * FX_ONE });
}

#[test]
fn frees_apply_only_after_painting() {
    let mut painter = Painter::new();
    let id = TextureId::Managed(21);
    let delta = TexturesDelta {
        set: vec![(id, ImageDelta { pos: None, image: solid_image(1, 1, px(255, 255, 255, 255)), options: opts() })],
        free: vec![id],
    };
    let prims = vec![ClippedPrimitive { clip_rect: full_rect(), primitive: Primitive::Mesh(tri_mesh(id)) }];
    // The mesh draws against the texture uploaded this frame, even
    // though the same frame frees it afterwards.
    let r = painter.paint_and_update_textures(FX_ONE, &prims, delta);
    assert!(r.is_ok());
    assert_eq!(r.unwrap().len(), 1);
    // After the frame the record is gone.
    assert!(painter.texture(id).is_none());
    assert!(!painter.all_textures_loaded(&prims));
}

#[test]
fn texture_accessor_returns_live_record() {
    let mut painter = Painter::new();
    let id = TextureId::User(22);
    let delta = TexturesDelta {
        set: vec![(id, ImageDelta { pos: None, image: solid_image(2, 3, px(4, 5, 6, 255)), options: opts() })],
        free: vec![],
    };
    let no_prims: Vec<ClippedPrimitive> = vec![];
    painter.paint_and_update_textures(FX_ONE, &no_prims, delta).unwrap();
    let rec = painter.texture(id).expect("record must be live");
    assert_eq!(rec.image.width, 2);
    assert_eq!(rec.image.height, 3);
    assert_eq!(rec.image.pixels.len(), 6);
    assert_eq!(rec.options, opts());
}

#[test]
fn mesh_commands_carry_straight_colors() {
    let id = TextureId::Managed(23);
    let mut cache = TextureCache::new();
    cache.apply_sets(vec![(id, ImageDelta { pos: None, image: solid_image(1, 1, px(255, 255, 255, 255)), options: opts() })]).unwrap();
    let premultiplied = px(100, 50, 25, 200);
    let mesh = Mesh {
        vertices: vec![
            vertex(0.0, 0.0, premultiplied),
            vertex(1.0, 0.0, premultiplied),
            vertex(0.0, 1.0, premultiplied),
        ],
        indices: vec![0, 1, 2],
        texture_id: id,
    };
    let prims = vec![ClippedPrimitive { clip_rect: full_rect(), primitive: Primitive::Mesh(mesh) }];
    let cmds = paint(&cache, FX_ONE, &prims).unwrap();
    match &cmds[0] {
        DrawCommand::Mesh(mc) => {
            let c = mc.sub_meshes[0].vertices[0].color;
            assert_eq!((c.r, c.g, c.b, c.a), (127, 63, 31, 200));
        },
        DrawCommand::Callback(_) => panic!("expected a mesh command"),
    }
}

#[test]
fn oversized_dimensions_are_malformed() {
    let mut cache = TextureCache::new();
    let id = TextureId::User(24);
    let bad = ColorImage { width: usize::MAX, height: 2, pixels: vec![px(0, 0, 0, 0); 4] };
    let r = cache.apply_sets(vec![(id, ImageDelta { pos: None, image: bad, options: opts() })]);
    assert_eq!(r, Err(PaintError::MalformedPixelBuffer(id)));
}

#[test]
fn empty_mesh_splits_to_nothing() {
    let mesh = Mesh { vertices: vec![], indices: vec![], texture_id: TextureId::Managed(0) };
    let subs = split_to_u16(mesh);
    assert!(subs.is_empty());
}
