use vstd::prelude::*;
use crate::fixed::{rect_in_range, scale_in_range, scale_rect, scale_rect_spec, Rect, FX_COORD_MAX};
use crate::mesh::{
    fix_vertex_spec, prepare_mesh, split_to_u16, sub_meshes_ok, sub_meshes_tris, tri_seq, Mesh,
    Mesh16, Vertex,
};
use crate::textures::{
    apply_frees_model, apply_sets_model, DeltaModel, PaintError, RecordModel, TextureCache,
    TextureId,
};

verus! {

/// A custom paint callback: the UI-space rectangle it covers and the
/// embedder's handle for the draw routine that produces a recorded
/// drawable. The routine itself lives outside the painter; the painter
/// only decides with which device rectangle and at which origin it runs.
#[derive(Clone, Copy, PartialEq, Eq, Structural, Debug)]
pub struct PaintCallback {
    pub rect: Rect,
    pub callback: u64,
}

/// One drawable payload: a triangle mesh or a custom paint callback.
pub enum Primitive {
    Mesh(Mesh),
    Callback(PaintCallback),
}

/// A primitive together with the screen-space clip rectangle it must
/// not draw outside of.
pub struct ClippedPrimitive {
    pub clip_rect: Rect,
    pub primitive: Primitive,
}

/// What one primitive requires of its data: a mesh must be valid with
/// every triangle fitting a 16-bit index span, and a callback rectangle
/// must be small enough to scale without overflow.
pub open spec fn prim_wf(p: ClippedPrimitive) -> bool {
    match p.primitive {
        Primitive::Mesh(m) => m.is_valid_spec() && m.spans_fit_spec(),
        Primitive::Callback(cb) => rect_in_range(cb.rect),
    }
}

pub open spec fn prims_wf(ps: Seq<ClippedPrimitive>) -> bool {
    forall|k: int| 0 <= k < ps.len() ==> prim_wf(#[trigger] ps[k])
}

/// Exact check of [`prims_wf`], for callers that receive primitives
/// from an unchecked source.
pub fn primitives_well_formed(ps: &Vec<ClippedPrimitive>) -> (r: bool)
    ensures
        r == prims_wf(ps@),
{
    let mut i: usize = 0;
    while i < ps.len()
        invariant
            i <= ps@.len(),
            forall|k: int| 0 <= k < i ==> prim_wf(#[trigger] ps@[k]),
        decreases ps@.len() - i,
    {
        let ok = match &ps[i].primitive {
            Primitive::Mesh(m) => m.is_valid() && m.spans_fit(),
            Primitive::Callback(cb) => {
                cb.rect.left >= -FX_COORD_MAX && cb.rect.left <= FX_COORD_MAX && cb.rect.top
                    >= -FX_COORD_MAX && cb.rect.top <= FX_COORD_MAX && cb.rect.right
                    >= -FX_COORD_MAX && cb.rect.right <= FX_COORD_MAX && cb.rect.bottom
                    >= -FX_COORD_MAX && cb.rect.bottom <= FX_COORD_MAX
            },
        };
        if !ok {
            return false;
        }
        i = i + 1;
    }
    true
}

/// Do all meshes in the list reference textures that currently have a
/// record?
pub open spec fn all_loaded(m: Map<TextureId, RecordModel>, ps: Seq<ClippedPrimitive>) -> bool {
    forall|k: int|
        0 <= k < ps.len() ==> ((#[trigger] ps[k]).primitive matches Primitive::Mesh(mesh)
            ==> m.contains_key(mesh.texture_id))
}

/// The texture id of the first mesh in the list with no record;
/// meaningful only when one exists.
pub open spec fn first_missing(m: Map<TextureId, RecordModel>, ps: Seq<ClippedPrimitive>) -> TextureId
    decreases ps.len(),
{
    if ps.len() == 0 {
        TextureId::Managed(0)
    } else {
        match ps[0].primitive {
            Primitive::Mesh(mesh) => if !m.contains_key(mesh.texture_id) {
                mesh.texture_id
            } else {
                first_missing(m, ps.skip(1))
            },
            Primitive::Callback(_) => first_missing(m, ps.skip(1)),
        }
    }
}

/// Returns true iff every distinct texture id referenced by a mesh
/// primitive in the list currently has a cache entry; callers use it
/// to decide whether a frame can be presented without missing-texture
/// artifacts.
pub fn all_textures_loaded(cache: &TextureCache, primitives: &Vec<ClippedPrimitive>) -> (r: bool)
    requires
        cache.wf(),
    ensures
        r == all_loaded(cache@, primitives@),
{
    let mut i: usize = 0;
    while i < primitives.len()
        invariant
            cache.wf(),
            i <= primitives@.len(),
            forall|k: int|
                0 <= k < i ==> ((#[trigger] primitives@[k]).primitive matches Primitive::Mesh(mesh)
                    ==> cache@.contains_key(mesh.texture_id)),
        decreases primitives@.len() - i,
    {
        match &primitives[i].primitive {
            Primitive::Mesh(mesh) => {
                if !cache.contains(mesh.texture_id) {
                    return false;
                }
            },
            Primitive::Callback(_) => {},
        }
        i = i + 1;
    }
    true
}

/// The triangles a mesh draws once every vertex has been repaired:
/// NaN positions snapped to the origin, colors un-premultiplied.
pub open spec fn fixed_tris(m: Mesh) -> Seq<(Vertex, Vertex, Vertex)> {
    tri_seq(m.vertices@.map_values(|v: Vertex| fix_vertex_spec(v)), m.indices@)
}

/// One vertex-buffer draw: sub-meshes of repaired vertices with 16-bit
/// indices, drawn with modulate blending against the paint of their
/// texture, clipped to the owning primitive's clip rectangle under the
/// frame's DPI scale transform.
pub struct MeshCommand {
    pub clip_rect: Rect,
    pub sub_meshes: Vec<Mesh16>,
}

/// One callback playback: the embedder runs the callback's draw routine
/// with `device_rect` (the UI rectangle under the DPI scale) and plays
/// the recorded drawable back translated to the UI-space origin, under
/// the same scoped clip.
#[derive(Clone, Copy, PartialEq, Eq, Structural, Debug)]
pub struct CallbackCommand {
    pub clip_rect: Rect,
    pub callback: u64,
    pub device_rect: Rect,
    pub origin_x: i64,
    pub origin_y: i64,
}

/// One scoped canvas operation. Each command stands on its own: the
/// canvas state (DPI transform and clip) is established for it and
/// fully reverted after it, so no command can leak clip or transform
/// state into the next.
pub enum DrawCommand {
    Mesh(MeshCommand),
    Callback(CallbackCommand),
}

/// The clip rectangle a command is scoped to.
pub open spec fn cmd_clip(cmd: DrawCommand) -> Rect {
    match cmd {
        DrawCommand::Mesh(mc) => mc.clip_rect,
        DrawCommand::Callback(cc) => cc.clip_rect,
    }
}

/// What the command emitted for one primitive must be: a mesh draws
/// exactly the primitive's repaired triangles through 16-bit sub-meshes
/// under the primitive's own clip; a callback runs with the DPI-scaled
/// device rectangle, translated to the UI-space top-left corner, under
/// the primitive's own clip.
pub open spec fn cmd_for(cmd: DrawCommand, p: ClippedPrimitive, dpi: int) -> bool {
    match p.primitive {
        Primitive::Mesh(mesh) => cmd matches DrawCommand::Mesh(mc) && mc.clip_rect == p.clip_rect
            && sub_meshes_ok(mc.sub_meshes@, mesh.texture_id) && sub_meshes_tris(mc.sub_meshes@)
            == fixed_tris(mesh),
        Primitive::Callback(cb) => cmd == DrawCommand::Callback(
            CallbackCommand {
                clip_rect: p.clip_rect,
                callback: cb.callback,
                device_rect: scale_rect_spec(cb.rect, dpi),
                origin_x: cb.rect.left,
                origin_y: cb.rect.top,
            },
        ),
    }
}

/// Walk the clipped primitive list in order and translate each
/// primitive into the scoped draw command the backend must execute;
/// fails loudly on the first mesh whose texture has no record.
#[verifier::loop_isolation(false)]
pub fn paint(cache: &TextureCache, dpi: i64, primitives: &Vec<ClippedPrimitive>) -> (r: Result<
    Vec<DrawCommand>,
    PaintError,
>)
    requires
        cache.wf(),
        scale_in_range(dpi as int),
        prims_wf(primitives@),
    ensures
        r is Ok <==> all_loaded(cache@, primitives@),
        r matches Ok(cmds) ==> cmds@.len() == primitives@.len() && (forall|k: int|
            0 <= k < primitives@.len() ==> cmd_for(#[trigger] cmds@[k], primitives@[k], dpi as int)),
        r matches Err(e) ==> e == PaintError::TextureMissing(first_missing(cache@, primitives@)),
{
    let mut cmds: Vec<DrawCommand> = Vec::new();
    let mut i: usize = 0;
    proof {
        assert(primitives@.skip(0) =~= primitives@);
    }
    while i < primitives.len()
        invariant
            i <= primitives@.len(),
            cmds@.len() == i,
            forall|k: int|
                0 <= k < i ==> cmd_for(#[trigger] cmds@[k], primitives@[k], dpi as int),
            forall|k: int|
                0 <= k < i ==> ((#[trigger] primitives@[k]).primitive matches Primitive::Mesh(mesh)
                    ==> cache@.contains_key(mesh.texture_id)),
            first_missing(cache@, primitives@) == first_missing(
                cache@,
                primitives@.skip(i as int),
            ),
        decreases primitives@.len() - i,
    {
        proof {
            assert(primitives@.skip(i as int)[0] == primitives@[i as int]);
            assert(primitives@.skip(i as int).skip(1) =~= primitives@.skip(i as int + 1));
        }
        let prim = &primitives[i];
        match &prim.primitive {
            Primitive::Mesh(mesh) => {
                if !cache.contains(mesh.texture_id) {
                    proof {
                        assert(!all_loaded(cache@, primitives@)) by {
                            assert(primitives@[i as int].primitive matches Primitive::Mesh(mm)
                                ==> !cache@.contains_key(mm.texture_id));
                        }
                    }
                    return Err(PaintError::TextureMissing(mesh.texture_id));
                }
                let prepared = prepare_mesh(mesh);
                proof {
                    assert(prepared.is_valid_spec());
                    assert(prepared.spans_fit_spec());
                }
                let subs = split_to_u16(prepared);
                cmds.push(
                    DrawCommand::Mesh(MeshCommand { clip_rect: prim.clip_rect, sub_meshes: subs }),
                );
            },
            Primitive::Callback(cb) => {
                let device_rect = scale_rect(&cb.rect, dpi);
                cmds.push(
                    DrawCommand::Callback(
                        CallbackCommand {
                            clip_rect: prim.clip_rect,
                            callback: cb.callback,
                            device_rect,
                            origin_x: cb.rect.left,
                            origin_y: cb.rect.top,
                        },
                    ),
                );
            },
        }
        i = i + 1;
    }
    proof {
        assert(primitives@.take(primitives@.len() as int) =~= primitives@);
    }
    Ok(cmds)
}

/// Law: the command list preserves document order and clip scoping.
/// The command at any position carries exactly the clip rectangle of
/// the primitive at that position, so a later primitive's draw is
/// confined to its own clip and cannot disturb an earlier primitive's
/// clip scope.
pub proof fn lemma_clip_scope_per_primitive(
    cmds: Seq<DrawCommand>,
    ps: Seq<ClippedPrimitive>,
    dpi: int,
    k: int,
)
    requires
        cmds.len() == ps.len(),
        forall|j: int| 0 <= j < ps.len() ==> cmd_for(#[trigger] cmds[j], ps[j], dpi),
        0 <= k < ps.len(),
    ensures
        cmd_clip(cmds[k]) == ps[k].clip_rect,
{
    assert(cmd_for(cmds[k], ps[k], dpi));
}

/// Law: uploading a full image for a fresh texture id and freeing that
/// id in the same delta batch leaves every primitive list that
/// references the id unloaded: `all_loaded` is false for it.
pub proof fn lemma_upload_then_free_not_loaded(
    m: Map<TextureId, RecordModel>,
    id: TextureId,
    d: DeltaModel,
    ps: Seq<ClippedPrimitive>,
)
    requires
        d.pos is None,
        d.image.wf(),
        exists|k: int|
            0 <= k < ps.len() && ((#[trigger] ps[k]).primitive matches Primitive::Mesh(mesh)
                && mesh.texture_id == id),
    ensures
        !all_loaded(apply_frees_model(apply_sets_model(m, seq![(id, d)]), seq![id]), ps),
{
    crate::textures::lemma_upload_then_free_leaves_no_record(m, id, d);
    let m2 = apply_frees_model(apply_sets_model(m, seq![(id, d)]), seq![id]);
    assert(!m2.contains_key(id));
    let k = choose|k: int|
        0 <= k < ps.len() && ((#[trigger] ps[k]).primitive matches Primitive::Mesh(mesh)
            && mesh.texture_id == id);
    assert(!all_loaded(m2, ps)) by {
        assert(ps[k].primitive matches Primitive::Mesh(mesh) && !m2.contains_key(mesh.texture_id));
    }
}

} // verus!
