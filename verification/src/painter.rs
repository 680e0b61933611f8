use vstd::prelude::*;
use crate::fixed::scale_in_range;
use crate::renderer::{all_loaded, all_textures_loaded, cmd_for, first_missing, paint, prims_wf,
    ClippedPrimitive, DrawCommand};
use crate::textures::{apply_frees_model, apply_sets_model, first_bad_set, set_error_at,
    sets_model, PaintError, RecordModel, TextureCache, TextureId, TexturesDelta};

verus! {

/// The painter: the session-scoped state owning the full texture id to
/// texture record mapping. Each frame it applies the incoming texture
/// deltas, plans the scoped draw commands for the clipped primitive
/// list, and finally releases the freed ids.
pub struct Painter {
    cache: TextureCache,
}

impl View for Painter {
    type V = Map<TextureId, RecordModel>;

    closed spec fn view(&self) -> Map<TextureId, RecordModel> {
        self.cache@
    }
}

impl Painter {
    pub closed spec fn wf(&self) -> bool {
        self.cache.wf()
    }

    /// A painter with an empty texture cache.
    pub fn new() -> (r: Painter)
        ensures
            r.wf(),
            r@ == Map::<TextureId, RecordModel>::empty(),
    {
        Painter { cache: TextureCache::new() }
    }

    /// The live record for a texture id: the current composited image
    /// and the sampling options the backend builds its paint with.
    pub fn texture(&self, id: TextureId) -> (r: Option<&crate::textures::TextureRecord>)
        requires
            self.wf(),
        ensures
            match r {
                Some(rec) => self@.contains_key(id) && rec@ == self@[id] && rec@.image.wf(),
                None => !self@.contains_key(id),
            },
    {
        self.cache.get(id)
    }

    /// Does every texture a mesh primitive references have a record?
    pub fn all_textures_loaded(&self, primitives: &Vec<ClippedPrimitive>) -> (r: bool)
        requires
            self.wf(),
        ensures
            r == all_loaded(self@, primitives@),
    {
        all_textures_loaded(&self.cache, primitives)
    }

    /// Apply a delta batch's uploads and patches, plan the scoped draw
    /// commands for the primitives in document order, then release the
    /// batch's freed ids.
    ///
    /// On success the returned commands draw each primitive under its
    /// own clip rectangle at the given DPI scale. The call fails loudly
    /// on the first malformed upload, patch of an unknown id, or mesh
    /// referencing a texture with no record; uploads already applied
    /// stay applied, and the frees are only applied after a successful
    /// paint, as the frame contract demands.
    pub fn paint_and_update_textures(
        &mut self,
        dpi: i64,
        primitives: &Vec<ClippedPrimitive>,
        textures_delta: TexturesDelta,
    ) -> (r: Result<Vec<DrawCommand>, PaintError>)
        requires
            old(self).wf(),
            scale_in_range(dpi as int),
            prims_wf(primitives@),
        ensures
            final(self).wf(),
            ({
                let sets = sets_model(textures_delta.set@);
                let m1 = apply_sets_model(old(self)@, sets);
                let sets_ok = first_bad_set(old(self)@, sets) == sets.len();
                &&& (r is Ok <==> sets_ok && all_loaded(m1, primitives@))
                &&& (r matches Ok(cmds) ==> final(self)@ == apply_frees_model(
                    m1,
                    textures_delta.free@,
                ) && cmds@.len() == primitives@.len() && (forall|k: int|
                    0 <= k < primitives@.len() ==> cmd_for(
                        #[trigger] cmds@[k],
                        primitives@[k],
                        dpi as int,
                    )))
                &&& (!sets_ok ==> r == Result::<Vec<DrawCommand>, PaintError>::Err(
                    set_error_at(old(self)@, sets),
                ) && final(self)@ == m1)
                &&& (sets_ok && !all_loaded(m1, primitives@) ==> r == Result::<
                    Vec<DrawCommand>,
                    PaintError,
                >::Err(PaintError::TextureMissing(first_missing(m1, primitives@))) && final(self)@
                    == m1)
            }),
    {
        let TexturesDelta { set, free } = textures_delta;
        match self.cache.apply_sets(set) {
            Ok(()) => {},
            Err(e) => {
                return Err(e);
            },
        }
        let cmds = match paint(&self.cache, dpi, primitives) {
            Ok(c) => c,
            Err(e) => {
                return Err(e);
            },
        };
        self.cache.apply_frees(&free);
        Ok(cmds)
    }
}

impl Default for Painter {
    fn default() -> (r: Self)
        ensures
            r.wf(),
            r@ == Map::<TextureId, RecordModel>::empty(),
    {
        Painter::new()
    }
}

} // verus!
