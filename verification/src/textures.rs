use vstd::prelude::*;
use vstd::arithmetic::div_mod::lemma_fundamental_div_mod_converse;
use crate::color::Color32;

verus! {

/// Identifies a logical texture; stable across frames until explicitly
/// freed by a delta batch.
#[derive(Clone, Copy, PartialEq, Eq, Structural, Hash, Debug)]
pub enum TextureId {
    /// Texture allocated by the UI layer itself (font atlases and friends).
    Managed(u64),
    /// Texture allocated by the embedding application.
    User(u64),
}

/// How a sampled texture is interpolated.
#[derive(Clone, Copy, PartialEq, Eq, Structural, Hash, Debug)]
pub enum TextureFilter {
    Nearest,
    Linear,
}

/// Sampling options attached to a texture record: the magnification
/// filter and the mip policy used for minification.
#[derive(Clone, Copy, PartialEq, Eq, Structural, Hash, Debug)]
pub struct TextureOptions {
    pub magnification: TextureFilter,
    pub minification: TextureFilter,
}

/// A row-major grid of premultiplied 8-bit RGBA pixels.
pub struct ColorImage {
    pub width: usize,
    pub height: usize,
    /// Row-major pixels; row `r`, column `c` lives at `r * width + c`.
    pub pixels: Vec<Color32>,
}

/// Mathematical model of a pixel grid.
pub ghost struct ImageModel {
    pub width: nat,
    pub height: nat,
    pub pixels: Seq<Color32>,
}

impl ImageModel {
    /// A well-formed image holds exactly one pixel per grid cell.
    pub open spec fn wf(self) -> bool {
        self.pixels.len() == self.width * self.height
    }

    pub open spec fn pixel(self, row: int, col: int) -> Color32 {
        self.pixels[row * self.width + col]
    }
}

impl View for ColorImage {
    type V = ImageModel;

    open spec fn view(&self) -> ImageModel {
        ImageModel { width: self.width as nat, height: self.height as nat, pixels: self.pixels@ }
    }
}

impl ColorImage {
    /// Does the pixel payload match the claimed dimensions?
    pub fn is_well_formed(&self) -> (r: bool)
        ensures
            r == self@.wf(),
    {
        let len = self.pixels.len();
        match self.width.checked_mul(self.height) {
            Some(n) => len == n,
            None => false,
        }
    }
}

/// One incremental texture operation: a full upload when `pos` is absent,
/// a partial patch at `pos` into an existing texture when it is present.
pub struct ImageDelta {
    /// Target position `(x, y)` of the patch; `None` replaces the whole
    /// texture.
    pub pos: Option<(usize, usize)>,
    pub image: ColorImage,
    pub options: TextureOptions,
}

pub ghost struct DeltaModel {
    pub pos: Option<(nat, nat)>,
    pub image: ImageModel,
    pub options: TextureOptions,
}

impl View for ImageDelta {
    type V = DeltaModel;

    open spec fn view(&self) -> DeltaModel {
        DeltaModel {
            pos: match self.pos {
                Some((x, y)) => Some((x as nat, y as nat)),
                None => None,
            },
            image: self.image@,
            options: self.options,
        }
    }
}

/// The live record kept for one texture id: the current full image and
/// the sampling options the draw paint is built with.
pub struct TextureRecord {
    pub image: ColorImage,
    pub options: TextureOptions,
}

pub ghost struct RecordModel {
    pub image: ImageModel,
    pub options: TextureOptions,
}

impl View for TextureRecord {
    type V = RecordModel;

    open spec fn view(&self) -> RecordModel {
        RecordModel { image: self.image@, options: self.options }
    }
}

/// A per-frame batch of texture operations: uploads and patches in
/// `set`, applied in order, then the ids in `free` released.
pub struct TexturesDelta {
    pub set: Vec<(TextureId, ImageDelta)>,
    pub free: Vec<TextureId>,
}

/// The errors with which a rendering call fails loudly; each one marks a
/// precondition violation by the calling layer.
#[derive(Clone, Copy, PartialEq, Eq, Structural, Debug)]
pub enum PaintError {
    /// A delta's pixel payload does not match its claimed dimensions.
    MalformedPixelBuffer(TextureId),
    /// A patch targeted a texture id with no existing record.
    PatchTargetMissing(TextureId),
    /// A mesh referenced a texture id with no existing record.
    TextureMissing(TextureId),
}

/// The pixel the patched image holds at `(row, col)`: the patch payload
/// inside the target sub-rectangle, the base image's pixel outside it.
pub open spec fn patched_pixel(
    base: ImageModel,
    patch: ImageModel,
    x: int,
    y: int,
    row: int,
    col: int,
) -> Color32 {
    if y <= row < y + patch.height && x <= col < x + patch.width {
        patch.pixels[(row - y) * patch.width + (col - x)]
    } else {
        base.pixels[row * base.width + col]
    }
}

/// The result of compositing `patch` into `base` at offset `(x, y)`:
/// same dimensions as `base`, patch pixels inside the sub-rectangle,
/// base pixels preserved bit-for-bit outside it.
pub open spec fn patched_image(base: ImageModel, patch: ImageModel, x: int, y: int) -> ImageModel {
    ImageModel {
        width: base.width,
        height: base.height,
        pixels: Seq::new(
            (base.height * base.width) as nat,
            |i: int| patched_pixel(base, patch, x, y, i / base.width as int, i % base.width as int),
        ),
    }
}

/// Composite a patch image into a base image at offset `(x, y)`,
/// clipping the patch to the base's bounds: every pixel outside the
/// patched sub-rectangle is preserved, every pixel inside it is replaced
/// by the patch payload.
pub fn composite(base: &ColorImage, patch: &ColorImage, x: usize, y: usize) -> (out: ColorImage)
    requires
        base@.wf(),
        patch@.wf(),
    ensures
        out@ == patched_image(base@, patch@, x as int, y as int),
        out@.wf(),
{
    let ghost target = patched_image(base@, patch@, x as int, y as int);
    let w = base.width;
    let h = base.height;
    let base_len = base.pixels.len();
    let patch_len = patch.pixels.len();
    proof {
        assert(base@.height * base@.width == base@.width * base@.height) by (nonlinear_arith);
    }
    let mut pixels: Vec<Color32> = Vec::new();
    let mut row: usize = 0;
    while row < h
        invariant
            w == base.width,
            h == base.height,
            base@.wf(),
            patch@.wf(),
            base@.pixels.len() == base_len,
            patch@.pixels.len() == patch_len,
            target == patched_image(base@, patch@, x as int, y as int),
            target.pixels.len() == h * w,
            row <= h,
            pixels@.len() == row * w,
            pixels@ == target.pixels.take((row * w) as int),
        decreases h - row,
    {
        let mut col: usize = 0;
        proof {
            assert((row + 1) * w <= h * w) by (nonlinear_arith)
                requires
                    row < h,
                    0 <= w,
            ;
            assert(row * w + w == (row + 1) * w) by (nonlinear_arith);
        }
        while col < w
            invariant
                w == base.width,
                h == base.height,
                base@.wf(),
                patch@.wf(),
                base@.pixels.len() == base_len,
                patch@.pixels.len() == patch_len,
                target == patched_image(base@, patch@, x as int, y as int),
                target.pixels.len() == h * w,
                row < h,
                col <= w,
                row * w + w <= h * w,
                pixels@.len() == row * w + col,
                pixels@ == target.pixels.take((row * w + col) as int),
            decreases w - col,
        {
            let p: Color32 = if row >= y && row - y < patch.height && col >= x && col - x
                < patch.width {
                let pr = row - y;
                let pc = col - x;
                proof {
                    assert(pr * patch@.width + pc < patch@.height * patch@.width)
                        by (nonlinear_arith)
                        requires
                            0 <= pr < patch@.height,
                            0 <= pc < patch@.width,
                    ;
                    assert(patch@.height * patch@.width == patch@.width * patch@.height)
                        by (nonlinear_arith);
                }
                patch.pixels[pr * patch.width + pc]
            } else {
                proof {
                    assert(row * w + col < h * w) by (nonlinear_arith)
                        requires
                            0 <= row < h,
                            0 <= col < w,
                    ;
                    assert(h * w == w * h) by (nonlinear_arith);
                }
                base.pixels[row * w + col]
            };
            proof {
                assert(row * w + col < h * w) by (nonlinear_arith)
                    requires
                        0 <= row < h,
                        0 <= col < w,
                ;
                vstd::arithmetic::div_mod::lemma_fundamental_div_mod_converse(
                    (row * w + col) as int,
                    w as int,
                    row as int,
                    col as int,
                );
                assert(target.pixels[(row * w + col) as int] == patched_pixel(
                    base@,
                    patch@,
                    x as int,
                    y as int,
                    row as int,
                    col as int,
                ));
            }
            pixels.push(p);
            proof {
                assert(pixels@ =~= target.pixels.take((row * w + col + 1) as int));
            }
            col = col + 1;
        }
        row = row + 1;
    }
    proof {
        assert(pixels@ =~= target.pixels);
        assert(target.wf()) by {
            assert(target.pixels.len() == base@.height * base@.width);
            assert(base@.width * base@.height == base@.height * base@.width) by (nonlinear_arith);
        }
    }
    ColorImage { width: w, height: h, pixels }
}

/// No id appears twice in the cache's backing store.
spec fn keys_distinct(s: Seq<(TextureId, TextureRecord)>) -> bool {
    forall|i: int, j: int| 0 <= i < j < s.len() ==> s[i].0 != s[j].0
}

/// The map an entry list denotes; later entries would win, and the
/// cache keeps keys distinct so the order never matters.
spec fn entries_map(s: Seq<(TextureId, TextureRecord)>) -> Map<TextureId, RecordModel>
    decreases s.len(),
{
    if s.len() == 0 {
        Map::empty()
    } else {
        entries_map(s.drop_last()).insert(s.last().0, s.last().1@)
    }
}

proof fn lemma_entries_map_absent(s: Seq<(TextureId, TextureRecord)>, id: TextureId)
    requires
        forall|i: int| 0 <= i < s.len() ==> s[i].0 != id,
    ensures
        !entries_map(s).contains_key(id),
    decreases s.len(),
{
    if s.len() > 0 {
        lemma_entries_map_absent(s.drop_last(), id);
    }
}

proof fn lemma_entries_map_get(s: Seq<(TextureId, TextureRecord)>, i: int)
    requires
        keys_distinct(s),
        0 <= i < s.len(),
    ensures
        entries_map(s).contains_key(s[i].0),
        entries_map(s)[s[i].0] == s[i].1@,
    decreases s.len(),
{
    if i < s.len() - 1 {
        lemma_entries_map_get(s.drop_last(), i);
    }
}

proof fn lemma_entries_map_update(s: Seq<(TextureId, TextureRecord)>, i: int, rec: TextureRecord)
    requires
        keys_distinct(s),
        0 <= i < s.len(),
    ensures
        keys_distinct(s.update(i, (s[i].0, rec))),
        entries_map(s.update(i, (s[i].0, rec))) == entries_map(s).insert(s[i].0, rec@),
    decreases s.len(),
{
    let id = s[i].0;
    let s2 = s.update(i, (id, rec));
    if i == s.len() - 1 {
        assert(s2.drop_last() =~= s.drop_last());
        assert(entries_map(s2) =~= entries_map(s).insert(id, rec@));
    } else {
        assert(s2.drop_last() =~= s.drop_last().update(i, (id, rec)));
        lemma_entries_map_update(s.drop_last(), i, rec);
        let last = s.last();
        assert(entries_map(s2) == entries_map(s.drop_last()).insert(id, rec@).insert(
            last.0,
            last.1@,
        ));
        assert(entries_map(s.drop_last()).insert(id, rec@).insert(last.0, last.1@)
            =~= entries_map(s.drop_last()).insert(last.0, last.1@).insert(id, rec@));
    }
}

proof fn lemma_entries_map_remove(s: Seq<(TextureId, TextureRecord)>, i: int)
    requires
        keys_distinct(s),
        0 <= i < s.len(),
    ensures
        keys_distinct(s.remove(i)),
        entries_map(s.remove(i)) == entries_map(s).remove(s[i].0),
    decreases s.len(),
{
    let id = s[i].0;
    if i == s.len() - 1 {
        assert(s.remove(i) =~= s.drop_last());
        lemma_entries_map_absent(s.drop_last(), id);
        assert(entries_map(s.drop_last()) =~= entries_map(s).remove(id));
    } else {
        assert(s.remove(i).drop_last() =~= s.drop_last().remove(i));
        assert(s.remove(i).last() == s.last());
        lemma_entries_map_remove(s.drop_last(), i);
        let last = s.last();
        assert(entries_map(s.remove(i)) == entries_map(s.drop_last()).remove(id).insert(
            last.0,
            last.1@,
        ));
        assert(entries_map(s.drop_last()).remove(id).insert(last.0, last.1@) =~= entries_map(
            s.drop_last(),
        ).insert(last.0, last.1@).remove(id));
    }
}

/// Whether one delta entry is admissible against the current cache
/// state: its payload matches its dimensions, and a patch targets an id
/// that already has a record.
pub open spec fn delta_ok(m: Map<TextureId, RecordModel>, id: TextureId, d: DeltaModel) -> bool {
    d.image.wf() && (d.pos is Some ==> m.contains_key(id))
}

/// The cache state after one admissible delta entry: a full upload
/// replaces the record wholesale, a patch composites the payload into
/// the existing image at the given offset.
pub open spec fn apply_set_model(
    m: Map<TextureId, RecordModel>,
    id: TextureId,
    d: DeltaModel,
) -> Map<TextureId, RecordModel> {
    match d.pos {
        None => m.insert(id, RecordModel { image: d.image, options: d.options }),
        Some(pos) => m.insert(
            id,
            RecordModel {
                image: patched_image(m[id].image, d.image, pos.0 as int, pos.1 as int),
                options: d.options,
            },
        ),
    }
}

/// The error an inadmissible delta entry fails with.
pub open spec fn set_error(id: TextureId, d: DeltaModel) -> PaintError {
    if !d.image.wf() {
        PaintError::MalformedPixelBuffer(id)
    } else {
        PaintError::PatchTargetMissing(id)
    }
}

/// The models of a batch's set entries, in order.
pub open spec fn sets_model(s: Seq<(TextureId, ImageDelta)>) -> Seq<(TextureId, DeltaModel)> {
    s.map_values(|p: (TextureId, ImageDelta)| (p.0, p.1@))
}

/// The cache state after applying a batch's set entries in order,
/// stopping at the first inadmissible entry.
pub open spec fn apply_sets_model(
    m: Map<TextureId, RecordModel>,
    es: Seq<(TextureId, DeltaModel)>,
) -> Map<TextureId, RecordModel>
    decreases es.len(),
{
    if es.len() == 0 {
        m
    } else if delta_ok(m, es[0].0, es[0].1) {
        apply_sets_model(apply_set_model(m, es[0].0, es[0].1), es.skip(1))
    } else {
        m
    }
}

/// The position of the first inadmissible set entry, or the batch
/// length when every entry is admissible.
pub open spec fn first_bad_set(
    m: Map<TextureId, RecordModel>,
    es: Seq<(TextureId, DeltaModel)>,
) -> int
    decreases es.len(),
{
    if es.len() == 0 {
        0
    } else if delta_ok(m, es[0].0, es[0].1) {
        1 + first_bad_set(apply_set_model(m, es[0].0, es[0].1), es.skip(1))
    } else {
        0
    }
}

/// The error the first inadmissible set entry fails with; meaningful
/// only when one exists.
pub open spec fn set_error_at(
    m: Map<TextureId, RecordModel>,
    es: Seq<(TextureId, DeltaModel)>,
) -> PaintError {
    let fb = first_bad_set(m, es);
    set_error(es[fb].0, es[fb].1)
}

/// The cache state after releasing the given ids in order; an id with
/// no record is passed over.
pub open spec fn apply_frees_model(
    m: Map<TextureId, RecordModel>,
    ids: Seq<TextureId>,
) -> Map<TextureId, RecordModel>
    decreases ids.len(),
{
    if ids.len() == 0 {
        m
    } else {
        apply_frees_model(m.remove(ids[0]), ids.skip(1))
    }
}

/// Law: patching a well-formed image preserves every pixel outside the
/// patched sub-rectangle bit-for-bit and replaces every pixel inside it
/// with the patch payload.
pub proof fn lemma_patch_pixels(base: ImageModel, patch: ImageModel, x: int, y: int, row: int, col: int)
    requires
        base.wf(),
        0 <= row < base.height,
        0 <= col < base.width,
    ensures
        y <= row < y + patch.height && x <= col < x + patch.width ==> patched_image(
            base,
            patch,
            x,
            y,
        ).pixel(row, col) == patch.pixel(row - y, col - x),
        !(y <= row < y + patch.height && x <= col < x + patch.width) ==> patched_image(
            base,
            patch,
            x,
            y,
        ).pixel(row, col) == base.pixel(row, col),
{
    let w = base.width as int;
    assert(0 <= row * w + col < base.height * w) by (nonlinear_arith)
        requires
            0 <= row < base.height,
            0 <= col < w,
    ;
    lemma_fundamental_div_mod_converse(row * w + col, w, row, col);
}

/// Law: freeing an id that has no record leaves the cache exactly as it
/// was; it is a no-op, not an error.
pub proof fn lemma_free_unknown_is_noop(m: Map<TextureId, RecordModel>, id: TextureId)
    requires
        !m.contains_key(id),
    ensures
        apply_frees_model(m, seq![id]) == m,
{
    assert(m.remove(id) =~= m);
    assert(seq![id].skip(1) =~= Seq::<TextureId>::empty());
    assert(apply_frees_model(m, seq![id]) == apply_frees_model(m.remove(id), seq![id].skip(1)));
    assert(apply_frees_model(m.remove(id), seq![id].skip(1)) == m.remove(id));
}

/// Law: uploading a full image for an id and freeing that id in the
/// same batch leaves the cache without a record for it.
pub proof fn lemma_upload_then_free_leaves_no_record(
    m: Map<TextureId, RecordModel>,
    id: TextureId,
    d: DeltaModel,
)
    requires
        d.pos is None,
        d.image.wf(),
    ensures
        !apply_frees_model(apply_sets_model(m, seq![(id, d)]), seq![id]).contains_key(id),
        apply_frees_model(apply_sets_model(m, seq![(id, d)]), seq![id]) == m.remove(id),
{
    let es = seq![(id, d)];
    assert(es.skip(1) =~= Seq::<(TextureId, DeltaModel)>::empty());
    assert(seq![id].skip(1) =~= Seq::<TextureId>::empty());
    let m1 = apply_set_model(m, id, d);
    assert(es[0] == (id, d));
    assert(delta_ok(m, id, d));
    assert(apply_sets_model(m, es) == apply_sets_model(m1, es.skip(1)));
    assert(apply_sets_model(m1, es.skip(1)) == m1);
    assert(apply_frees_model(m1, seq![id]) == apply_frees_model(m1.remove(id), seq![id].skip(1)));
    assert(apply_frees_model(m1.remove(id), seq![id].skip(1)) == m1.remove(id));
    assert(m1.remove(id) =~= m.remove(id));
}

/// The live texture store: one record per uploaded texture id, mutated
/// each frame by a delta batch and read by the primitive renderer.
pub struct TextureCache {
    entries: Vec<(TextureId, TextureRecord)>,
}

impl View for TextureCache {
    type V = Map<TextureId, RecordModel>;

    closed spec fn view(&self) -> Map<TextureId, RecordModel> {
        entries_map(self.entries@)
    }
}

impl TextureCache {
    /// The cache's internal invariant: no id has two records, and every
    /// record holds a well-formed pixel grid.
    pub closed spec fn wf(&self) -> bool {
        keys_distinct(self.entries@) && (forall|i: int|
            0 <= i < self.entries@.len() ==> (#[trigger] self.entries@[i].1)@.image.wf())
    }

    /// An empty cache: no texture id has a record.
    pub fn new() -> (r: TextureCache)
        ensures
            r.wf(),
            r@ == Map::<TextureId, RecordModel>::empty(),
    {
        TextureCache { entries: Vec::new() }
    }

    fn find(&self, id: TextureId) -> (r: Option<usize>)
        ensures
            match r {
                Some(i) => i < self.entries@.len() && self.entries@[i as int].0 == id,
                None => forall|i: int| 0 <= i < self.entries@.len() ==> self.entries@[i].0 != id,
            },
    {
        let n = self.entries.len();
        let mut i: usize = 0;
        while i < n
            invariant
                n == self.entries@.len(),
                i <= n,
                forall|j: int| 0 <= j < i ==> self.entries@[j].0 != id,
            decreases n - i,
        {
            if self.entries[i].0 == id {
                return Some(i);
            }
            i = i + 1;
        }
        None
    }

    /// Is there a record for this id?
    pub fn contains(&self, id: TextureId) -> (r: bool)
        requires
            self.wf(),
        ensures
            r == self@.contains_key(id),
    {
        match self.find(id) {
            Some(i) => {
                proof {
                    lemma_entries_map_get(self.entries@, i as int);
                }
                true
            },
            None => {
                proof {
                    lemma_entries_map_absent(self.entries@, id);
                }
                false
            },
        }
    }

    /// The record for this id, if one is live.
    pub fn get(&self, id: TextureId) -> (r: Option<&TextureRecord>)
        requires
            self.wf(),
        ensures
            match r {
                Some(rec) => self@.contains_key(id) && rec@ == self@[id] && rec@.image.wf(),
                None => !self@.contains_key(id),
            },
    {
        match self.find(id) {
            Some(i) => {
                proof {
                    lemma_entries_map_get(self.entries@, i as int);
                }
                Some(&self.entries[i].1)
            },
            None => {
                proof {
                    lemma_entries_map_absent(self.entries@, id);
                }
                None
            },
        }
    }

    /// Store or replace the record for an id.
    fn insert(&mut self, id: TextureId, rec: TextureRecord)
        requires
            old(self).wf(),
            rec@.image.wf(),
        ensures
            final(self).wf(),
            final(self)@ == old(self)@.insert(id, rec@),
    {
        match self.find(id) {
            Some(i) => {
                proof {
                    lemma_entries_map_update(self.entries@, i as int, rec);
                }
                self.entries.set(i, (id, rec));
            },
            None => {
                proof {
                    lemma_entries_map_absent(self.entries@, id);
                    assert(self.entries@.push((id, rec)).drop_last() =~= self.entries@);
                }
                self.entries.push((id, rec));
            },
        }
    }

    /// Apply a batch's ordered upload and patch entries, then release the
    /// freed ids; stops loudly at the first malformed entry.
    pub fn apply_deltas(
        &mut self,
        sets: Vec<(TextureId, ImageDelta)>,
        frees: &Vec<TextureId>,
    ) -> (r: Result<(), PaintError>)
        requires
            old(self).wf(),
        ensures
            final(self).wf(),
            r is Ok <==> first_bad_set(old(self)@, sets_model(sets@)) == sets_model(sets@).len(),
            r is Ok ==> final(self)@ == apply_frees_model(
                apply_sets_model(old(self)@, sets_model(sets@)),
                frees@,
            ),
            r matches Err(e) ==> final(self)@ == apply_sets_model(old(self)@, sets_model(sets@))
                && e == (set_error_at(old(self)@, sets_model(sets@))),
    {
        match self.apply_sets(sets) {
            Err(e) => Err(e),
            Ok(()) => {
                self.apply_frees(frees);
                Ok(())
            },
        }
    }

    /// Apply the ordered upload and patch entries of one delta batch.
    /// Each entry is validated before it mutates the cache: a full upload
    /// stores a fresh record, a patch composites into the existing record,
    /// and the first bad entry stops the batch with the matching error.
    #[verifier::loop_isolation(false)]
    pub fn apply_sets(&mut self, sets: Vec<(TextureId, ImageDelta)>) -> (r: Result<
        (),
        PaintError,
    >)
        requires
            old(self).wf(),
        ensures
            final(self).wf(),
            final(self)@ == apply_sets_model(old(self)@, sets_model(sets@)),
            r is Ok <==> first_bad_set(old(self)@, sets_model(sets@)) == sets_model(sets@).len(),
            r matches Err(e) ==> e == (set_error_at(old(self)@, sets_model(sets@))),
    {
        let ghost all = sets_model(sets@);
        let ghost m0 = self@;
        let mut rest = sets;
        let ghost mut processed: int = 0;
        proof {
            assert(all.skip(0) =~= all);
        }
        while rest.len() > 0
            invariant
                self.wf(),
                0 <= processed <= all.len(),
                sets_model(rest@) == all.skip(processed),
                apply_sets_model(m0, all) == apply_sets_model(self@, all.skip(processed)),
                first_bad_set(m0, all) == processed + first_bad_set(self@, all.skip(processed)),
                processed + rest@.len() == all.len(),
            decreases rest@.len(),
        {
            let ghost m_here = self@;
            let ghost before = rest@;
            let (id, delta) = rest.remove(0);
            proof {
                assert(rest@ =~= before.skip(1));
                assert(sets_model(before.skip(1)) =~= sets_model(before).skip(1));
                assert(sets_model(before)[0] == (id, delta@));
                assert(all.skip(processed).skip(1) =~= all.skip(processed + 1));
                assert(all.skip(processed)[0] == all[processed]);
            }
            if !delta.image.is_well_formed() {
                proof {
                    assert(!delta_ok(m_here, id, delta@));
                    assert(apply_sets_model(m_here, all.skip(processed)) == m_here);
                    assert(first_bad_set(m_here, all.skip(processed)) == 0);
                }
                return Err(PaintError::MalformedPixelBuffer(id));
            }
            let rec = match delta.pos {
                None => TextureRecord { image: delta.image, options: delta.options },
                Some((x, y)) => {
                    let new_image = match self.get(id) {
                        Some(existing) => composite(&existing.image, &delta.image, x, y),
                        None => {
                            proof {
                                assert(!delta_ok(m_here, id, delta@));
                                assert(apply_sets_model(m_here, all.skip(processed)) == m_here);
                                assert(first_bad_set(m_here, all.skip(processed)) == 0);
                            }
                            return Err(PaintError::PatchTargetMissing(id));
                        },
                    };
                    TextureRecord { image: new_image, options: delta.options }
                },
            };
            proof {
                assert(delta_ok(m_here, id, delta@));
            }
            self.insert(id, rec);
            proof {
                assert(self@ == apply_set_model(m_here, id, delta@));
                assert(apply_sets_model(m_here, all.skip(processed)) == apply_sets_model(
                    self@,
                    all.skip(processed + 1),
                ));
                assert(first_bad_set(m_here, all.skip(processed)) == 1 + first_bad_set(
                    self@,
                    all.skip(processed + 1),
                ));
                processed = processed + 1;
            }
        }
        Ok(())
    }

    /// Release the records of the given ids, in order; freeing an id with
    /// no record is a no-op.
    pub fn apply_frees(&mut self, frees: &Vec<TextureId>)
        requires
            old(self).wf(),
        ensures
            final(self).wf(),
            final(self)@ == apply_frees_model(old(self)@, frees@),
    {
        let ghost all = frees@;
        let ghost m0 = self@;
        proof {
            assert(all.skip(0) =~= all);
        }
        let mut i: usize = 0;
        while i < frees.len()
            invariant
                self.wf(),
                all == frees@,
                i <= all.len(),
                apply_frees_model(m0, all) == apply_frees_model(self@, all.skip(i as int)),
            decreases all.len() - i,
        {
            proof {
                assert(all.skip(i as int)[0] == all[i as int]);
                assert(all.skip(i as int).skip(1) =~= all.skip(i as int + 1));
            }
            self.remove(frees[i]);
            i = i + 1;
        }
    }

    /// Remove and release the record for an id; a no-op when none is live.
    fn remove(&mut self, id: TextureId)
        requires
            old(self).wf(),
        ensures
            final(self).wf(),
            final(self)@ == old(self)@.remove(id),
    {
        match self.find(id) {
            Some(i) => {
                proof {
                    lemma_entries_map_remove(self.entries@, i as int);
                }
                self.entries.remove(i);
            },
            None => {
                proof {
                    lemma_entries_map_absent(self.entries@, id);
                    assert(self@.remove(id) =~= self@);
                }
            },
        }
    }
}

} // verus!
