use vstd::prelude::*;

use crate::bitmap::{Bitmap, BitmapV};
use crate::sprite::Sprite;
use crate::viewport::{Viewport, ViewportV};

verus! {

// Slots and liveness.
//
// Every scene object lives in a slot of the scene registry, addressed by its
// index; indices are never reused, so an index names one object for the whole
// life of the scene. A slot counts the strong references to its object:
// `ext` counts handles held outside the scene (the scripting layer, the
// creator), and for viewports and bitmaps `refs` counts the live sprites
// whose strong reference points at the slot. An object is alive exactly
// while some strong reference remains; a dead slot keeps its index but holds
// no value.

/// One sprite slot: the external strong-handle count and, while alive, the
/// sprite itself. Nothing inside the scene holds a sprite strongly, so
/// `ext` alone decides a sprite's lifetime.
#[derive(Clone, Copy, Debug)]
pub struct SpriteSlot {
    /// Number of external strong handles.
    pub ext: u64,
    /// The sprite, while alive.
    pub value: Option<Sprite>,
}

/// One viewport slot: external strong handles, strong references held by
/// live sprites, and, while either count is positive, the viewport itself.
#[derive(Debug)]
pub struct ViewportSlot {
    /// Number of external strong handles.
    pub ext: u64,
    /// Number of live sprites whose `viewport` reference points here.
    pub refs: u64,
    /// The viewport, while alive.
    pub value: Option<Viewport>,
}

/// One bitmap slot: external strong handles, strong references held by live
/// sprites, and, while either count is positive, the bitmap itself.
#[derive(Debug)]
pub struct BitmapSlot {
    /// Number of external strong handles.
    pub ext: u64,
    /// Number of live sprites whose `bitmap` reference points here.
    pub refs: u64,
    /// The bitmap, while alive.
    pub value: Option<Bitmap>,
}

/// The mathematical value of a [`SpriteSlot`].
#[verifier::ext_equal]
pub ghost struct SpriteSlotV {
    /// Number of external strong handles.
    pub ext: nat,
    /// The sprite, while alive.
    pub value: Option<Sprite>,
}

/// The mathematical value of a [`ViewportSlot`].
#[verifier::ext_equal]
pub ghost struct ViewportSlotV {
    /// Number of external strong handles.
    pub ext: nat,
    /// Number of live sprites referencing this viewport.
    pub refs: nat,
    /// The viewport, while alive.
    pub value: Option<ViewportV>,
}

/// The mathematical value of a [`BitmapSlot`].
#[verifier::ext_equal]
pub ghost struct BitmapSlotV {
    /// Number of external strong handles.
    pub ext: nat,
    /// Number of live sprites referencing this bitmap.
    pub refs: nat,
    /// The bitmap, while alive.
    pub value: Option<BitmapV>,
}

impl View for SpriteSlot {
    type V = SpriteSlotV;

    open spec fn view(&self) -> SpriteSlotV {
        SpriteSlotV { ext: self.ext as nat, value: self.value }
    }
}

impl View for ViewportSlot {
    type V = ViewportSlotV;

    open spec fn view(&self) -> ViewportSlotV {
        ViewportSlotV {
            ext: self.ext as nat,
            refs: self.refs as nat,
            value: match self.value {
                Some(vp) => Some(vp@),
                None => None,
            },
        }
    }
}

impl View for BitmapSlot {
    type V = BitmapSlotV;

    open spec fn view(&self) -> BitmapSlotV {
        BitmapSlotV {
            ext: self.ext as nat,
            refs: self.refs as nat,
            value: match self.value {
                Some(bm) => Some(bm@),
                None => None,
            },
        }
    }
}

/// The scene registry: every viewport, sprite and bitmap of one scene graph,
/// each in an ownership-counted slot.
pub struct Scene {
    /// Sprite slots, in creation order.
    pub sprites: Vec<SpriteSlot>,
    /// Viewport slots, in creation order.
    pub viewports: Vec<ViewportSlot>,
    /// Bitmap slots, in creation order.
    pub bitmaps: Vec<BitmapSlot>,
}

/// The mathematical value of a [`Scene`].
#[verifier::ext_equal]
pub ghost struct SceneV {
    /// Sprite slots, in creation order.
    pub sprites: Seq<SpriteSlotV>,
    /// Viewport slots, in creation order.
    pub viewports: Seq<ViewportSlotV>,
    /// Bitmap slots, in creation order.
    pub bitmaps: Seq<BitmapSlotV>,
}

impl View for Scene {
    type V = SceneV;

    open spec fn view(&self) -> SceneV {
        SceneV {
            sprites: self.sprites@.map_values(|s: SpriteSlot| s@),
            viewports: self.viewports@.map_values(|s: ViewportSlot| s@),
            bitmaps: self.bitmaps@.map_values(|s: BitmapSlot| s@),
        }
    }
}

// Reference counting over the sprite column.

/// How much one sprite slot contributes to the count of sprites satisfying
/// `p`: one if the slot holds a live sprite satisfying `p`, zero otherwise.
pub open spec fn slot_counts(slot: SpriteSlotV, p: spec_fn(Sprite) -> bool) -> nat {
    match slot.value {
        Some(sp) => if p(sp) {
            1nat
        } else {
            0nat
        },
        None => 0nat,
    }
}

/// The number of live sprites satisfying `p`.
pub open spec fn refs_count(sprites: Seq<SpriteSlotV>, p: spec_fn(Sprite) -> bool) -> nat
    decreases sprites.len(),
{
    if sprites.len() == 0 {
        0nat
    } else {
        refs_count(sprites.drop_last(), p) + slot_counts(sprites.last(), p)
    }
}

/// The sprites holding a strong reference to viewport `v`.
pub open spec fn refs_vp(v: usize) -> spec_fn(Sprite) -> bool {
    |sp: Sprite| sp.viewport == Some(v)
}

/// The sprites holding a strong reference to bitmap `b`.
pub open spec fn refs_bm(b: usize) -> spec_fn(Sprite) -> bool {
    |sp: Sprite| sp.bitmap == Some(b)
}

/// A count of sprites never exceeds the number of sprite slots.
pub proof fn lemma_refs_count_le_len(sprites: Seq<SpriteSlotV>, p: spec_fn(Sprite) -> bool)
    ensures
        refs_count(sprites, p) <= sprites.len(),
    decreases sprites.len(),
{
    if sprites.len() > 0 {
        lemma_refs_count_le_len(sprites.drop_last(), p);
    }
}

/// Appending a slot adds exactly that slot's contribution to the count.
pub proof fn lemma_refs_count_push(
    sprites: Seq<SpriteSlotV>,
    slot: SpriteSlotV,
    p: spec_fn(Sprite) -> bool,
)
    ensures
        refs_count(sprites.push(slot), p) == refs_count(sprites, p) + slot_counts(slot, p),
{
    assert(sprites.push(slot).drop_last() =~= sprites);
}

/// Replacing the slot at `i` shifts the count by the difference of the old
/// and new contributions.
pub proof fn lemma_refs_count_update(
    sprites: Seq<SpriteSlotV>,
    i: int,
    slot: SpriteSlotV,
    p: spec_fn(Sprite) -> bool,
)
    requires
        0 <= i < sprites.len(),
    ensures
        refs_count(sprites.update(i, slot), p) + slot_counts(sprites[i], p) == refs_count(
            sprites,
            p,
        ) + slot_counts(slot, p),
    decreases sprites.len(),
{
    let updated = sprites.update(i, slot);
    if i == sprites.len() - 1 {
        assert(updated.drop_last() =~= sprites.drop_last());
    } else {
        assert(updated.drop_last() =~= sprites.drop_last().update(i, slot));
        lemma_refs_count_update(sprites.drop_last(), i, slot, p);
    }
}

/// A live sprite satisfying `p` makes the count positive.
pub proof fn lemma_refs_count_witness(
    sprites: Seq<SpriteSlotV>,
    i: int,
    p: spec_fn(Sprite) -> bool,
)
    requires
        0 <= i < sprites.len(),
        slot_counts(sprites[i], p) > 0,
    ensures
        refs_count(sprites, p) > 0,
    decreases sprites.len(),
{
    if i < sprites.len() - 1 {
        lemma_refs_count_witness(sprites.drop_last(), i, p);
    }
}

/// A zero count means no live sprite satisfies `p`.
pub proof fn lemma_refs_count_zero(sprites: Seq<SpriteSlotV>, p: spec_fn(Sprite) -> bool)
    requires
        refs_count(sprites, p) == 0,
    ensures
        forall|i: int|
            0 <= i < sprites.len() ==> slot_counts(#[trigger] sprites[i], p) == 0,
{
    assert forall|i: int| 0 <= i < sprites.len() implies slot_counts(
        #[trigger] sprites[i],
        p,
    ) == 0 by {
        if slot_counts(sprites[i], p) > 0 {
            lemma_refs_count_witness(sprites, i, p);
        }
    }
}

/// If no slot contributes, the count is zero.
pub proof fn lemma_refs_count_none(sprites: Seq<SpriteSlotV>, p: spec_fn(Sprite) -> bool)
    requires
        forall|i: int| 0 <= i < sprites.len() ==> slot_counts(#[trigger] sprites[i], p) == 0,
    ensures
        refs_count(sprites, p) == 0,
    decreases sprites.len(),
{
    if sprites.len() > 0 {
        lemma_refs_count_none(sprites.drop_last(), p);
    }
}

impl SceneV {
    /// Whether `i` names a sprite slot holding a live sprite.
    pub open spec fn sprite_alive(self, i: usize) -> bool {
        i < self.sprites.len() && self.sprites[i as int].value is Some
    }

    /// The live sprite in slot `i`.
    pub open spec fn sprite_at(self, i: usize) -> Sprite {
        self.sprites[i as int].value->Some_0
    }

    /// Whether `v` names a viewport slot holding a live viewport.
    pub open spec fn viewport_alive(self, v: usize) -> bool {
        v < self.viewports.len() && self.viewports[v as int].value is Some
    }

    /// The live viewport in slot `v`.
    pub open spec fn viewport_at(self, v: usize) -> ViewportV {
        self.viewports[v as int].value->Some_0
    }

    /// Whether `b` names a bitmap slot holding a live bitmap.
    pub open spec fn bitmap_alive(self, b: usize) -> bool {
        b < self.bitmaps.len() && self.bitmaps[b as int].value is Some
    }

    /// The live bitmap in slot `b`.
    pub open spec fn bitmap_at(self, b: usize) -> BitmapV {
        self.bitmaps[b as int].value->Some_0
    }

    /// The scene with sprite slot `i` replaced.
    pub open spec fn with_sprite_slot(self, i: int, slot: SpriteSlotV) -> SceneV {
        SceneV { sprites: self.sprites.update(i, slot), ..self }
    }

    /// The scene with viewport slot `v` replaced.
    pub open spec fn with_viewport_slot(self, v: int, slot: ViewportSlotV) -> SceneV {
        SceneV { viewports: self.viewports.update(v, slot), ..self }
    }

    /// The scene with bitmap slot `b` replaced.
    pub open spec fn with_bitmap_slot(self, b: int, slot: BitmapSlotV) -> SceneV {
        SceneV { bitmaps: self.bitmaps.update(b, slot), ..self }
    }

    /// Everything the scene guarantees of one sprite slot: the sprite is
    /// present exactly while externally owned; its strong references point
    /// at live objects; a sprite with a bitmap always has quad geometry.
    pub open spec fn sprite_slot_inv(self, i: int) -> bool {
        let slot = self.sprites[i];
        &&& (slot.value is Some <==> slot.ext > 0)
        &&& match slot.value {
            Some(sp) => {
                &&& match sp.viewport {
                    Some(v) => self.viewport_alive(v),
                    None => true,
                }
                &&& match sp.bitmap {
                    Some(b) => self.bitmap_alive(b),
                    None => true,
                }
                &&& (sp.bitmap is Some ==> sp.quad is Some)
            },
            None => true,
        }
    }

    /// Everything the scene guarantees of one viewport slot: the stored
    /// sprite-reference count is exact; the viewport is present exactly
    /// while some strong reference remains; entries stay within the sprite
    /// column.
    pub open spec fn viewport_slot_inv(self, v: int) -> bool {
        let slot = self.viewports[v];
        &&& slot.refs == refs_count(self.sprites, refs_vp(v as usize))
        &&& (slot.value is Some <==> slot.ext + slot.refs > 0)
        &&& match slot.value {
            Some(vp) => forall|k: int|
                0 <= k < vp.entries.len() ==> (#[trigger] vp.entries[k]).target()
                    < self.sprites.len(),
            None => true,
        }
    }

    /// Everything the scene guarantees of one bitmap slot: the stored
    /// sprite-reference count is exact; the bitmap is present exactly while
    /// some strong reference remains; the pixel buffer matches the stated
    /// dimensions.
    pub open spec fn bitmap_slot_inv(self, b: int) -> bool {
        let slot = self.bitmaps[b];
        &&& slot.refs == refs_count(self.sprites, refs_bm(b as usize))
        &&& (slot.value is Some <==> slot.ext + slot.refs > 0)
        &&& match slot.value {
            Some(bm) => bm.pixels.len() == 4 * bm.width * bm.height,
            None => true,
        }
    }

    /// Well-formedness of the whole registry: the columns are addressable
    /// (each fits a machine index) and every slot's invariant holds.
    /// Constructors establish this and every operation preserves it.
    pub open spec fn wf(self) -> bool {
        &&& self.sprites.len() <= usize::MAX
        &&& self.viewports.len() <= usize::MAX
        &&& self.bitmaps.len() <= usize::MAX
        &&& forall|i: int| 0 <= i < self.sprites.len() ==> #[trigger] self.sprite_slot_inv(i)
        &&& forall|v: int| 0 <= v < self.viewports.len() ==> #[trigger] self.viewport_slot_inv(v)
        &&& forall|b: int| 0 <= b < self.bitmaps.len() ==> #[trigger] self.bitmap_slot_inv(b)
    }
}

impl Scene {
    /// An empty scene: no sprites, viewports or bitmaps.
    pub fn new() -> (scene: Scene)
        ensures
            scene@.wf(),
            scene@.sprites.len() == 0,
            scene@.viewports.len() == 0,
            scene@.bitmaps.len() == 0,
    {
        Scene { sprites: Vec::new(), viewports: Vec::new(), bitmaps: Vec::new() }
    }

    /// Observe whether the sprite behind `i` is still alive, without
    /// taking a handle on it.
    pub fn sprite_is_alive(&self, i: usize) -> (r: bool)
        ensures
            r == self@.sprite_alive(i),
    {
        i < self.sprites.len() && self.sprites[i].value.is_some()
    }

    /// Observe whether the viewport behind `v` is still alive.
    pub fn viewport_is_alive(&self, v: usize) -> (r: bool)
        ensures
            r == self@.viewport_alive(v),
    {
        v < self.viewports.len() && self.viewports[v].value.is_some()
    }

    /// Observe whether the bitmap behind `b` is still alive.
    pub fn bitmap_is_alive(&self, b: usize) -> (r: bool)
        ensures
            r == self@.bitmap_alive(b),
    {
        b < self.bitmaps.len() && self.bitmaps[b].value.is_some()
    }
}

} // verus!
