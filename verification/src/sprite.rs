use vstd::prelude::*;

use crate::scene::{
    lemma_refs_count_le_len, lemma_refs_count_push, lemma_refs_count_update,
    lemma_refs_count_witness, refs_bm, refs_vp, BitmapSlotV, Scene, SceneV, SpriteSlot,
    SpriteSlotV, ViewportSlotV,
};
use crate::viewport::{Renderable, ViewportV};

verus! {

/// Four vertices forming a rectangle, anchored at a sprite's position.
/// Coordinates are wide enough to hold any `i32` position plus any `u32`
/// bitmap extent without overflow.
#[derive(Clone, Copy, Debug, PartialEq, Eq, Structural)]
pub struct Quad {
    /// Anchor corner (the sprite position).
    pub x0: i64,
    /// Anchor corner (the sprite position).
    pub y0: i64,
    /// Corner one bitmap width to the right of the anchor.
    pub x1: i64,
    /// Corner one bitmap width to the right of the anchor.
    pub y1: i64,
    /// Corner diagonally opposite the anchor.
    pub x2: i64,
    /// Corner diagonally opposite the anchor.
    pub y2: i64,
    /// Corner one bitmap height below the anchor.
    pub x3: i64,
    /// Corner one bitmap height below the anchor.
    pub y3: i64,
}

/// The quad for a sprite at `(x, y)` showing a bitmap of extent
/// `width` by `height`: anchored at the position, extending right by the
/// width and down (negative y) by the height.
pub open spec fn quad_spec(x: i32, y: i32, width: u32, height: u32) -> Quad {
    Quad {
        x0: x as i64,
        y0: y as i64,
        x1: (x + width) as i64,
        y1: y as i64,
        x2: (x + width) as i64,
        y2: (y - height) as i64,
        x3: x as i64,
        y3: (y - height) as i64,
    }
}

/// A positioned, drawable scene object, optionally backed by a bitmap and
/// optionally registered with a viewport.
///
/// The `viewport` reference is strong: it keeps the viewport alive while
/// this sprite exists. The viewport holds only a weak entry back, so the
/// viewport never decides the sprite's lifetime.
#[derive(Clone, Copy, Debug)]
pub struct Sprite {
    /// Horizontal draw position.
    pub x: i32,
    /// Vertical draw position.
    pub y: i32,
    /// Horizontal origin offset.
    pub ox: i32,
    /// Vertical origin offset.
    pub oy: i32,
    /// Quad geometry, recomputed on every bitmap assignment.
    pub quad: Option<Quad>,
    /// Strong reference to the source bitmap, by slot index.
    pub bitmap: Option<usize>,
    /// Strong reference to the hosting viewport, by slot index.
    pub viewport: Option<usize>,
}

impl SceneV {
    /// The scene after viewport `v` gains one sprite reference and the weak
    /// entry `e` at the end of its ordered collection.
    pub open spec fn vp_register_t(self, v: usize, e: Renderable) -> SceneV {
        let slot = self.viewports[v as int];
        let vp = slot.value->Some_0;
        self.with_viewport_slot(
            v as int,
            ViewportSlotV {
                ext: slot.ext,
                refs: slot.refs + 1,
                value: Some(ViewportV { entries: vp.entries.push(e), ..vp }),
            },
        )
    }

    /// The scene after viewport `v` loses one sprite reference; the
    /// viewport is destroyed when no strong reference remains.
    pub open spec fn vp_unref_t(self, v: usize) -> SceneV {
        let slot = self.viewports[v as int];
        let refs = (slot.refs - 1) as nat;
        let value = if slot.ext + refs > 0 {
            slot.value
        } else {
            None
        };
        self.with_viewport_slot(v as int, ViewportSlotV { ext: slot.ext, refs, value })
    }

    /// The scene after bitmap `b` gains one sprite reference.
    pub open spec fn bm_ref_t(self, b: usize) -> SceneV {
        let slot = self.bitmaps[b as int];
        self.with_bitmap_slot(b as int, BitmapSlotV { refs: slot.refs + 1, ..slot })
    }

    /// The scene after bitmap `b` loses one sprite reference; the bitmap is
    /// destroyed when no strong reference remains.
    pub open spec fn bm_unref_t(self, b: usize) -> SceneV {
        let slot = self.bitmaps[b as int];
        let refs = (slot.refs - 1) as nat;
        let value = if slot.ext + refs > 0 {
            slot.value
        } else {
            None
        };
        self.with_bitmap_slot(b as int, BitmapSlotV { ext: slot.ext, refs, value })
    }

    /// The scene after creating a sprite: default position, no bitmap, one
    /// external handle; if a viewport is given, the sprite takes a strong
    /// reference to it and a weak entry for the sprite is appended to that
    /// viewport (drawn last, on top of prior entries).
    pub open spec fn sprite_create_t(self, viewport: Option<usize>) -> SceneV {
        let id = self.sprites.len() as usize;
        let sp = Sprite { x: 0, y: 0, ox: 0, oy: 0, quad: None, bitmap: None, viewport };
        let s1 = SceneV {
            sprites: self.sprites.push(SpriteSlotV { ext: 1, value: Some(sp) }),
            ..self
        };
        match viewport {
            Some(v) => s1.vp_register_t(v, Renderable::Sprite(id)),
            None => s1,
        }
    }

    /// The scene after taking one more external strong handle on sprite
    /// `i`.
    pub open spec fn sprite_retain_t(self, i: usize) -> SceneV {
        let slot = self.sprites[i as int];
        self.with_sprite_slot(i as int, SpriteSlotV { ext: slot.ext + 1, ..slot })
    }

    /// The scene after dropping one external strong handle on sprite `i`.
    /// When this was the last handle the sprite is destroyed, releasing its
    /// strong references: the viewport and bitmap it pointed at each lose
    /// one reference and are destroyed in turn if nothing else holds them.
    /// Its weak entry in the viewport stays behind, unresolvable, until the
    /// viewport's next traversal prunes it.
    pub open spec fn sprite_release_t(self, i: usize) -> SceneV {
        let slot = self.sprites[i as int];
        if slot.ext > 1 {
            self.with_sprite_slot(i as int, SpriteSlotV { ext: (slot.ext - 1) as nat, ..slot })
        } else {
            let sp = slot.value->Some_0;
            let s1 = self.with_sprite_slot(i as int, SpriteSlotV { ext: 0, value: None });
            let s2 = match sp.viewport {
                Some(v) => s1.vp_unref_t(v),
                None => s1,
            };
            match sp.bitmap {
                Some(b) => s2.bm_unref_t(b),
                None => s2,
            }
        }
    }

    /// The scene after re-parenting sprite `i`: the sprite's strong
    /// viewport reference is replaced, a new weak entry is registered with
    /// the new viewport, and the old viewport loses one strong reference.
    /// The stale entry in the old viewport is not removed here; it is
    /// pruned lazily by that viewport's next traversal.
    pub open spec fn sprite_set_viewport_t(self, i: usize, viewport: Option<usize>) -> SceneV {
        let slot = self.sprites[i as int];
        let sp = slot.value->Some_0;
        let s1 = self.with_sprite_slot(
            i as int,
            SpriteSlotV { ext: slot.ext, value: Some(Sprite { viewport, ..sp }) },
        );
        let s2 = match viewport {
            Some(nv) => s1.vp_register_t(nv, Renderable::Sprite(i)),
            None => s1,
        };
        match sp.viewport {
            Some(ov) => s2.vp_unref_t(ov),
            None => s2,
        }
    }

    /// The scene after replacing sprite `i`'s bitmap: the quad geometry is
    /// recomputed from the sprite's position and the new bitmap's pixel
    /// dimensions (a zero-size quad if the bitmap is removed), the new
    /// bitmap gains one strong reference and the old one loses one.
    pub open spec fn sprite_set_bitmap_t(self, i: usize, bitmap: Option<usize>) -> SceneV {
        let slot = self.sprites[i as int];
        let sp = slot.value->Some_0;
        let quad = match bitmap {
            Some(b) => quad_spec(sp.x, sp.y, self.bitmap_at(b).width, self.bitmap_at(b).height),
            None => quad_spec(sp.x, sp.y, 0, 0),
        };
        let s1 = self.with_sprite_slot(
            i as int,
            SpriteSlotV { ext: slot.ext, value: Some(Sprite { bitmap, quad: Some(quad), ..sp }) },
        );
        let s2 = match bitmap {
            Some(nb) => s1.bm_ref_t(nb),
            None => s1,
        };
        match sp.bitmap {
            Some(ob) => s2.bm_unref_t(ob),
            None => s2,
        }
    }

    /// The scene after moving sprite `i` to a new position. The quad is
    /// deliberately untouched: geometry is recomputed only on bitmap
    /// assignment.
    pub open spec fn sprite_set_position_t(self, i: usize, x: i32, y: i32) -> SceneV {
        let slot = self.sprites[i as int];
        let sp = slot.value->Some_0;
        self.with_sprite_slot(i as int, SpriteSlotV { ext: slot.ext, value: Some(Sprite { x, y, ..sp }) })
    }
}

/// Creating a sprite preserves well-formedness: the new slot contributes
/// one reference to its viewport, matched by the register step, and none to
/// any bitmap.
pub proof fn lemma_sprite_create_wf(s: SceneV, viewport: Option<usize>)
    requires
        s.wf(),
        s.sprites.len() < usize::MAX,
        match viewport {
            Some(v) => s.viewport_alive(v),
            None => true,
        },
    ensures
        s.sprite_create_t(viewport).wf(),
{
    let t = s.sprite_create_t(viewport);
    let id = s.sprites.len() as usize;
    let sp = Sprite { x: 0, y: 0, ox: 0, oy: 0, quad: None, bitmap: None, viewport };
    let newslot = SpriteSlotV { ext: 1, value: Some(sp) };
    assert(t.sprites =~= s.sprites.push(newslot));
    assert forall|w: int| 0 <= w < t.viewports.len() implies #[trigger] t.viewport_slot_inv(w) by {
        assert(s.viewport_slot_inv(w));
        lemma_refs_count_push(s.sprites, newslot, refs_vp(w as usize));
    }
    assert forall|j: int| 0 <= j < t.sprites.len() implies #[trigger] t.sprite_slot_inv(j) by {
        if j < s.sprites.len() {
            assert(s.sprite_slot_inv(j));
        }
    }
    assert forall|b: int| 0 <= b < t.bitmaps.len() implies #[trigger] t.bitmap_slot_inv(b) by {
        assert(s.bitmap_slot_inv(b));
        lemma_refs_count_push(s.sprites, newslot, refs_bm(b as usize));
    }
}

/// Replacing a sprite slot without changing which viewport and bitmap the
/// sprite references leaves every reference count unchanged, so
/// well-formedness reduces to the edited slot. Covers retain, release of a
/// shared handle, and position changes.
pub proof fn lemma_sprite_edit_same_refs_wf(s: SceneV, i: usize, newslot: SpriteSlotV)
    requires
        s.wf(),
        i < s.sprites.len(),
        newslot.value is Some <==> newslot.ext > 0,
        match (s.sprites[i as int].value, newslot.value) {
            (Some(o), Some(n)) => {
                &&& n.viewport == o.viewport
                &&& n.bitmap == o.bitmap
                &&& (n.bitmap is Some ==> n.quad is Some)
            },
            (None, None) => true,
            _ => false,
        },
    ensures
        s.with_sprite_slot(i as int, newslot).wf(),
{
    let t = s.with_sprite_slot(i as int, newslot);
    assert(s.sprite_slot_inv(i as int));
    assert forall|w: int| 0 <= w < t.viewports.len() implies #[trigger] t.viewport_slot_inv(w) by {
        assert(s.viewport_slot_inv(w));
        lemma_refs_count_update(s.sprites, i as int, newslot, refs_vp(w as usize));
    }
    assert forall|j: int| 0 <= j < t.sprites.len() implies #[trigger] t.sprite_slot_inv(j) by {
        assert(s.sprite_slot_inv(j));
    }
    assert forall|b: int| 0 <= b < t.bitmaps.len() implies #[trigger] t.bitmap_slot_inv(b) by {
        assert(s.bitmap_slot_inv(b));
        lemma_refs_count_update(s.sprites, i as int, newslot, refs_bm(b as usize));
    }
}

/// Releasing a sprite handle preserves well-formedness. When the sprite
/// dies, the counts of its viewport and bitmap drop by exactly one; either
/// object is destroyed only when its count reaches zero, in which case no
/// other live sprite references it.
pub proof fn lemma_sprite_release_wf(s: SceneV, i: usize)
    requires
        s.wf(),
        s.sprite_alive(i),
    ensures
        s.sprite_release_t(i).wf(),
{
    let t = s.sprite_release_t(i);
    let slot = s.sprites[i as int];
    let sp = slot.value->Some_0;
    assert(s.sprite_slot_inv(i as int));
    if slot.ext > 1 {
        lemma_sprite_edit_same_refs_wf(
            s,
            i,
            SpriteSlotV { ext: (slot.ext - 1) as nat, ..slot },
        );
    } else {
        let dead = SpriteSlotV { ext: 0, value: None };
        assert(t.sprites =~= s.sprites.update(i as int, dead));
        assert forall|w: int| 0 <= w < t.viewports.len() implies #[trigger] t.viewport_slot_inv(
            w,
        ) by {
            assert(s.viewport_slot_inv(w));
            lemma_refs_count_update(s.sprites, i as int, dead, refs_vp(w as usize));
        }
        assert forall|b: int| 0 <= b < t.bitmaps.len() implies #[trigger] t.bitmap_slot_inv(b) by {
            assert(s.bitmap_slot_inv(b));
            lemma_refs_count_update(s.sprites, i as int, dead, refs_bm(b as usize));
        }
        assert forall|j: int| 0 <= j < t.sprites.len() implies #[trigger] t.sprite_slot_inv(j) by {
            assert(s.sprite_slot_inv(j));
            if j != i {
                match t.sprites[j].value {
                    Some(spj) => {
                        match spj.viewport {
                            Some(x) => {
                                if !t.viewport_alive(x) {
                                    // the old viewport died, so its count in t is
                                    // zero, contradicting sprite j's reference
                                    assert(s.viewport_slot_inv(x as int));
                                    lemma_refs_count_update(
                                        s.sprites,
                                        i as int,
                                        dead,
                                        refs_vp(x),
                                    );
                                    lemma_refs_count_witness(t.sprites, j, refs_vp(x));
                                }
                            },
                            None => {},
                        }
                        match spj.bitmap {
                            Some(x) => {
                                if !t.bitmap_alive(x) {
                                    assert(s.bitmap_slot_inv(x as int));
                                    lemma_refs_count_update(
                                        s.sprites,
                                        i as int,
                                        dead,
                                        refs_bm(x),
                                    );
                                    lemma_refs_count_witness(t.sprites, j, refs_bm(x));
                                }
                            },
                            None => {},
                        }
                    },
                    None => {},
                }
            }
        }
    }
}

/// Re-parenting a sprite preserves well-formedness: the new viewport's
/// count rises by one (matched by the register step), the old one's falls
/// by one (matched by the unref step), and the old viewport dies only when
/// no other strong reference remains.
pub proof fn lemma_sprite_set_viewport_wf(s: SceneV, i: usize, nv: Option<usize>)
    requires
        s.wf(),
        s.sprite_alive(i),
        match nv {
            Some(v) => s.viewport_alive(v),
            None => true,
        },
    ensures
        s.sprite_set_viewport_t(i, nv).wf(),
{
    let t = s.sprite_set_viewport_t(i, nv);
    let slot = s.sprites[i as int];
    let sp = slot.value->Some_0;
    let newsp = Sprite { viewport: nv, ..sp };
    let newslot = SpriteSlotV { ext: slot.ext, value: Some(newsp) };
    assert(s.sprite_slot_inv(i as int));
    assert(t.sprites =~= s.sprites.update(i as int, newslot));
    assert forall|w: int| 0 <= w < t.viewports.len() implies #[trigger] t.viewport_slot_inv(w) by {
        assert(s.viewport_slot_inv(w));
        lemma_refs_count_update(s.sprites, i as int, newslot, refs_vp(w as usize));
    }
    assert forall|b: int| 0 <= b < t.bitmaps.len() implies #[trigger] t.bitmap_slot_inv(b) by {
        assert(s.bitmap_slot_inv(b));
        lemma_refs_count_update(s.sprites, i as int, newslot, refs_bm(b as usize));
    }
    assert forall|j: int| 0 <= j < t.sprites.len() implies #[trigger] t.sprite_slot_inv(j) by {
        assert(s.sprite_slot_inv(j));
        match t.sprites[j].value {
            Some(spj) => {
                match spj.viewport {
                    Some(x) => {
                        if !t.viewport_alive(x) {
                            assert(s.viewport_slot_inv(x as int));
                            lemma_refs_count_update(s.sprites, i as int, newslot, refs_vp(x));
                            lemma_refs_count_witness(t.sprites, j, refs_vp(x));
                        }
                    },
                    None => {},
                }
            },
            None => {},
        }
    }
}

/// Replacing a sprite's bitmap preserves well-formedness, symmetrically to
/// re-parenting: the new bitmap's count rises by one, the old one's falls
/// by one, and the old bitmap dies only when nothing else holds it.
pub proof fn lemma_sprite_set_bitmap_wf(s: SceneV, i: usize, nb: Option<usize>)
    requires
        s.wf(),
        s.sprite_alive(i),
        match nb {
            Some(b) => s.bitmap_alive(b),
            None => true,
        },
    ensures
        s.sprite_set_bitmap_t(i, nb).wf(),
{
    let t = s.sprite_set_bitmap_t(i, nb);
    let slot = s.sprites[i as int];
    let sp = slot.value->Some_0;
    let quad = match nb {
        Some(b) => quad_spec(sp.x, sp.y, s.bitmap_at(b).width, s.bitmap_at(b).height),
        None => quad_spec(sp.x, sp.y, 0, 0),
    };
    let newsp = Sprite { bitmap: nb, quad: Some(quad), ..sp };
    let newslot = SpriteSlotV { ext: slot.ext, value: Some(newsp) };
    assert(s.sprite_slot_inv(i as int));
    assert(t.sprites =~= s.sprites.update(i as int, newslot));
    assert forall|w: int| 0 <= w < t.viewports.len() implies #[trigger] t.viewport_slot_inv(w) by {
        assert(s.viewport_slot_inv(w));
        lemma_refs_count_update(s.sprites, i as int, newslot, refs_vp(w as usize));
    }
    assert forall|b: int| 0 <= b < t.bitmaps.len() implies #[trigger] t.bitmap_slot_inv(b) by {
        assert(s.bitmap_slot_inv(b));
        lemma_refs_count_update(s.sprites, i as int, newslot, refs_bm(b as usize));
    }
    assert forall|j: int| 0 <= j < t.sprites.len() implies #[trigger] t.sprite_slot_inv(j) by {
        assert(s.sprite_slot_inv(j));
        match t.sprites[j].value {
            Some(spj) => {
                match spj.bitmap {
                    Some(x) => {
                        if !t.bitmap_alive(x) {
                            assert(s.bitmap_slot_inv(x as int));
                            lemma_refs_count_update(s.sprites, i as int, newslot, refs_bm(x));
                            lemma_refs_count_witness(t.sprites, j, refs_bm(x));
                        }
                    },
                    None => {},
                }
            },
            None => {},
        }
    }
}


impl Sprite {
    /// Construct a sprite at position (0, 0) with no bitmap, optionally
    /// strong-referencing the given viewport. When a viewport is given, a
    /// weak entry for this sprite is appended to that viewport's ordered
    /// collection, so the sprite draws last (on top of prior entries).
    /// Returns the new sprite's slot index.
    pub fn new(scene: &mut Scene, viewport: Option<usize>) -> (i: usize)
        requires
            old(scene)@.wf(),
            match viewport {
                Some(v) => old(scene)@.viewport_alive(v),
                None => true,
            },
        ensures
            final(scene)@ == old(scene)@.sprite_create_t(viewport),
            final(scene)@.wf(),
            i == old(scene)@.sprites.len(),
            final(scene)@.sprite_alive(i),
    {
        let i = scene.sprites.len();
        let sp = Sprite { x: 0, y: 0, ox: 0, oy: 0, quad: None, bitmap: None, viewport };
        scene.sprites.push(SpriteSlot { ext: 1, value: Some(sp) });
        let ghost s1 = SceneV {
            sprites: old(scene)@.sprites.push(SpriteSlotV { ext: 1, value: Some(sp) }),
            ..old(scene)@
        };
        proof {
            assert(scene.sprites@.len() == scene.sprites.len());
            assert(scene@.sprites =~~= s1.sprites);
            assert(scene@ =~~= s1);
        }
        match viewport {
            Some(v) => {
                proof {
                    assert(old(scene)@.viewport_slot_inv(v as int));
                    lemma_refs_count_le_len(old(scene)@.sprites, refs_vp(v));
                }
                let vslot = &mut scene.viewports[v];
                vslot.refs = vslot.refs + 1;
                match &mut vslot.value {
                    Some(vp) => {
                        vp.entries.push(Renderable::Sprite(i));
                    },
                    None => {},
                }
                proof {
                    let t = old(scene)@.sprite_create_t(viewport);
                    assert(scene@.viewports =~~= t.viewports);
                    assert(scene@ =~~= t);
                }
            },
            None => {},
        }
        proof {
            lemma_sprite_create_wf(old(scene)@, viewport);
        }
        i
    }

    /// Take one more external strong handle on sprite `i`.
    pub fn retain(scene: &mut Scene, i: usize)
        requires
            old(scene)@.wf(),
            old(scene)@.sprite_alive(i),
            old(scene)@.sprites[i as int].ext < u64::MAX,
        ensures
            final(scene)@ == old(scene)@.sprite_retain_t(i),
            final(scene)@.wf(),
            final(scene)@.sprite_alive(i),
    {
        let slot = &mut scene.sprites[i];
        slot.ext = slot.ext + 1;
        proof {
            assert(old(scene)@.sprite_slot_inv(i as int));
            let t = old(scene)@.sprite_retain_t(i);
            assert(scene@.sprites =~~= t.sprites);
            assert(scene@ =~~= t);
            lemma_sprite_edit_same_refs_wf(old(scene)@, i, t.sprites[i as int]);
        }
    }

    /// Drop one external strong handle on sprite `i`. When this was the
    /// last handle, the sprite is destroyed at once: its strong references
    /// are released, destroying the viewport or bitmap in turn if nothing
    /// else holds them. The sprite's weak entry in the viewport is left
    /// behind and becomes unresolvable; the viewport's next traversal
    /// prunes it.
    pub fn release(scene: &mut Scene, i: usize)
        requires
            old(scene)@.wf(),
            old(scene)@.sprite_alive(i),
        ensures
            final(scene)@ == old(scene)@.sprite_release_t(i),
            final(scene)@.wf(),
    {
        proof {
            assert(old(scene)@.sprite_slot_inv(i as int));
        }
        let ext = scene.sprites[i].ext;
        if ext > 1 {
            let slot = &mut scene.sprites[i];
            slot.ext = slot.ext - 1;
            proof {
                let t = old(scene)@.sprite_release_t(i);
                assert(scene@.sprites =~~= t.sprites);
                assert(scene@ =~~= t);
                lemma_sprite_edit_same_refs_wf(old(scene)@, i, t.sprites[i as int]);
            }
        } else {
            let sp_opt = scene.sprites[i].value;
            {
                let slot = &mut scene.sprites[i];
                slot.ext = 0;
                slot.value = None;
            }
            let ghost s1 = old(scene)@.with_sprite_slot(
                i as int,
                SpriteSlotV { ext: 0, value: None },
            );
            proof {
                assert(scene@.sprites =~~= s1.sprites);
                assert(scene@ =~~= s1);
            }
            match sp_opt {
                Some(sp) => {
                    match sp.viewport {
                        Some(v) => {
                            proof {
                                assert(old(scene)@.viewport_slot_inv(v as int));
                                lemma_refs_count_witness(
                                    old(scene)@.sprites,
                                    i as int,
                                    refs_vp(v),
                                );
                            }
                            let vslot = &mut scene.viewports[v];
                            vslot.refs = vslot.refs - 1;
                            if vslot.ext == 0 && vslot.refs == 0 {
                                vslot.value = None;
                            }
                            proof {
                                let s2 = s1.vp_unref_t(v);
                                assert(scene@.viewports =~~= s2.viewports);
                                assert(scene@ =~~= s2);
                            }
                        },
                        None => {},
                    }
                    let ghost s2 = match sp.viewport {
                        Some(v) => s1.vp_unref_t(v),
                        None => s1,
                    };
                    proof {
                        assert(scene@ =~~= s2);
                    }
                    match sp.bitmap {
                        Some(b) => {
                            proof {
                                assert(old(scene)@.bitmap_slot_inv(b as int));
                                lemma_refs_count_witness(
                                    old(scene)@.sprites,
                                    i as int,
                                    refs_bm(b),
                                );
                            }
                            let bslot = &mut scene.bitmaps[b];
                            bslot.refs = bslot.refs - 1;
                            if bslot.ext == 0 && bslot.refs == 0 {
                                bslot.value = None;
                            }
                            proof {
                                let t = s2.bm_unref_t(b);
                                assert(scene@.bitmaps =~~= t.bitmaps);
                                assert(scene@ =~~= t);
                            }
                        },
                        None => {},
                    }
                    proof {
                        lemma_sprite_release_wf(old(scene)@, i);
                        assert(scene@ =~~= old(scene)@.sprite_release_t(i));
                    }
                },
                None => {
                    proof {
                        assert(false);
                    }
                },
            }
        }
    }

    /// Re-parent sprite `i`: release the strong reference to its previous
    /// viewport (without touching that viewport's entries; the stale entry
    /// is pruned lazily by the old viewport's next traversal), take a
    /// strong reference to the new viewport, and register a new weak entry
    /// with it.
    pub fn set_viewport(scene: &mut Scene, i: usize, viewport: Option<usize>)
        requires
            old(scene)@.wf(),
            old(scene)@.sprite_alive(i),
            match viewport {
                Some(v) => old(scene)@.viewport_alive(v),
                None => true,
            },
            old(scene)@.sprites.len() < u64::MAX,
        ensures
            final(scene)@ == old(scene)@.sprite_set_viewport_t(i, viewport),
            final(scene)@.wf(),
            final(scene)@.sprite_alive(i),
    {
        proof {
            assert(old(scene)@.sprite_slot_inv(i as int));
        }
        let sp_opt = scene.sprites[i].value;
        match sp_opt {
            Some(sp) => {
                {
                    let slot = &mut scene.sprites[i];
                    match &mut slot.value {
                        Some(spm) => {
                            spm.viewport = viewport;
                        },
                        None => {},
                    }
                }
                let ghost s1 = old(scene)@.with_sprite_slot(
                    i as int,
                    SpriteSlotV {
                        ext: old(scene)@.sprites[i as int].ext,
                        value: Some(Sprite { viewport, ..sp }),
                    },
                );
                proof {
                    assert(scene@.sprites =~~= s1.sprites);
                    assert(scene@ =~~= s1);
                }
                match viewport {
                    Some(nv) => {
                        proof {
                            assert(old(scene)@.viewport_slot_inv(nv as int));
                            lemma_refs_count_le_len(old(scene)@.sprites, refs_vp(nv));
                        }
                        let vslot = &mut scene.viewports[nv];
                        vslot.refs = vslot.refs + 1;
                        match &mut vslot.value {
                            Some(vp) => {
                                vp.entries.push(Renderable::Sprite(i));
                            },
                            None => {},
                        }
                        proof {
                            let s2 = s1.vp_register_t(nv, Renderable::Sprite(i));
                            assert(scene@.viewports =~~= s2.viewports);
                            assert(scene@ =~~= s2);
                        }
                    },
                    None => {},
                }
                let ghost s2 = match viewport {
                    Some(nv) => s1.vp_register_t(nv, Renderable::Sprite(i)),
                    None => s1,
                };
                proof {
                    assert(scene@ =~~= s2);
                }
                match sp.viewport {
                    Some(ov) => {
                        proof {
                            assert(old(scene)@.viewport_slot_inv(ov as int));
                            lemma_refs_count_witness(old(scene)@.sprites, i as int, refs_vp(ov));
                        }
                        let vslot = &mut scene.viewports[ov];
                        vslot.refs = vslot.refs - 1;
                        if vslot.ext == 0 && vslot.refs == 0 {
                            vslot.value = None;
                        }
                        proof {
                            let t = s2.vp_unref_t(ov);
                            assert(scene@.viewports =~~= t.viewports);
                            assert(scene@ =~~= t);
                        }
                    },
                    None => {},
                }
                proof {
                    lemma_sprite_set_viewport_wf(old(scene)@, i, viewport);
                    assert(scene@ =~~= old(scene)@.sprite_set_viewport_t(i, viewport));
                }
            },
            None => {
                proof {
                    assert(false);
                }
            },
        }
    }

    /// Replace sprite `i`'s bitmap reference and recompute its quad
    /// geometry: a rectangle anchored at the sprite's position with the new
    /// bitmap's pixel dimensions, or a zero-size quad when the bitmap is
    /// removed. The old bitmap loses one strong reference and is destroyed
    /// if nothing else holds it.
    pub fn set_bitmap(scene: &mut Scene, i: usize, bitmap: Option<usize>)
        requires
            old(scene)@.wf(),
            old(scene)@.sprite_alive(i),
            match bitmap {
                Some(b) => old(scene)@.bitmap_alive(b),
                None => true,
            },
            old(scene)@.sprites.len() < u64::MAX,
        ensures
            final(scene)@ == old(scene)@.sprite_set_bitmap_t(i, bitmap),
            final(scene)@.wf(),
            final(scene)@.sprite_alive(i),
    {
        proof {
            assert(old(scene)@.sprite_slot_inv(i as int));
        }
        let sp_opt = scene.sprites[i].value;
        match sp_opt {
            Some(sp) => {
                let (bw, bh): (u32, u32) = match bitmap {
                    Some(b) => {
                        proof {
                            assert(old(scene)@.bitmap_slot_inv(b as int));
                        }
                        match &scene.bitmaps[b].value {
                            Some(bm) => (bm.width, bm.height),
                            None => {
                                proof {
                                    assert(false);
                                }
                                (0, 0)
                            },
                        }
                    },
                    None => (0, 0),
                };
                let quad = Quad {
                    x0: sp.x as i64,
                    y0: sp.y as i64,
                    x1: sp.x as i64 + bw as i64,
                    y1: sp.y as i64,
                    x2: sp.x as i64 + bw as i64,
                    y2: sp.y as i64 - bh as i64,
                    x3: sp.x as i64,
                    y3: sp.y as i64 - bh as i64,
                };
                proof {
                    assert(quad == quad_spec(sp.x, sp.y, bw, bh));
                }
                {
                    let slot = &mut scene.sprites[i];
                    match &mut slot.value {
                        Some(spm) => {
                            spm.bitmap = bitmap;
                            spm.quad = Some(quad);
                        },
                        None => {},
                    }
                }
                let ghost s1 = old(scene)@.with_sprite_slot(
                    i as int,
                    SpriteSlotV {
                        ext: old(scene)@.sprites[i as int].ext,
                        value: Some(Sprite { bitmap, quad: Some(quad), ..sp }),
                    },
                );
                proof {
                    assert(scene@.sprites =~~= s1.sprites);
                    assert(scene@ =~~= s1);
                }
                match bitmap {
                    Some(nb) => {
                        proof {
                            assert(old(scene)@.bitmap_slot_inv(nb as int));
                            lemma_refs_count_le_len(old(scene)@.sprites, refs_bm(nb));
                        }
                        let bslot = &mut scene.bitmaps[nb];
                        bslot.refs = bslot.refs + 1;
                        proof {
                            let s2 = s1.bm_ref_t(nb);
                            assert(scene@.bitmaps =~~= s2.bitmaps);
                            assert(scene@ =~~= s2);
                        }
                    },
                    None => {},
                }
                let ghost s2 = match bitmap {
                    Some(nb) => s1.bm_ref_t(nb),
                    None => s1,
                };
                proof {
                    assert(scene@ =~~= s2);
                }
                match sp.bitmap {
                    Some(ob) => {
                        proof {
                            assert(old(scene)@.bitmap_slot_inv(ob as int));
                            lemma_refs_count_witness(old(scene)@.sprites, i as int, refs_bm(ob));
                        }
                        let bslot = &mut scene.bitmaps[ob];
                        bslot.refs = bslot.refs - 1;
                        if bslot.ext == 0 && bslot.refs == 0 {
                            bslot.value = None;
                        }
                        proof {
                            let t = s2.bm_unref_t(ob);
                            assert(scene@.bitmaps =~~= t.bitmaps);
                            assert(scene@ =~~= t);
                        }
                    },
                    None => {},
                }
                proof {
                    lemma_sprite_set_bitmap_wf(old(scene)@, i, bitmap);
                    assert(scene@ =~~= old(scene)@.sprite_set_bitmap_t(i, bitmap));
                }
            },
            None => {
                proof {
                    assert(false);
                }
            },
        }
    }

    /// Move sprite `i` to a new position. The quad geometry is
    /// deliberately left as it is: it is recomputed only when a bitmap is
    /// assigned.
    pub fn set_position(scene: &mut Scene, i: usize, x: i32, y: i32)
        requires
            old(scene)@.wf(),
            old(scene)@.sprite_alive(i),
        ensures
            final(scene)@ == old(scene)@.sprite_set_position_t(i, x, y),
            final(scene)@.wf(),
            final(scene)@.sprite_alive(i),
    {
        proof {
            assert(old(scene)@.sprite_slot_inv(i as int));
        }
        let slot = &mut scene.sprites[i];
        match &mut slot.value {
            Some(spm) => {
                spm.x = x;
                spm.y = y;
            },
            None => {},
        }
        proof {
            let t = old(scene)@.sprite_set_position_t(i, x, y);
            assert(scene@.sprites =~~= t.sprites);
            assert(scene@ =~~= t);
            lemma_sprite_edit_same_refs_wf(old(scene)@, i, t.sprites[i as int]);
        }
    }
}


} // verus!
