use vstd::prelude::*;

use crate::color::Color;
use crate::rect::Rect;
use crate::scene::{
    lemma_refs_count_none, lemma_refs_count_zero, refs_vp, slot_counts, Scene, SceneV,
    ViewportSlot, ViewportSlotV,
};

verus! {

/// A non-owning registry entry held by a viewport: a tagged reference to a
/// drawable object. Sprites are currently the only drawable kind.
#[derive(Clone, Copy, Debug, PartialEq, Eq, Structural)]
pub enum Renderable {
    /// A weak reference to a sprite, by slot index.
    Sprite(usize),
}

impl Renderable {
    /// The slot index this entry points at.
    pub open spec fn target(self) -> usize {
        match self {
            Renderable::Sprite(i) => i,
        }
    }
}

/// A rectangular render target region with a background clear color, a
/// visibility flag, and an ordered collection of weak renderable entries.
///
/// Entry order is insertion order and determines draw order (back to
/// front). The collection may hold stale entries between frames; they are
/// pruned lazily during traversal.
#[derive(Debug)]
pub struct Viewport {
    /// The region this viewport renders into.
    pub rect: Rect,
    /// Background clear color; white on creation.
    pub color: Color,
    /// When false, the viewport contributes no GPU work at all.
    pub visible: bool,
    /// Ordered weak entries, drawn in insertion order.
    pub entries: Vec<Renderable>,
}

/// The mathematical value of a [`Viewport`].
#[verifier::ext_equal]
pub ghost struct ViewportV {
    /// The region this viewport renders into.
    pub rect: Rect,
    /// Background clear color.
    pub color: Color,
    /// Whether the viewport renders at all.
    pub visible: bool,
    /// Ordered weak entries.
    pub entries: Seq<Renderable>,
}

impl View for Viewport {
    type V = ViewportV;

    open spec fn view(&self) -> ViewportV {
        ViewportV { rect: self.rect, color: self.color, visible: self.visible, entries: self.entries@ }
    }
}

impl SceneV {
    /// The scene after creating a fresh viewport over `rect`: a new slot
    /// with one external handle, a white background, visible, and no
    /// entries.
    pub open spec fn viewport_create_t(self, rect: Rect) -> SceneV {
        SceneV {
            viewports: self.viewports.push(
                ViewportSlotV {
                    ext: 1,
                    refs: 0,
                    value: Some(
                        ViewportV {
                            rect,
                            color: Color::white_spec(),
                            visible: true,
                            entries: Seq::empty(),
                        },
                    ),
                },
            ),
            ..self
        }
    }

    /// The scene after taking one more external strong handle on viewport
    /// `v`.
    pub open spec fn viewport_retain_t(self, v: usize) -> SceneV {
        let slot = self.viewports[v as int];
        self.with_viewport_slot(v as int, ViewportSlotV { ext: slot.ext + 1, ..slot })
    }

    /// The scene after dropping one external strong handle on viewport `v`:
    /// the viewport is destroyed exactly when no strong reference remains.
    pub open spec fn viewport_release_t(self, v: usize) -> SceneV {
        let slot = self.viewports[v as int];
        let ext = (slot.ext - 1) as nat;
        let value = if ext + slot.refs > 0 {
            slot.value
        } else {
            None
        };
        self.with_viewport_slot(v as int, ViewportSlotV { ext, refs: slot.refs, value })
    }

    /// The scene after appending weak entry `e` to viewport `v`'s ordered
    /// collection.
    pub open spec fn viewport_add_t(self, v: usize, e: Renderable) -> SceneV {
        let slot = self.viewports[v as int];
        let vp = slot.value->Some_0;
        self.with_viewport_slot(
            v as int,
            ViewportSlotV { value: Some(ViewportV { entries: vp.entries.push(e), ..vp }), ..slot },
        )
    }

    /// The scene after setting viewport `v`'s visibility flag.
    pub open spec fn viewport_set_visible_t(self, v: usize, visible: bool) -> SceneV {
        let slot = self.viewports[v as int];
        let vp = slot.value->Some_0;
        self.with_viewport_slot(
            v as int,
            ViewportSlotV { value: Some(ViewportV { visible, ..vp }), ..slot },
        )
    }

    /// The scene after setting viewport `v`'s background clear color.
    pub open spec fn viewport_set_color_t(self, v: usize, color: Color) -> SceneV {
        let slot = self.viewports[v as int];
        let vp = slot.value->Some_0;
        self.with_viewport_slot(
            v as int,
            ViewportSlotV { value: Some(ViewportV { color, ..vp }), ..slot },
        )
    }
}

/// Creating a viewport preserves well-formedness: the fresh slot has no
/// sprite references yet, and no existing slot changes.
pub proof fn lemma_viewport_create_wf(s: SceneV, rect: Rect)
    requires
        s.wf(),
        s.viewports.len() < usize::MAX,
    ensures
        s.viewport_create_t(rect).wf(),
{
    let t = s.viewport_create_t(rect);
    let fresh = s.viewports.len() as usize;
    assert forall|i: int| 0 <= i < t.sprites.len() implies #[trigger] t.sprite_slot_inv(i) by {
        assert(s.sprite_slot_inv(i));
    }
    assert forall|v: int| 0 <= v < t.viewports.len() implies #[trigger] t.viewport_slot_inv(v) by {
        if v < s.viewports.len() {
            assert(s.viewport_slot_inv(v));
        } else {
            assert forall|i: int|
                0 <= i < s.sprites.len() implies slot_counts(
                #[trigger] s.sprites[i],
                refs_vp(fresh),
            ) == 0 by {
                assert(s.sprite_slot_inv(i));
            }
            lemma_refs_count_none(s.sprites, refs_vp(fresh));
        }
    }
    assert forall|b: int| 0 <= b < t.bitmaps.len() implies #[trigger] t.bitmap_slot_inv(b) by {
        assert(s.bitmap_slot_inv(b));
    }
}

/// Retaining, releasing or editing a viewport slot leaves every sprite
/// count unchanged, so well-formedness reduces to the edited slot. This
/// lemma covers any replacement that keeps `refs`, keeps the
/// present-iff-referenced balance, and does not extend the entries beyond
/// the sprite column.
pub proof fn lemma_viewport_slot_edit_wf(s: SceneV, v: usize, slot: ViewportSlotV)
    requires
        s.wf(),
        v < s.viewports.len(),
        slot.refs == s.viewports[v as int].refs,
        slot.value is Some <==> slot.ext + slot.refs > 0,
        match slot.value {
            Some(vp) => forall|k: int|
                0 <= k < vp.entries.len() ==> (#[trigger] vp.entries[k]).target()
                    < s.sprites.len(),
            None => true,
        },
        slot.value is None ==> s.viewports[v as int].refs == 0,
    ensures
        s.with_viewport_slot(v as int, slot).wf(),
{
    let t = s.with_viewport_slot(v as int, slot);
    assert(s.viewport_slot_inv(v as int));
    if slot.value is None {
        lemma_refs_count_zero(s.sprites, refs_vp(v));
    }
    assert forall|i: int| 0 <= i < t.sprites.len() implies #[trigger] t.sprite_slot_inv(i) by {
        assert(s.sprite_slot_inv(i));
        match t.sprites[i].value {
            Some(sp) => {
                if sp.viewport == Some(v) && slot.value is None {
                    assert(slot_counts(s.sprites[i], refs_vp(v)) == 1);
                }
            },
            None => {},
        }
    }
    assert forall|w: int| 0 <= w < t.viewports.len() implies #[trigger] t.viewport_slot_inv(w) by {
        assert(s.viewport_slot_inv(w));
    }
    assert forall|b: int| 0 <= b < t.bitmaps.len() implies #[trigger] t.bitmap_slot_inv(b) by {
        assert(s.bitmap_slot_inv(b));
    }
}

impl Viewport {
    /// Create a fresh standalone viewport over the given rectangle: white
    /// background, visible, empty renderable collection, one external
    /// strong handle (the returned one). Returns the new viewport's slot
    /// index.
    pub fn new(scene: &mut Scene, x: i32, y: i32, width: u32, height: u32) -> (v: usize)
        requires
            old(scene)@.wf(),
        ensures
            final(scene)@ == old(scene)@.viewport_create_t(Rect { x, y, width, height }),
            final(scene)@.wf(),
            v == old(scene)@.viewports.len(),
            final(scene)@.viewport_alive(v),
    {
        let v = scene.viewports.len();
        let rect = Rect { x, y, width, height };
        let vp = Viewport { rect, color: Color::white(), visible: true, entries: Vec::new() };
        scene.viewports.push(ViewportSlot { ext: 1, refs: 0, value: Some(vp) });
        proof {
            assert(scene.viewports@.len() == scene.viewports.len());
            assert(scene@.viewports =~~= old(scene)@.viewport_create_t(rect).viewports);
            assert(scene@ =~~= old(scene)@.viewport_create_t(rect));
            lemma_viewport_create_wf(old(scene)@, rect);
        }
        v
    }

    /// Take one more external strong handle on viewport `v`.
    pub fn retain(scene: &mut Scene, v: usize)
        requires
            old(scene)@.wf(),
            old(scene)@.viewport_alive(v),
            old(scene)@.viewports[v as int].ext < u64::MAX,
        ensures
            final(scene)@ == old(scene)@.viewport_retain_t(v),
            final(scene)@.wf(),
            final(scene)@.viewport_alive(v),
    {
        let slot = &mut scene.viewports[v];
        slot.ext = slot.ext + 1;
        proof {
            assert(old(scene)@.viewport_slot_inv(v as int));
            let t = old(scene)@.viewport_retain_t(v);
            assert(scene@.viewports =~~= t.viewports);
            assert(scene@ =~~= t);
            lemma_viewport_slot_edit_wf(old(scene)@, v, t.viewports[v as int]);
        }
    }

    /// Drop one external strong handle on viewport `v`. The viewport is
    /// destroyed exactly when this was the last strong reference: external
    /// handles and live sprites referencing the viewport both keep it
    /// alive, so releasing an external owner while a sprite still points
    /// here leaves the viewport intact.
    pub fn release(scene: &mut Scene, v: usize)
        requires
            old(scene)@.wf(),
            old(scene)@.viewport_alive(v),
            old(scene)@.viewports[v as int].ext > 0,
        ensures
            final(scene)@ == old(scene)@.viewport_release_t(v),
            final(scene)@.wf(),
            final(scene)@.viewport_alive(v) <==> old(scene)@.viewports[v as int].ext - 1
                + old(scene)@.viewports[v as int].refs > 0,
    {
        let slot = &mut scene.viewports[v];
        slot.ext = slot.ext - 1;
        if slot.ext == 0 && slot.refs == 0 {
            slot.value = None;
        }
        proof {
            assert(old(scene)@.viewport_slot_inv(v as int));
            let t = old(scene)@.viewport_release_t(v);
            assert(scene@.viewports =~~= t.viewports);
            assert(scene@ =~~= t);
            lemma_viewport_slot_edit_wf(old(scene)@, v, t.viewports[v as int]);
        }
    }

    /// Append a weak renderable entry to viewport `v`'s ordered collection.
    /// Drawables registering themselves call this; the entry is drawn after
    /// (on top of) all earlier entries.
    pub fn add(scene: &mut Scene, v: usize, entry: Renderable)
        requires
            old(scene)@.wf(),
            old(scene)@.viewport_alive(v),
            entry.target() < old(scene)@.sprites.len(),
        ensures
            final(scene)@ == old(scene)@.viewport_add_t(v, entry),
            final(scene)@.wf(),
            final(scene)@.viewport_alive(v),
    {
        let slot = &mut scene.viewports[v];
        match &mut slot.value {
            Some(vp) => {
                vp.entries.push(entry);
            },
            None => {},
        }
        proof {
            assert(old(scene)@.viewport_slot_inv(v as int));
            let t = old(scene)@.viewport_add_t(v, entry);
            assert(scene@.viewports =~~= t.viewports);
            assert(scene@ =~~= t);
            lemma_viewport_slot_edit_wf(old(scene)@, v, t.viewports[v as int]);
        }
    }

    /// Set viewport `v`'s visibility flag. An invisible viewport
    /// contributes no GPU work at all on the next frame.
    pub fn set_visible(scene: &mut Scene, v: usize, visible: bool)
        requires
            old(scene)@.wf(),
            old(scene)@.viewport_alive(v),
        ensures
            final(scene)@ == old(scene)@.viewport_set_visible_t(v, visible),
            final(scene)@.wf(),
            final(scene)@.viewport_alive(v),
    {
        let slot = &mut scene.viewports[v];
        match &mut slot.value {
            Some(vp) => {
                vp.visible = visible;
            },
            None => {},
        }
        proof {
            assert(old(scene)@.viewport_slot_inv(v as int));
            let t = old(scene)@.viewport_set_visible_t(v, visible);
            assert(scene@.viewports =~~= t.viewports);
            assert(scene@ =~~= t);
            lemma_viewport_slot_edit_wf(old(scene)@, v, t.viewports[v as int]);
        }
    }

    /// Set viewport `v`'s background clear color.
    pub fn set_color(scene: &mut Scene, v: usize, color: Color)
        requires
            old(scene)@.wf(),
            old(scene)@.viewport_alive(v),
        ensures
            final(scene)@ == old(scene)@.viewport_set_color_t(v, color),
            final(scene)@.wf(),
            final(scene)@.viewport_alive(v),
    {
        let slot = &mut scene.viewports[v];
        match &mut slot.value {
            Some(vp) => {
                vp.color = color;
            },
            None => {},
        }
        proof {
            assert(old(scene)@.viewport_slot_inv(v as int));
            let t = old(scene)@.viewport_set_color_t(v, color);
            assert(scene@.viewports =~~= t.viewports);
            assert(scene@ =~~= t);
            lemma_viewport_slot_edit_wf(old(scene)@, v, t.viewports[v as int]);
        }
    }
}

impl Renderable {
    /// Try to obtain a usable handle from this weak entry: succeeds with
    /// the target's slot index exactly while the referenced object is still
    /// alive.
    pub fn resolve(&self, scene: &Scene) -> (r: Option<usize>)
        ensures
            r == if scene@.sprite_alive(self.target()) {
                Some(self.target())
            } else {
                None::<usize>
            },
    {
        match self {
            Renderable::Sprite(i) => {
                if *i < scene.sprites.len() && scene.sprites[*i].value.is_some() {
                    Some(*i)
                } else {
                    None
                }
            },
        }
    }
}

} // verus!
