use vstd::prelude::*;

use crate::color::Color;
use crate::rect::Rect;
use crate::result::Error;
use crate::scene::{Scene, SceneV, ViewportSlotV};
use crate::sprite::{Quad, Sprite};
use crate::viewport::{lemma_viewport_slot_edit_wf, Renderable, Viewport, ViewportV};

verus! {

/// One draw command: bind bitmap `bitmap`'s texture group and draw sprite
/// `sprite`'s quad. The shell executes these against the GPU in order.
#[derive(Clone, Copy, Debug, PartialEq, Eq, Structural)]
pub struct DrawCall {
    /// The sprite being drawn.
    pub sprite: usize,
    /// The bitmap whose texture is bound for the draw.
    pub bitmap: usize,
    /// The geometry drawn.
    pub quad: Quad,
}

/// Everything one viewport contributes to a frame: a render pass scoped to
/// its rectangle, cleared to its background color, with the draw commands
/// in entry order. Entries that resolved but had nothing to draw are
/// collected in `skipped`; they never abort the pass.
#[derive(Debug)]
pub struct RenderPass {
    /// The viewport this pass belongs to.
    pub viewport: usize,
    /// The region the pass renders into.
    pub rect: Rect,
    /// The clear color for the pass.
    pub color: Color,
    /// Draw commands, in entry (back-to-front) order.
    pub draws: Vec<DrawCall>,
    /// Sprites that resolved but had no bitmap, in entry order.
    pub skipped: Vec<usize>,
}

/// The mathematical value of a [`RenderPass`].
#[verifier::ext_equal]
pub ghost struct RenderPassV {
    /// The viewport this pass belongs to.
    pub viewport: usize,
    /// The region the pass renders into.
    pub rect: Rect,
    /// The clear color for the pass.
    pub color: Color,
    /// Draw commands, in entry order.
    pub draws: Seq<DrawCall>,
    /// Sprites that resolved but had no bitmap.
    pub skipped: Seq<usize>,
}

impl View for RenderPass {
    type V = RenderPassV;

    open spec fn view(&self) -> RenderPassV {
        RenderPassV {
            viewport: self.viewport,
            rect: self.rect,
            color: self.color,
            draws: self.draws@,
            skipped: self.skipped@,
        }
    }
}

/// Whether a weak entry of viewport `v` is current: it resolves to a live
/// sprite that still holds its strong reference to `v`. An entry of a dead
/// sprite, or of a sprite since re-parented elsewhere, is stale and gets
/// pruned.
pub open spec fn entry_current(s: SceneV, v: usize, e: Renderable) -> bool {
    &&& s.sprite_alive(e.target())
    &&& s.sprite_at(e.target()).viewport == Some(v)
}

/// The entries that survive pruning: the current ones, in their existing
/// order.
pub open spec fn pruned_entries(s: SceneV, v: usize, entries: Seq<Renderable>) -> Seq<Renderable>
    decreases entries.len(),
{
    if entries.len() == 0 {
        Seq::empty()
    } else {
        let rest = pruned_entries(s, v, entries.drop_last());
        if entry_current(s, v, entries.last()) {
            rest.push(entries.last())
        } else {
            rest
        }
    }
}

/// The draw command a resolved sprite emits: bind its bitmap, draw its
/// stored quad.
pub open spec fn draw_of(s: SceneV, e: Renderable) -> DrawCall {
    let sp = s.sprite_at(e.target());
    DrawCall { sprite: e.target(), bitmap: sp.bitmap->Some_0, quad: sp.quad->Some_0 }
}

/// The draw commands of a run of entries, in order: one per entry whose
/// sprite has a bitmap.
pub open spec fn draws_of(s: SceneV, entries: Seq<Renderable>) -> Seq<DrawCall>
    decreases entries.len(),
{
    if entries.len() == 0 {
        Seq::empty()
    } else {
        let rest = draws_of(s, entries.drop_last());
        if s.sprite_at(entries.last().target()).bitmap is Some {
            rest.push(draw_of(s, entries.last()))
        } else {
            rest
        }
    }
}

/// The entries skipped with nothing to render, in order: one per entry
/// whose sprite has no bitmap.
pub open spec fn skipped_of(s: SceneV, entries: Seq<Renderable>) -> Seq<usize>
    decreases entries.len(),
{
    if entries.len() == 0 {
        Seq::empty()
    } else {
        let rest = skipped_of(s, entries.drop_last());
        if s.sprite_at(entries.last().target()).bitmap is Some {
            rest
        } else {
            rest.push(entries.last().target())
        }
    }
}

impl SceneV {
    /// The scene after one traversal of viewport `v`: an invisible viewport
    /// is left entirely alone (no pruning, no GPU work); a visible one has
    /// its stale entries pruned. This traversal is the sole place dead
    /// entries are reclaimed.
    pub open spec fn traverse_t(self, v: usize) -> SceneV {
        let slot = self.viewports[v as int];
        let vp = slot.value->Some_0;
        if !vp.visible {
            self
        } else {
            self.with_viewport_slot(
                v as int,
                ViewportSlotV {
                    value: Some(
                        ViewportV { entries: pruned_entries(self, v, vp.entries), ..vp },
                    ),
                    ..slot
                },
            )
        }
    }

    /// What one traversal of viewport `v` emits: nothing at all when the
    /// viewport is invisible, else one render pass over its rectangle and
    /// clear color with the surviving entries' draw commands in order.
    pub open spec fn traverse_pass(self, v: usize) -> Option<RenderPassV> {
        let vp = self.viewport_at(v);
        if !vp.visible {
            None
        } else {
            let pruned = pruned_entries(self, v, vp.entries);
            Some(
                RenderPassV {
                    viewport: v,
                    rect: vp.rect,
                    color: vp.color,
                    draws: draws_of(self, pruned),
                    skipped: skipped_of(self, pruned),
                },
            )
        }
    }
}

/// Every entry that survives pruning is current, and pruning never grows
/// the collection.
pub proof fn lemma_pruned_entries_current(s: SceneV, v: usize, entries: Seq<Renderable>)
    ensures
        forall|k: int|
            0 <= k < pruned_entries(s, v, entries).len() ==> entry_current(
                s,
                v,
                #[trigger] pruned_entries(s, v, entries)[k],
            ),
        pruned_entries(s, v, entries).len() <= entries.len(),
    decreases entries.len(),
{
    if entries.len() > 0 {
        lemma_pruned_entries_current(s, v, entries.drop_last());
    }
}

/// If no entry is current, pruning empties the collection. This is the
/// lazy-reclamation guarantee: once the sprites behind a viewport's entries
/// are dead (or re-parented away), a single traversal drops every entry.
pub proof fn lemma_pruned_entries_all_stale(s: SceneV, v: usize, entries: Seq<Renderable>)
    requires
        forall|k: int| 0 <= k < entries.len() ==> !entry_current(s, v, #[trigger] entries[k]),
    ensures
        pruned_entries(s, v, entries).len() == 0,
    decreases entries.len(),
{
    if entries.len() > 0 {
        lemma_pruned_entries_all_stale(s, v, entries.drop_last());
    }
}

/// If every entry is current, pruning keeps the collection exactly as it
/// is.
pub proof fn lemma_pruned_entries_all_current(s: SceneV, v: usize, entries: Seq<Renderable>)
    requires
        forall|k: int| 0 <= k < entries.len() ==> entry_current(s, v, #[trigger] entries[k]),
    ensures
        pruned_entries(s, v, entries) =~= entries,
    decreases entries.len(),
{
    if entries.len() > 0 {
        lemma_pruned_entries_all_current(s, v, entries.drop_last());
    }
}

impl Sprite {
    /// The render contract of one resolved sprite: emit the bind-and-draw
    /// command for its bitmap and quad. Fails with
    /// [`Error::NothingToRender`] exactly when no bitmap is set; that is a
    /// per-entry skip, never a frame-fatal error.
    pub fn render(scene: &Scene, i: usize) -> (r: Result<DrawCall, Error>)
        requires
            scene@.wf(),
            scene@.sprite_alive(i),
        ensures
            match r {
                Ok(d) => scene@.sprite_at(i).bitmap is Some && d == draw_of(
                    scene@,
                    Renderable::Sprite(i),
                ),
                Err(e) => e == Error::NothingToRender && scene@.sprite_at(i).bitmap is None,
            },
    {
        proof {
            assert(scene@.sprite_slot_inv(i as int));
        }
        match &scene.sprites[i].value {
            Some(sp) => {
                match (sp.bitmap, sp.quad) {
                    (Some(b), Some(q)) => Ok(DrawCall { sprite: i, bitmap: b, quad: q }),
                    (Some(_), None) => {
                        proof {
                            assert(false);
                        }
                        Err(Error::NothingToRender)
                    },
                    (None, _) => Err(Error::NothingToRender),
                }
            },
            None => {
                proof {
                    assert(false);
                }
                Err(Error::NothingToRender)
            },
        }
    }
}

impl Viewport {
    /// The per-frame traversal of one live viewport.
    ///
    /// If the viewport is invisible, nothing happens at all: no pruning, no
    /// pass, no GPU work. Otherwise stale entries (dead or re-parented
    /// sprites) are pruned permanently, the surviving entries resolve, and
    /// each emits its draw command in collection order into one render pass
    /// scoped to the viewport's rectangle and clear color. A sprite with
    /// nothing to draw is skipped and recorded; the rest of the pass is
    /// unaffected. The shell submits and presents; the viewport never
    /// aborts the frame.
    pub fn update(scene: &mut Scene, v: usize) -> (r: Option<RenderPass>)
        requires
            old(scene)@.wf(),
            old(scene)@.viewport_alive(v),
        ensures
            final(scene)@ == old(scene)@.traverse_t(v),
            final(scene)@.wf(),
            match r {
                Some(p) => old(scene)@.traverse_pass(v) == Some(p@),
                None => old(scene)@.traverse_pass(v) is None,
            },
    {
        proof {
            assert(old(scene)@.viewport_slot_inv(v as int));
        }
        let (visible, rect, color, n) = match &scene.viewports[v].value {
            Some(vp) => (vp.visible, vp.rect, vp.color, vp.entries.len()),
            None => {
                proof {
                    assert(false);
                }
                (false, Rect { x: 0, y: 0, width: 0, height: 0 }, Color::white(), 0)
            },
        };
        if !visible {
            proof {
                assert(scene@ =~~= old(scene)@.traverse_t(v));
            }
            return None;
        }
        let ghost entries = old(scene)@.viewport_at(v).entries;

        // Prune: keep exactly the entries that resolve to a sprite still
        // registered here.
        let mut pruned: Vec<Renderable> = Vec::new();
        let mut k: usize = 0;
        while k < n
            invariant
                scene@ == old(scene)@,
                scene@.wf(),
                scene@.viewport_alive(v),
                scene@.viewport_at(v).entries == entries,
                n == entries.len(),
                k <= n,
                pruned@ =~= pruned_entries(scene@, v, entries.take(k as int)),
            decreases n - k,
        {
            let e = match &scene.viewports[v].value {
                Some(vp) => vp.entries[k],
                None => {
                    proof {
                        assert(false);
                    }
                    Renderable::Sprite(0)
                },
            };
            let current = match e.resolve(scene) {
                Some(si) => {
                    match &scene.sprites[si].value {
                        Some(sp) => match sp.viewport {
                            Some(w) => w == v,
                            None => false,
                        },
                        None => false,
                    }
                },
                None => false,
            };
            proof {
                assert(current == entry_current(scene@, v, e));
                assert(entries.take(k as int + 1).drop_last() =~= entries.take(k as int));
                assert(entries.take(k as int + 1).last() == e);
            }
            if current {
                pruned.push(e);
            }
            k = k + 1;
        }
        proof {
            assert(entries.take(n as int) =~= entries);
            assert(pruned@ =~= pruned_entries(scene@, v, entries));
            lemma_pruned_entries_current(scene@, v, entries);
        }

        // Resolve and render each surviving entry, in order; per-entry
        // failures are collected and never abort the pass.
        let mut draws: Vec<DrawCall> = Vec::new();
        let mut skipped: Vec<usize> = Vec::new();
        let m = pruned.len();
        let mut k: usize = 0;
        while k < m
            invariant
                scene@ == old(scene)@,
                scene@.wf(),
                m == pruned@.len(),
                k <= m,
                forall|j: int|
                    0 <= j < pruned@.len() ==> entry_current(scene@, v, #[trigger] pruned@[j]),
                draws@ =~= draws_of(scene@, pruned@.take(k as int)),
                skipped@ =~= skipped_of(scene@, pruned@.take(k as int)),
            decreases m - k,
        {
            let e = pruned[k];
            let Renderable::Sprite(si) = e;
            proof {
                assert(entry_current(scene@, v, e));
                assert(pruned@.take(k as int + 1).drop_last() =~= pruned@.take(k as int));
                assert(pruned@.take(k as int + 1).last() == e);
            }
            match Sprite::render(scene, si) {
                Ok(d) => {
                    draws.push(d);
                },
                Err(_) => {
                    skipped.push(si);
                },
            }
            k = k + 1;
        }
        proof {
            assert(pruned@.take(m as int) =~= pruned@);
        }

        // Commit the pruned collection; this is the only place stale
        // entries are reclaimed.
        let ghost pruned_seq = pruned@;
        let slot = &mut scene.viewports[v];
        match &mut slot.value {
            Some(vp) => {
                vp.entries = pruned;
            },
            None => {},
        }
        proof {
            let t = old(scene)@.traverse_t(v);
            assert(scene@.viewports =~~= t.viewports);
            assert(scene@ =~~= t);
            lemma_viewport_slot_edit_wf(old(scene)@, v, t.viewports[v as int]);
        }
        Some(RenderPass { viewport: v, rect, color, draws, skipped })
    }
}

} // verus!
