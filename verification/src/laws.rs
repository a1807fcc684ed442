//! The guarantees the scene-graph model gives as theorems: what pruning
//! reclaims, who keeps whom alive, and what a traversal emits.

use vstd::prelude::*;

use crate::graphics::{frame_passes, frame_scene_t};
use crate::render::{draw_of, draws_of, entry_current, pruned_entries};
use crate::scene::{lemma_refs_count_witness, refs_bm, refs_vp, SceneV};
use crate::sprite::{lemma_sprite_create_wf, lemma_sprite_release_wf, Sprite};
use crate::viewport::Renderable;

verus! {

/// Lazy pruning: once every sprite behind a visible viewport's entries has
/// been destroyed, one traversal of that viewport leaves its renderable
/// collection empty. Destruction itself removes nothing; the traversal is
/// the sole place dead entries are reclaimed.
pub proof fn lemma_lazy_pruning(s: SceneV, v: usize)
    requires
        s.wf(),
        s.viewport_alive(v),
        s.viewport_at(v).visible,
        forall|k: int|
            0 <= k < s.viewport_at(v).entries.len() ==> !s.sprite_alive(
                (#[trigger] s.viewport_at(v).entries[k]).target(),
            ),
    ensures
        s.traverse_t(v).viewport_at(v).entries.len() == 0,
{
    crate::render::lemma_pruned_entries_all_stale(s, v, s.viewport_at(v).entries);
}


/// The scene after `n` sprite creations, each registered to viewport `v`.
pub open spec fn create_sprites(s: SceneV, v: usize, n: nat) -> SceneV
    decreases n,
{
    if n == 0 {
        s
    } else {
        create_sprites(s, v, (n - 1) as nat).sprite_create_t(Some(v))
    }
}

/// The scene after dropping the single strong handle of each of the `n`
/// sprites `first`, `first + 1`, ..., `first + n - 1`.
pub open spec fn release_sprites(s: SceneV, first: nat, n: nat) -> SceneV
    decreases n,
{
    if n == 0 {
        s
    } else {
        release_sprites(s, first, (n - 1) as nat).sprite_release_t(
            (first + n - 1) as usize,
        )
    }
}

/// What `n` registrations do: `n` fresh live sprites, each holding one
/// external handle and a strong reference to `v`, and `n` new entries at
/// the end of `v`'s collection, in creation order. Nothing else changes.
pub proof fn lemma_create_sprites(s: SceneV, v: usize, n: nat)
    requires
        s.wf(),
        s.viewport_alive(v),
        s.sprites.len() + n <= usize::MAX,
    ensures
        ({
            let t = create_sprites(s, v, n);
            let first = s.sprites.len();
            &&& t.wf()
            &&& t.sprites.len() == first + n
            &&& forall|i: int| 0 <= i < first ==> t.sprites[i] == s.sprites[i]
            &&& forall|k: int|
                0 <= k < n ==> (#[trigger] t.sprites[first + k]).ext == 1
                    && t.sprites[first + k].value == Some(
                    Sprite {
                        x: 0,
                        y: 0,
                        ox: 0,
                        oy: 0,
                        quad: None,
                        bitmap: None,
                        viewport: Some(v),
                    },
                )
            &&& t.viewport_alive(v)
            &&& t.viewports[v as int].ext == s.viewports[v as int].ext
            &&& t.viewport_at(v).visible == s.viewport_at(v).visible
            &&& t.viewport_at(v).entries =~= s.viewport_at(v).entries + Seq::new(
                n,
                |k: int| Renderable::Sprite((first + k) as usize),
            )
        }),
    decreases n,
{
    if n > 0 {
        lemma_create_sprites(s, v, (n - 1) as nat);
        let before = create_sprites(s, v, (n - 1) as nat);
        let t = create_sprites(s, v, n);
        let first = s.sprites.len();
        lemma_sprite_create_wf(before, Some(v));
        assert(t.viewport_at(v).entries =~= s.viewport_at(v).entries + Seq::new(
            n,
            |k: int| Renderable::Sprite((first + k) as usize),
        ));
    }
}

/// What dropping all those handles does: the `n` sprites die, the
/// viewport's entries (and its own external handles) stay exactly as they
/// were — destruction removes no entry.
pub proof fn lemma_release_sprites(s: SceneV, v: usize, first: nat, n: nat)
    requires
        s.wf(),
        s.viewport_alive(v),
        s.viewports[v as int].ext > 0,
        first + n <= s.sprites.len(),
        s.sprites.len() <= usize::MAX,
        forall|k: int|
            0 <= k < n ==> ((#[trigger] s.sprites[first + k]).ext == 1 && (
            s.sprites[first + k].value matches Some(sp) ==> sp.viewport == Some(v) && sp.bitmap
                is None) && s.sprites[first + k].value is Some),
    ensures
        ({
            let t = release_sprites(s, first, n);
            &&& t.wf()
            &&& t.sprites.len() == s.sprites.len()
            &&& forall|j: int|
                0 <= j < s.sprites.len() && !(first <= j < first + n) ==> #[trigger] t.sprites[j]
                    == s.sprites[j]
            &&& forall|k: int| 0 <= k < n ==> !t.sprite_alive(#[trigger] ((first + k) as usize))
            &&& t.viewport_alive(v)
            &&& t.viewports[v as int].ext == s.viewports[v as int].ext
            &&& t.viewport_at(v).visible == s.viewport_at(v).visible
            &&& t.viewport_at(v).entries =~= s.viewport_at(v).entries
        }),
    decreases n,
{
    if n > 0 {
        lemma_release_sprites(s, v, first, (n - 1) as nat);
        let before = release_sprites(s, first, (n - 1) as nat);
        let t = release_sprites(s, first, n);
        let i = (first + n - 1) as usize;
        assert(before.sprites[i as int] == s.sprites[i as int]);
        lemma_sprite_release_wf(before, i);
        assert forall|k: int| 0 <= k < n implies !t.sprite_alive(
            #[trigger] ((first + k) as usize),
        ) by {
            if k < n - 1 {
                assert(!before.sprite_alive((first + k) as usize));
            }
        }
    }
}

/// Lazy pruning, end to end: register any number of sprites to a fresh
/// viewport, drop every strong sprite handle, and the entries all linger,
/// unresolvable — until the viewport's next traversal, which reclaims every
/// one of them.
pub proof fn lemma_lazy_pruning_full(s: SceneV, v: usize, n: nat)
    requires
        s.wf(),
        s.viewport_alive(v),
        s.viewports[v as int].ext > 0,
        s.viewport_at(v).visible,
        s.viewport_at(v).entries.len() == 0,
        s.sprites.len() + n <= usize::MAX,
    ensures
        ({
            let created = create_sprites(s, v, n);
            let dropped = release_sprites(created, s.sprites.len() as nat, n);
            &&& dropped.viewport_at(v).entries.len() == n
            &&& dropped.traverse_t(v).viewport_at(v).entries.len() == 0
        }),
{
    let first = s.sprites.len();
    let created = create_sprites(s, v, n);
    let dropped = release_sprites(created, first as nat, n);
    lemma_create_sprites(s, v, n);
    lemma_release_sprites(created, v, first as nat, n);
    assert forall|k: int|
        0 <= k < dropped.viewport_at(v).entries.len() implies !entry_current(
        dropped,
        v,
        #[trigger] dropped.viewport_at(v).entries[k],
    ) by {
        assert(dropped.viewport_at(v).entries[k] == Renderable::Sprite((first + k) as usize));
    }
    crate::render::lemma_pruned_entries_all_stale(dropped, v, dropped.viewport_at(v).entries);
}

/// Ownership asymmetry, first half: dropping a viewport's external strong
/// owner while some live sprite still strong-references it does not destroy
/// the viewport.
pub proof fn lemma_ownership_asymmetry(s: SceneV, v: usize, i: usize)
    requires
        s.wf(),
        s.viewport_alive(v),
        s.viewports[v as int].ext > 0,
        s.sprite_alive(i),
        s.sprite_at(i).viewport == Some(v),
    ensures
        s.viewport_release_t(v).viewport_alive(v),
{
    assert(s.viewport_slot_inv(v as int));
    lemma_refs_count_witness(s.sprites, i as int, refs_vp(v));
}

/// Ownership asymmetry, second half: once the external owner is gone and a
/// single sprite's strong reference is all that holds the viewport,
/// dropping that sprite's last handle destroys the viewport too.
pub proof fn lemma_viewport_dies_with_last_sprite(s: SceneV, v: usize, i: usize)
    requires
        s.wf(),
        s.viewport_alive(v),
        s.viewports[v as int].ext == 0,
        s.viewports[v as int].refs == 1,
        s.sprite_alive(i),
        s.sprites[i as int].ext == 1,
        s.sprite_at(i).viewport == Some(v),
    ensures
        !s.sprite_release_t(i).viewport_alive(v),
{
    assert(s.sprite_slot_inv(i as int));
}

/// Every entry current and backed by a bitmap draws, one draw command per
/// entry, in entry order.
pub proof fn lemma_draws_in_entry_order(s: SceneV, entries: Seq<Renderable>)
    requires
        forall|k: int|
            0 <= k < entries.len() ==> s.sprite_at((#[trigger] entries[k]).target()).bitmap
                is Some,
    ensures
        draws_of(s, entries).len() == entries.len(),
        forall|k: int|
            0 <= k < entries.len() ==> draws_of(s, entries)[k] == draw_of(
                s,
                #[trigger] entries[k],
            ),
    decreases entries.len(),
{
    if entries.len() > 0 {
        assert forall|k: int|
            0 <= k < entries.drop_last().len() implies s.sprite_at(
            (#[trigger] entries.drop_last()[k]).target(),
        ).bitmap is Some by {
            assert(entries.drop_last()[k] == entries[k]);
        }
        lemma_draws_in_entry_order(s, entries.drop_last());
        let rest = draws_of(s, entries.drop_last());
        let res = draws_of(s, entries);
        assert(s.sprite_at((entries[entries.len() - 1]).target()).bitmap is Some);
        assert forall|k: int| 0 <= k < entries.len() implies res[k] == draw_of(
            s,
            #[trigger] entries[k],
        ) by {
            if k < entries.len() - 1 {
                assert(entries.drop_last()[k] == entries[k]);
                assert(res[k] == rest[k]);
            } else {
                assert(entries[k] == entries.last());
            }
        }
    }
}

/// Render order: sprites registered to a viewport in the order A, B, C,
/// each resolvable and with content, draw in exactly that order — the
/// traversal's pass carries their draw commands as A, B, C.
pub proof fn lemma_render_order(s: SceneV, v: usize, a: usize, b: usize, c: usize)
    requires
        s.wf(),
        s.viewport_alive(v),
        s.viewport_at(v).visible,
        s.viewport_at(v).entries =~= seq![
            Renderable::Sprite(a),
            Renderable::Sprite(b),
            Renderable::Sprite(c),
        ],
        entry_current(s, v, Renderable::Sprite(a)),
        entry_current(s, v, Renderable::Sprite(b)),
        entry_current(s, v, Renderable::Sprite(c)),
        s.sprite_at(a).bitmap is Some,
        s.sprite_at(b).bitmap is Some,
        s.sprite_at(c).bitmap is Some,
    ensures
        s.traverse_pass(v) matches Some(p) && p.draws =~= seq![
            draw_of(s, Renderable::Sprite(a)),
            draw_of(s, Renderable::Sprite(b)),
            draw_of(s, Renderable::Sprite(c)),
        ],
{
    let entries = s.viewport_at(v).entries;
    crate::render::lemma_pruned_entries_all_current(s, v, entries);
    lemma_draws_in_entry_order(s, entries);
    let p = s.traverse_pass(v)->Some_0;
    assert(p.draws[0] == draw_of(s, Renderable::Sprite(a)));
    assert(p.draws[1] == draw_of(s, Renderable::Sprite(b)));
    assert(p.draws[2] == draw_of(s, Renderable::Sprite(c)));
}

/// No draw command ever names a sprite that none of the entries point at.
pub proof fn lemma_draws_exclude(s: SceneV, entries: Seq<Renderable>, i: usize)
    requires
        forall|k: int| 0 <= k < entries.len() ==> (#[trigger] entries[k]).target() != i,
    ensures
        forall|k: int|
            0 <= k < draws_of(s, entries).len() ==> (#[trigger] draws_of(s, entries)[k]).sprite
                != i,
    decreases entries.len(),
{
    if entries.len() > 0 {
        assert forall|k: int|
            0 <= k < entries.drop_last().len() implies (#[trigger] entries.drop_last()[k]).target()
            != i by {
            assert(entries.drop_last()[k] == entries[k]);
        }
        lemma_draws_exclude(s, entries.drop_last(), i);
        let rest = draws_of(s, entries.drop_last());
        let res = draws_of(s, entries);
        assert((entries[entries.len() - 1]).target() != i);
        assert forall|k: int| 0 <= k < res.len() implies (#[trigger] res[k]).sprite != i by {
            if k < rest.len() {
                assert(res[k] == rest[k]);
            }
        }
    }
}

/// Re-parenting: after `set_viewport` moves a sprite to another viewport,
/// the sprite's entry is current only in the new viewport. A traversal of
/// the old viewport draws it no more (its stale entry fails the currency
/// test, so it is pruned rather than rendered), while the new viewport's
/// collection ends with the sprite and — given content — its pass draws it.
pub proof fn lemma_reparenting(s: SceneV, i: usize, ov: usize, nv: usize)
    requires
        s.wf(),
        s.sprite_alive(i),
        s.sprite_at(i).viewport == Some(ov),
        s.viewport_alive(nv),
        ov != nv,
    ensures
        ({
            let t = s.sprite_set_viewport_t(i, Some(nv));
            &&& t.sprite_alive(i)
            &&& t.sprite_at(i).viewport == Some(nv)
            &&& t.viewport_alive(nv)
            &&& t.viewport_at(nv).entries.last() == Renderable::Sprite(i)
            &&& entry_current(t, nv, Renderable::Sprite(i))
            &&& !entry_current(t, ov, Renderable::Sprite(i))
            &&& (t.viewport_alive(ov) ==> forall|k: int|
                0 <= k < draws_of(t, pruned_entries(t, ov, t.viewport_at(ov).entries)).len()
                    ==> (#[trigger] draws_of(
                    t,
                    pruned_entries(t, ov, t.viewport_at(ov).entries),
                )[k]).sprite != i)
            &&& (t.sprite_at(i).bitmap is Some ==> {
                let nd = draws_of(t, pruned_entries(t, nv, t.viewport_at(nv).entries));
                nd.len() > 0 && nd.last().sprite == i
            })
        }),
{
    let t = s.sprite_set_viewport_t(i, Some(nv));
    assert(s.sprite_slot_inv(i as int));
    if t.viewport_alive(ov) {
        let pruned = pruned_entries(t, ov, t.viewport_at(ov).entries);
        crate::render::lemma_pruned_entries_current(t, ov, t.viewport_at(ov).entries);
        assert forall|k: int| 0 <= k < pruned.len() implies (#[trigger] pruned[k]).target()
            != i by {
            if pruned[k].target() == i {
                assert(pruned[k] == Renderable::Sprite(i));
                assert(entry_current(t, ov, pruned[k]));
            }
        }
        lemma_draws_exclude(t, pruned, i);
    }
    if t.sprite_at(i).bitmap is Some {
        let new_entries = t.viewport_at(nv).entries;
        let pruned = pruned_entries(t, nv, new_entries);
        assert(entry_current(t, nv, new_entries.last()));
        assert(pruned =~= pruned_entries(t, nv, new_entries.drop_last()).push(
            Renderable::Sprite(i),
        ));
        assert(draws_of(t, pruned) =~= draws_of(t, pruned.drop_last()).push(
            draw_of(t, Renderable::Sprite(i)),
        ));
    }
}

/// Bitmap sharing: two live sprites referencing one bitmap keep it alive
/// together. Destroying one sprite leaves the bitmap (and the survivor's
/// reference to it) intact; the bitmap lives as long as its longest holder.
pub proof fn lemma_bitmap_sharing(s: SceneV, b: usize, i: usize, j: usize)
    requires
        s.wf(),
        s.sprite_alive(i),
        s.sprite_alive(j),
        i != j,
        s.sprite_at(i).bitmap == Some(b),
        s.sprite_at(j).bitmap == Some(b),
        s.sprites[i as int].ext == 1,
    ensures
        ({
            let t = s.sprite_release_t(i);
            &&& !t.sprite_alive(i)
            &&& t.sprite_alive(j)
            &&& t.bitmap_alive(b)
            &&& t.sprite_at(j).bitmap == Some(b)
        }),
{
    let t = s.sprite_release_t(i);
    assert(s.sprite_slot_inv(i as int));
    assert(s.bitmap_slot_inv(b as int));
    lemma_refs_count_witness(t.sprites, j as int, refs_bm(b));
    let dead = crate::scene::SpriteSlotV { ext: 0, value: None };
    crate::scene::lemma_refs_count_update(s.sprites, i as int, dead, refs_bm(b));
}

/// Bitmap sharing, the other half: when a single sprite's reference is the
/// last strong reference to a bitmap, destroying that sprite releases the
/// bitmap.
pub proof fn lemma_bitmap_released_with_last_sprite(s: SceneV, b: usize, i: usize)
    requires
        s.wf(),
        s.sprite_alive(i),
        s.sprite_at(i).bitmap == Some(b),
        s.sprites[i as int].ext == 1,
        s.bitmaps[b as int].ext == 0,
        s.bitmaps[b as int].refs == 1,
    ensures
        !s.sprite_release_t(i).bitmap_alive(b),
{
    assert(s.sprite_slot_inv(i as int));
}

/// Visibility, at one viewport: an invisible viewport contributes nothing
/// to a frame — no render pass (hence no clear and no draw calls) and no
/// change to its collection.
pub proof fn lemma_invisible_contributes_nothing(s: SceneV, v: usize)
    requires
        s.viewport_alive(v),
        !s.viewport_at(v).visible,
    ensures
        s.traverse_pass(v) is None,
        s.traverse_t(v) == s,
{
}

/// Traversals leave every viewport's liveness, visibility, rectangle and
/// color as they are; only entry collections change.
pub proof fn lemma_frame_preserves_viewport_flags(s: SceneV, vps: Seq<usize>, v: usize)
    requires
        forall|k: int| 0 <= k < vps.len() ==> s.viewport_alive(#[trigger] vps[k]),
    ensures
        frame_scene_t(s, vps).viewport_alive(v) == s.viewport_alive(v),
        s.viewport_alive(v) ==> {
            let t = frame_scene_t(s, vps);
            &&& t.viewport_at(v).visible == s.viewport_at(v).visible
            &&& t.viewport_at(v).rect == s.viewport_at(v).rect
            &&& t.viewport_at(v).color == s.viewport_at(v).color
        },
        forall|w: int|
            0 <= w < vps.len() ==> frame_scene_t(s, vps).viewport_alive(#[trigger] vps[w]),
    decreases vps.len(),
{
    if vps.len() > 0 {
        lemma_frame_preserves_viewport_flags(s, vps.drop_last(), v);
        let before = frame_scene_t(s, vps.drop_last());
        let last = vps.last();
        assert forall|w: int| 0 <= w < vps.len() implies before.viewport_alive(
            #[trigger] vps[w],
        ) by {
            lemma_frame_preserves_viewport_flags(s, vps.drop_last(), vps[w] as usize);
        }
        crate::graphics::lemma_traverse_preserves_alive(before, last);
        lemma_frame_preserves_viewport_flags(s, vps.drop_last(), last);
    }
}

/// Visibility, over a whole frame: a viewport whose flag is false when the
/// frame starts contributes zero passes to that frame, whichever viewports
/// the driver traverses.
pub proof fn lemma_invisible_no_frame_passes(s: SceneV, vps: Seq<usize>, v: usize)
    requires
        s.viewport_alive(v),
        !s.viewport_at(v).visible,
        forall|k: int| 0 <= k < vps.len() ==> s.viewport_alive(#[trigger] vps[k]),
    ensures
        forall|k: int|
            0 <= k < frame_passes(s, vps).len() ==> (#[trigger] frame_passes(s, vps)[k]).viewport
                != v,
    decreases vps.len(),
{
    if vps.len() > 0 {
        lemma_invisible_no_frame_passes(s, vps.drop_last(), v);
        let before = frame_scene_t(s, vps.drop_last());
        let last = vps.last();
        let rest = frame_passes(s, vps.drop_last());
        let res = frame_passes(s, vps);
        lemma_frame_preserves_viewport_flags(s, vps.drop_last(), v);
        match before.traverse_pass(last) {
            Some(p) => {
                assert(p.viewport == last);
                if last == v {
                    assert(!before.viewport_at(v).visible);
                    assert(false);
                }
                assert forall|k: int| 0 <= k < res.len() implies (#[trigger] res[k]).viewport
                    != v by {
                    if k < rest.len() {
                        assert(res[k] == rest[k]);
                    }
                }
            },
            None => {},
        }
    }
}

} // verus!
