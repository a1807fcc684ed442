use rsgss::bitmap::Bitmap;
use rsgss::color::Color;
use rsgss::graphics::{acquire_action, AcquireAction, Graphics, SurfaceEvent};
use rsgss::result::Error;
use rsgss::scene::Scene;
use rsgss::sprite::Sprite;
use rsgss::viewport::{Renderable, Viewport};

#[test]
fn draws_follow_registration_order() {
    let mut scene = Scene::new();
    let v = Viewport::new(&mut scene, 0, 0, 640, 480);
    let a = Sprite::new(&mut scene, Some(v));
    let b = Sprite::new(&mut scene, Some(v));
    let c = Sprite::new(&mut scene, Some(v));
    let bm = Bitmap::new(&mut scene, 8, 8);
    Sprite::set_bitmap(&mut scene, a, Some(bm));
    Sprite::set_bitmap(&mut scene, b, Some(bm));
    Sprite::set_bitmap(&mut scene, c, Some(bm));

    let pass = Viewport::update(&mut scene, v).unwrap();
    let order: Vec<usize> = pass.draws.iter().map(|d| d.sprite).collect();
    assert_eq!(order, vec![a, b, c]);
}

#[test]
fn reparenting_moves_rendering() {
    let mut scene = Scene::new();
    let v1 = Viewport::new(&mut scene, 0, 0, 100, 100);
    let v2 = Viewport::new(&mut scene, 0, 0, 100, 100);
    let s = Sprite::new(&mut scene, Some(v1));
    let bm = Bitmap::new(&mut scene, 4, 4);
    Sprite::set_bitmap(&mut scene, s, Some(bm));

    Sprite::set_viewport(&mut scene, s, Some(v2));

    // the old viewport no longer renders the sprite and prunes its stale entry
    let pass1 = Viewport::update(&mut scene, v1).unwrap();
    assert!(pass1.draws.iter().all(|d| d.sprite != s));
    assert_eq!(scene.viewports[v1].value.as_ref().unwrap().entries.len(), 0);

    // the new viewport renders it
    let pass2 = Viewport::update(&mut scene, v2).unwrap();
    assert_eq!(pass2.draws.len(), 1);
    assert_eq!(pass2.draws[0].sprite, s);
}

#[test]
fn invisible_viewport_contributes_nothing() {
    let mut scene = Scene::new();
    let mut gfx = Graphics::new();
    let v = gfx.create_viewport(&mut scene, 0, 0, 64, 64);
    let s = Sprite::new(&mut scene, Some(v));
    let bm = Bitmap::new(&mut scene, 2, 2);
    Sprite::set_bitmap(&mut scene, s, Some(bm));
    Viewport::set_visible(&mut scene, v, false);

    let out = gfx.update(&mut scene, 0);
    assert_eq!(out.passes.len(), 0);
    // no pruning happens either while invisible
    assert_eq!(scene.viewports[v].value.as_ref().unwrap().entries.len(), 1);

    Viewport::set_visible(&mut scene, v, true);
    let out = gfx.update(&mut scene, 0);
    assert_eq!(out.passes.len(), 1);
    assert_eq!(out.passes[0].viewport, v);
    assert_eq!(out.passes[0].draws.len(), 1);
}

#[test]
fn frame_pacing() {
    // a 40 fps target leaves a 25ms budget
    assert_eq!(Graphics::frame_sleep_ms(40, 5), 20);
    assert_eq!(Graphics::frame_sleep_ms(40, 25), 0);
    assert_eq!(Graphics::frame_sleep_ms(40, 30), 0);
    assert_eq!(Graphics::frame_sleep_ms(100, 3), 7);
}

#[test]
fn update_prunes_dead_viewports_from_driver() {
    let mut scene = Scene::new();
    let mut gfx = Graphics::new();
    let v1 = gfx.create_viewport(&mut scene, 0, 0, 10, 10);
    let v2 = gfx.create_viewport(&mut scene, 0, 0, 10, 10);
    Viewport::release(&mut scene, v1);

    let out = gfx.update(&mut scene, 0);
    assert_eq!(gfx.viewports, vec![v2]);
    assert_eq!(out.passes.len(), 1);
    assert_eq!(out.passes[0].viewport, v2);
    assert_eq!(out.passes[0].color, Color::white());
}

#[test]
fn window_viewport_is_never_removed() {
    let mut scene = Scene::new();
    let mut gfx = Graphics::new();
    let v0 = gfx.create_viewport(&mut scene, 0, 0, 10, 10);
    let v1 = gfx.create_viewport(&mut scene, 0, 0, 10, 10);
    assert_eq!(gfx.get_window_viewport(), Some(v0));

    gfx.remove_viewport(0);
    assert_eq!(gfx.viewports, vec![v0, v1]);
    gfx.remove_viewport(1);
    assert_eq!(gfx.viewports, vec![v0]);
}

#[test]
fn sprite_without_bitmap_is_skipped_not_fatal() {
    let mut scene = Scene::new();
    let v = Viewport::new(&mut scene, 0, 0, 50, 50);
    let empty = Sprite::new(&mut scene, Some(v));
    let drawn = Sprite::new(&mut scene, Some(v));
    let bm = Bitmap::new(&mut scene, 1, 1);
    Sprite::set_bitmap(&mut scene, drawn, Some(bm));

    assert_eq!(Sprite::render(&scene, empty), Err(Error::NothingToRender));

    let pass = Viewport::update(&mut scene, v).unwrap();
    assert_eq!(pass.skipped, vec![empty]);
    assert_eq!(pass.draws.len(), 1);
    assert_eq!(pass.draws[0].sprite, drawn);
    // the skipped entry stays registered: it resolved, it just had nothing
    assert_eq!(scene.viewports[v].value.as_ref().unwrap().entries.len(), 2);
}

#[test]
fn quad_follows_position_and_bitmap_dimensions() {
    let mut scene = Scene::new();
    let s = Sprite::new(&mut scene, None);
    Sprite::set_position(&mut scene, s, 10, 20);
    let bm = Bitmap::new(&mut scene, 4, 8);
    Sprite::set_bitmap(&mut scene, s, Some(bm));

    let q = scene.sprites[s].value.as_ref().unwrap().quad.unwrap();
    assert_eq!((q.x0, q.y0), (10, 20));
    assert_eq!((q.x1, q.y1), (14, 20));
    assert_eq!((q.x2, q.y2), (14, 12));
    assert_eq!((q.x3, q.y3), (10, 12));

    // moving the sprite afterwards does not recompute the quad
    Sprite::set_position(&mut scene, s, 0, 0);
    let q2 = scene.sprites[s].value.as_ref().unwrap().quad.unwrap();
    assert_eq!(q, q2);
}

#[test]
fn manual_add_of_foreign_entry_is_pruned() {
    let mut scene = Scene::new();
    let v1 = Viewport::new(&mut scene, 0, 0, 10, 10);
    let v2 = Viewport::new(&mut scene, 0, 0, 10, 10);
    let s = Sprite::new(&mut scene, Some(v1));
    // an entry for a sprite registered elsewhere is stale from the start
    Viewport::add(&mut scene, v2, Renderable::Sprite(s));
    let pass = Viewport::update(&mut scene, v2).unwrap();
    assert_eq!(pass.draws.len(), 0);
    assert_eq!(scene.viewports[v2].value.as_ref().unwrap().entries.len(), 0);
}

#[test]
fn resolve_follows_liveness() {
    let mut scene = Scene::new();
    let s = Sprite::new(&mut scene, None);
    let entry = Renderable::Sprite(s);
    assert_eq!(entry.resolve(&scene), Some(s));
    Sprite::release(&mut scene, s);
    assert_eq!(entry.resolve(&scene), None);
}

#[test]
fn surface_acquire_policy() {
    assert_eq!(acquire_action(SurfaceEvent::Ready, false), AcquireAction::Render);
    assert_eq!(acquire_action(SurfaceEvent::Transient, false), AcquireAction::SkipFrame);
    assert_eq!(acquire_action(SurfaceEvent::Outdated, false), AcquireAction::Reconfigure);
    assert_eq!(acquire_action(SurfaceEvent::Outdated, true), AcquireAction::SkipFrame);
    assert_eq!(acquire_action(SurfaceEvent::Lost, false), AcquireAction::Fail);
    assert_eq!(acquire_action(SurfaceEvent::Lost, true), AcquireAction::Fail);
}
