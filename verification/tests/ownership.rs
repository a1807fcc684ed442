use rsgss::bitmap::Bitmap;
use rsgss::scene::Scene;
use rsgss::sprite::Sprite;
use rsgss::viewport::Viewport;

#[test]
fn lazy_pruning_reclaims_dead_entries() {
    let mut scene = Scene::new();
    let v = Viewport::new(&mut scene, 0, 0, 640, 480);
    let s1 = Sprite::new(&mut scene, Some(v));
    let s2 = Sprite::new(&mut scene, Some(v));
    let s3 = Sprite::new(&mut scene, Some(v));
    assert_eq!(scene.viewports[v].value.as_ref().unwrap().entries.len(), 3);

    Sprite::release(&mut scene, s1);
    Sprite::release(&mut scene, s2);
    Sprite::release(&mut scene, s3);
    // destruction alone removes nothing; entries linger until a traversal
    assert_eq!(scene.viewports[v].value.as_ref().unwrap().entries.len(), 3);

    let pass = Viewport::update(&mut scene, v).unwrap();
    assert_eq!(pass.draws.len(), 0);
    assert_eq!(scene.viewports[v].value.as_ref().unwrap().entries.len(), 0);
}

#[test]
fn viewport_outlives_external_owner() {
    let mut scene = Scene::new();
    let v = Viewport::new(&mut scene, 0, 0, 320, 240);
    let s = Sprite::new(&mut scene, Some(v));

    // dropping the external owner must not destroy the viewport while the
    // sprite still strong-references it
    Viewport::release(&mut scene, v);
    assert!(scene.viewport_is_alive(v));

    // only after the sprite goes too is the viewport destroyed
    Sprite::release(&mut scene, s);
    assert!(!scene.viewport_is_alive(v));
    assert!(!scene.sprite_is_alive(s));
}

#[test]
fn sprite_handles_are_counted() {
    let mut scene = Scene::new();
    let s = Sprite::new(&mut scene, None);
    Sprite::retain(&mut scene, s);
    Sprite::release(&mut scene, s);
    assert!(scene.sprite_is_alive(s));
    Sprite::release(&mut scene, s);
    assert!(!scene.sprite_is_alive(s));
}

#[test]
fn shared_bitmap_outlives_each_sprite() {
    let mut scene = Scene::new();
    let v = Viewport::new(&mut scene, 0, 0, 100, 100);
    let s1 = Sprite::new(&mut scene, Some(v));
    let s2 = Sprite::new(&mut scene, Some(v));
    let b = Bitmap::new(&mut scene, 2, 2);
    Sprite::set_bitmap(&mut scene, s1, Some(b));
    Sprite::set_bitmap(&mut scene, s2, Some(b));

    // both sprites render successfully from the one shared bitmap
    let pass = Viewport::update(&mut scene, v).unwrap();
    assert_eq!(pass.draws.len(), 2);
    assert!(pass.draws.iter().all(|d| d.bitmap == b));

    // the creator lets go; the two sprites keep the bitmap alive
    Bitmap::release(&mut scene, b);
    assert!(scene.bitmap_is_alive(b));

    // one sprite goes; the survivor still renders with the shared bitmap
    Sprite::release(&mut scene, s1);
    assert!(scene.bitmap_is_alive(b));
    let pass = Viewport::update(&mut scene, v).unwrap();
    assert_eq!(pass.draws.len(), 1);
    assert_eq!(pass.draws[0].sprite, s2);
    assert_eq!(pass.draws[0].bitmap, b);

    // the bitmap is released only when the last holder goes
    Sprite::release(&mut scene, s2);
    assert!(!scene.bitmap_is_alive(b));
}

#[test]
fn set_bitmap_releases_previous_bitmap() {
    let mut scene = Scene::new();
    let s = Sprite::new(&mut scene, None);
    let b1 = Bitmap::new(&mut scene, 1, 1);
    let b2 = Bitmap::new(&mut scene, 1, 1);
    Sprite::set_bitmap(&mut scene, s, Some(b1));
    Bitmap::release(&mut scene, b1);
    assert!(scene.bitmap_is_alive(b1));

    // swapping in the second bitmap drops the last reference to the first
    Sprite::set_bitmap(&mut scene, s, Some(b2));
    assert!(!scene.bitmap_is_alive(b1));
    assert!(scene.bitmap_is_alive(b2));
}

#[test]
fn reparenting_releases_old_viewport_reference() {
    let mut scene = Scene::new();
    let v1 = Viewport::new(&mut scene, 0, 0, 10, 10);
    let v2 = Viewport::new(&mut scene, 0, 0, 10, 10);
    let s = Sprite::new(&mut scene, Some(v1));

    // the sprite's reference is all that holds the first viewport
    Viewport::release(&mut scene, v1);
    assert!(scene.viewport_is_alive(v1));

    // re-parenting releases it, destroying the abandoned viewport
    Sprite::set_viewport(&mut scene, s, Some(v2));
    assert!(!scene.viewport_is_alive(v1));
    assert!(scene.viewport_is_alive(v2));
    Sprite::release(&mut scene, s);
    assert!(scene.viewport_is_alive(v2));
}

#[test]
fn detaching_from_viewport() {
    let mut scene = Scene::new();
    let v = Viewport::new(&mut scene, 0, 0, 10, 10);
    let s = Sprite::new(&mut scene, Some(v));
    Sprite::set_viewport(&mut scene, s, None);

    // the stale entry no longer renders and is pruned
    let pass = Viewport::update(&mut scene, v).unwrap();
    assert_eq!(pass.draws.len(), 0);
    assert_eq!(scene.viewports[v].value.as_ref().unwrap().entries.len(), 0);

    // the external owner is now all that keeps the viewport alive
    Viewport::release(&mut scene, v);
    assert!(!scene.viewport_is_alive(v));
    assert!(scene.sprite_is_alive(s));
}

#[test]
fn reregistering_with_same_viewport_duplicates_entry() {
    let mut scene = Scene::new();
    let v = Viewport::new(&mut scene, 0, 0, 10, 10);
    let s = Sprite::new(&mut scene, Some(v));
    Sprite::set_viewport(&mut scene, s, Some(v));
    assert_eq!(scene.viewports[v].value.as_ref().unwrap().entries.len(), 2);
    assert!(scene.viewport_is_alive(v));
}
