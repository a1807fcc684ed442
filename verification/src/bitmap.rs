use vstd::prelude::*;

use crate::codec::{decode_rgba, rgba_decoding};
use crate::result::Error;
use crate::scene::{
    lemma_refs_count_none, lemma_refs_count_zero, refs_bm, slot_counts, BitmapSlot, BitmapSlotV,
    Scene, SceneV,
};

verus! {

/// Decoded pixel data for one image: an RGBA8 buffer whose length always
/// matches the stated dimensions (four bytes per pixel). The GPU texture a
/// bitmap backs is created from these same dimensions and is never resized,
/// so buffer and texture stay in step.
#[derive(Debug)]
pub struct Bitmap {
    /// Width in pixels.
    pub width: u32,
    /// Height in pixels.
    pub height: u32,
    /// RGBA8 pixel buffer, row-major, four bytes per pixel.
    pub pixels: Vec<u8>,
}

/// The mathematical value of a [`Bitmap`].
#[verifier::ext_equal]
pub ghost struct BitmapV {
    /// Width in pixels.
    pub width: u32,
    /// Height in pixels.
    pub height: u32,
    /// RGBA8 pixel buffer.
    pub pixels: Seq<u8>,
}

impl View for Bitmap {
    type V = BitmapV;

    open spec fn view(&self) -> BitmapV {
        BitmapV { width: self.width, height: self.height, pixels: self.pixels@ }
    }
}

impl SceneV {
    /// The scene after creating a fresh bitmap: a new slot with one
    /// external handle holding the given pixel buffer.
    pub open spec fn bitmap_create_t(self, width: u32, height: u32, pixels: Seq<u8>) -> SceneV {
        SceneV {
            bitmaps: self.bitmaps.push(
                BitmapSlotV { ext: 1, refs: 0, value: Some(BitmapV { width, height, pixels }) },
            ),
            ..self
        }
    }

    /// The scene after taking one more external strong handle on bitmap
    /// `b`.
    pub open spec fn bitmap_retain_t(self, b: usize) -> SceneV {
        let slot = self.bitmaps[b as int];
        self.with_bitmap_slot(b as int, BitmapSlotV { ext: slot.ext + 1, ..slot })
    }

    /// The scene after dropping one external strong handle on bitmap `b`:
    /// the bitmap is destroyed exactly when no strong reference remains, so
    /// a bitmap shared by sprites outlives any single owner.
    pub open spec fn bitmap_release_t(self, b: usize) -> SceneV {
        let slot = self.bitmaps[b as int];
        let ext = (slot.ext - 1) as nat;
        let value = if ext + slot.refs > 0 {
            slot.value
        } else {
            None
        };
        self.with_bitmap_slot(b as int, BitmapSlotV { ext, refs: slot.refs, value })
    }
}

/// Creating a bitmap preserves well-formedness: the fresh slot has no
/// sprite references yet, and no existing slot changes.
pub proof fn lemma_bitmap_create_wf(s: SceneV, width: u32, height: u32, pixels: Seq<u8>)
    requires
        s.wf(),
        s.bitmaps.len() < usize::MAX,
        pixels.len() == 4 * width * height,
    ensures
        s.bitmap_create_t(width, height, pixels).wf(),
{
    let t = s.bitmap_create_t(width, height, pixels);
    let fresh = s.bitmaps.len() as usize;
    assert forall|i: int| 0 <= i < t.sprites.len() implies #[trigger] t.sprite_slot_inv(i) by {
        assert(s.sprite_slot_inv(i));
    }
    assert forall|v: int| 0 <= v < t.viewports.len() implies #[trigger] t.viewport_slot_inv(v) by {
        assert(s.viewport_slot_inv(v));
    }
    assert forall|b: int| 0 <= b < t.bitmaps.len() implies #[trigger] t.bitmap_slot_inv(b) by {
        if b < s.bitmaps.len() {
            assert(s.bitmap_slot_inv(b));
        } else {
            assert forall|i: int|
                0 <= i < s.sprites.len() implies slot_counts(
                #[trigger] s.sprites[i],
                refs_bm(fresh),
            ) == 0 by {
                assert(s.sprite_slot_inv(i));
            }
            lemma_refs_count_none(s.sprites, refs_bm(fresh));
        }
    }
}

/// Replacing a bitmap slot while keeping its sprite-reference count and
/// the present-iff-referenced balance preserves well-formedness.
pub proof fn lemma_bitmap_slot_edit_wf(s: SceneV, b: usize, slot: BitmapSlotV)
    requires
        s.wf(),
        b < s.bitmaps.len(),
        slot.refs == s.bitmaps[b as int].refs,
        slot.value is Some <==> slot.ext + slot.refs > 0,
        match slot.value {
            Some(bm) => bm.pixels.len() == 4 * bm.width * bm.height,
            None => true,
        },
        slot.value is None ==> s.bitmaps[b as int].refs == 0,
    ensures
        s.with_bitmap_slot(b as int, slot).wf(),
{
    let t = s.with_bitmap_slot(b as int, slot);
    assert(s.bitmap_slot_inv(b as int));
    if slot.value is None {
        lemma_refs_count_zero(s.sprites, refs_bm(b));
    }
    assert forall|i: int| 0 <= i < t.sprites.len() implies #[trigger] t.sprite_slot_inv(i) by {
        assert(s.sprite_slot_inv(i));
        match t.sprites[i].value {
            Some(sp) => {
                if sp.bitmap == Some(b) && slot.value is None {
                    assert(slot_counts(s.sprites[i], refs_bm(b)) == 1);
                }
            },
            None => {},
        }
    }
    assert forall|v: int| 0 <= v < t.viewports.len() implies #[trigger] t.viewport_slot_inv(v) by {
        assert(s.viewport_slot_inv(v));
    }
    assert forall|w: int| 0 <= w < t.bitmaps.len() implies #[trigger] t.bitmap_slot_inv(w) by {
        assert(s.bitmap_slot_inv(w));
    }
}

impl Bitmap {
    /// Create a blank RGBA bitmap of the given dimensions, backed by a
    /// zero-initialized pixel buffer, with one external strong handle (the
    /// returned one). Returns the new bitmap's slot index. The GPU texture
    /// backing it is allocated from the same dimensions by the shell.
    pub fn new(scene: &mut Scene, width: u32, height: u32) -> (b: usize)
        requires
            old(scene)@.wf(),
            4 * (width as int) * (height as int) <= usize::MAX,
        ensures
            final(scene)@ == old(scene)@.bitmap_create_t(
                width,
                height,
                Seq::new((4 * width * height) as nat, |i: int| 0u8),
            ),
            final(scene)@.wf(),
            b == old(scene)@.bitmaps.len(),
            final(scene)@.bitmap_alive(b),
    {
        let b = scene.bitmaps.len();
        let count: usize = (4 * (width as u64) * (height as u64)) as usize;
        let mut pixels: Vec<u8> = Vec::new();
        let mut i: usize = 0;
        while i < count
            invariant
                i <= count,
                pixels@ =~= Seq::new(i as nat, |k: int| 0u8),
            decreases count - i,
        {
            pixels.push(0);
            i = i + 1;
        }
        let ghost zeroes = Seq::new((4 * width * height) as nat, |i: int| 0u8);
        proof {
            assert(pixels@ =~= zeroes);
        }
        scene.bitmaps.push(BitmapSlot { ext: 1, refs: 0, value: Some(Bitmap { width, height, pixels }) });
        proof {
            assert(scene.bitmaps@.len() == scene.bitmaps.len());
            let t = old(scene)@.bitmap_create_t(width, height, zeroes);
            assert(scene@.bitmaps =~~= t.bitmaps);
            assert(scene@ =~~= t);
            lemma_bitmap_create_wf(old(scene)@, width, height, zeroes);
        }
        b
    }

    /// Decode an image file's bytes into a fresh bitmap. Succeeds exactly
    /// when the bytes are a supported image container, sizing the bitmap to
    /// the decoded dimensions; otherwise returns [`Error::Decode`] and
    /// leaves the scene untouched.
    pub fn from_bytes(scene: &mut Scene, bytes: &[u8]) -> (r: Result<usize, Error>)
        requires
            old(scene)@.wf(),
        ensures
            final(scene)@.wf(),
            r is Ok <==> rgba_decoding(bytes@) is Some,
            r matches Ok(b) ==> {
                let d = rgba_decoding(bytes@)->Some_0;
                &&& b == old(scene)@.bitmaps.len()
                &&& final(scene)@ == old(scene)@.bitmap_create_t(d.0, d.1, d.2)
                &&& final(scene)@.bitmap_alive(b)
            },
            r matches Err(e) ==> e == Error::Decode && final(scene)@ == old(scene)@,
    {
        match decode_rgba(bytes) {
            Ok(bm) => {
                let b = scene.bitmaps.len();
                let ghost d = rgba_decoding(bytes@)->Some_0;
                scene.bitmaps.push(BitmapSlot { ext: 1, refs: 0, value: Some(bm) });
                proof {
                    assert(scene.bitmaps@.len() == scene.bitmaps.len());
                    let t = old(scene)@.bitmap_create_t(d.0, d.1, d.2);
                    assert(scene@.bitmaps =~~= t.bitmaps);
                    assert(scene@ =~~= t);
                    lemma_bitmap_create_wf(old(scene)@, d.0, d.1, d.2);
                }
                Ok(b)
            },
            Err(_) => Err(Error::Decode),
        }
    }

    /// Take one more external strong handle on bitmap `b`, as when a second
    /// owner shares the bitmap.
    pub fn retain(scene: &mut Scene, b: usize)
        requires
            old(scene)@.wf(),
            old(scene)@.bitmap_alive(b),
            old(scene)@.bitmaps[b as int].ext < u64::MAX,
        ensures
            final(scene)@ == old(scene)@.bitmap_retain_t(b),
            final(scene)@.wf(),
            final(scene)@.bitmap_alive(b),
    {
        let slot = &mut scene.bitmaps[b];
        slot.ext = slot.ext + 1;
        proof {
            assert(old(scene)@.bitmap_slot_inv(b as int));
            let t = old(scene)@.bitmap_retain_t(b);
            assert(scene@.bitmaps =~~= t.bitmaps);
            assert(scene@ =~~= t);
            lemma_bitmap_slot_edit_wf(old(scene)@, b, t.bitmaps[b as int]);
        }
    }

    /// Drop one external strong handle on bitmap `b`. The bitmap is
    /// destroyed exactly when this was the last strong reference: sprites
    /// sharing the bitmap keep it alive after its creator lets go.
    pub fn release(scene: &mut Scene, b: usize)
        requires
            old(scene)@.wf(),
            old(scene)@.bitmap_alive(b),
            old(scene)@.bitmaps[b as int].ext > 0,
        ensures
            final(scene)@ == old(scene)@.bitmap_release_t(b),
            final(scene)@.wf(),
            final(scene)@.bitmap_alive(b) <==> old(scene)@.bitmaps[b as int].ext - 1
                + old(scene)@.bitmaps[b as int].refs > 0,
    {
        let slot = &mut scene.bitmaps[b];
        slot.ext = slot.ext - 1;
        if slot.ext == 0 && slot.refs == 0 {
            slot.value = None;
        }
        proof {
            assert(old(scene)@.bitmap_slot_inv(b as int));
            let t = old(scene)@.bitmap_release_t(b);
            assert(scene@.bitmaps =~~= t.bitmaps);
            assert(scene@ =~~= t);
            lemma_bitmap_slot_edit_wf(old(scene)@, b, t.bitmaps[b as int]);
        }
    }
}

} // verus!
