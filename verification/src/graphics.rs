use vstd::prelude::*;

use crate::render::{RenderPass, RenderPassV};
use crate::scene::{Scene, SceneV};
use crate::viewport::Viewport;

verus! {

/// The render driver: an ordered collection of weak references to
/// viewports, traversed top-down once per frame, plus the live-mutable
/// target frame rate. The GPU device, surface and queue live in the
/// unverified shell; the driver computes what each frame does, and the
/// shell executes it.
pub struct Graphics {
    /// Weak viewport references, in registration order; dead ones are
    /// pruned at the start of each frame.
    pub viewports: Vec<usize>,
    /// Target frames per second; scriptable, read once per frame at the
    /// start of `update`.
    pub frame_rate: u8,
}

/// Everything one frame asks of the shell: sleep for the remainder of the
/// frame budget, then record and submit the passes in order and present.
pub struct FrameOutput {
    /// How long to sleep before rendering, in milliseconds; never negative,
    /// clamped to zero when the previous frame overran its budget.
    pub sleep_ms: u64,
    /// One render pass per live, visible viewport, in registration order.
    pub passes: Vec<RenderPass>,
}

/// What acquiring the next presentable surface texture reported, as the
/// driver classifies it: ready to render, transiently unavailable (a
/// timeout, an occluded window), outdated configuration (the window was
/// resized), or lost for good.
#[derive(Clone, Copy, Debug, PartialEq, Eq, Structural)]
pub enum SurfaceEvent {
    /// A presentable texture was acquired.
    Ready,
    /// Nothing to present right now; try again next frame.
    Transient,
    /// The surface no longer matches its configuration.
    Outdated,
    /// The surface is permanently gone.
    Lost,
}

/// What the driver does about a surface acquisition outcome.
#[derive(Clone, Copy, Debug, PartialEq, Eq, Structural)]
pub enum AcquireAction {
    /// Render the frame.
    Render,
    /// Skip this frame silently and continue the loop.
    SkipFrame,
    /// Reconfigure the surface and retry the acquire once.
    Reconfigure,
    /// Unrecoverable; leave the render loop.
    Fail,
}

/// The acquisition policy: an outdated surface is reconfigured and the
/// acquire retried, once; transient conditions skip the frame silently; a
/// lost surface is fatal and unwinds to the loop boundary.
pub open spec fn acquire_action_spec(event: SurfaceEvent, retried: bool) -> AcquireAction {
    match event {
        SurfaceEvent::Ready => AcquireAction::Render,
        SurfaceEvent::Transient => AcquireAction::SkipFrame,
        SurfaceEvent::Outdated => if retried {
            AcquireAction::SkipFrame
        } else {
            AcquireAction::Reconfigure
        },
        SurfaceEvent::Lost => AcquireAction::Fail,
    }
}

/// Decide what to do about one surface acquisition outcome; `retried` says
/// whether this frame already reconfigured and retried once.
pub fn acquire_action(event: SurfaceEvent, retried: bool) -> (a: AcquireAction)
    ensures
        a == acquire_action_spec(event, retried),
{
    match event {
        SurfaceEvent::Ready => AcquireAction::Render,
        SurfaceEvent::Transient => AcquireAction::SkipFrame,
        SurfaceEvent::Outdated => if retried {
            AcquireAction::SkipFrame
        } else {
            AcquireAction::Reconfigure
        },
        SurfaceEvent::Lost => AcquireAction::Fail,
    }
}

/// The frame-pacing rule: the remainder of the frame budget
/// (`1000 / frame_rate` milliseconds) after subtracting the time the frame
/// took, clamped to zero — the driver never sleeps a negative duration.
pub open spec fn sleep_ms_spec(frame_rate: u8, elapsed_ms: u64) -> u64 {
    let budget = 1000int / (frame_rate as int);
    if budget > elapsed_ms {
        (budget - elapsed_ms) as u64
    } else {
        0
    }
}

/// The driver's viewport list after pruning: the entries that still
/// resolve, in registration order.
pub open spec fn live_viewports(s: SceneV, vps: Seq<usize>) -> Seq<usize>
    decreases vps.len(),
{
    if vps.len() == 0 {
        Seq::empty()
    } else {
        let rest = live_viewports(s, vps.drop_last());
        if s.viewport_alive(vps.last()) {
            rest.push(vps.last())
        } else {
            rest
        }
    }
}

/// The scene after traversing the given viewports in order.
pub open spec fn frame_scene_t(s: SceneV, vps: Seq<usize>) -> SceneV
    decreases vps.len(),
{
    if vps.len() == 0 {
        s
    } else {
        frame_scene_t(s, vps.drop_last()).traverse_t(vps.last())
    }
}

/// The render passes a frame emits, in viewport registration order; an
/// invisible viewport contributes none.
pub open spec fn frame_passes(s: SceneV, vps: Seq<usize>) -> Seq<RenderPassV>
    decreases vps.len(),
{
    if vps.len() == 0 {
        Seq::empty()
    } else {
        let before = frame_scene_t(s, vps.drop_last());
        let rest = frame_passes(s, vps.drop_last());
        match before.traverse_pass(vps.last()) {
            Some(p) => rest.push(p),
            None => rest,
        }
    }
}

/// Every entry of the pruned driver list is a live viewport.
pub proof fn lemma_live_viewports_alive(s: SceneV, vps: Seq<usize>)
    ensures
        forall|k: int|
            0 <= k < live_viewports(s, vps).len() ==> s.viewport_alive(
                #[trigger] live_viewports(s, vps)[k],
            ),
    decreases vps.len(),
{
    if vps.len() > 0 {
        lemma_live_viewports_alive(s, vps.drop_last());
        let rest = live_viewports(s, vps.drop_last());
        let res = live_viewports(s, vps);
        assert forall|k: int| 0 <= k < res.len() implies s.viewport_alive(
            #[trigger] res[k],
        ) by {
            if k < rest.len() {
                assert(res[k] == rest[k]);
            }
        }
    }
}

/// A traversal changes only its viewport's entries: lengths and liveness
/// of every slot are untouched.
pub proof fn lemma_traverse_preserves_alive(s: SceneV, v: usize)
    requires
        s.viewport_alive(v),
    ensures
        s.traverse_t(v).viewports.len() == s.viewports.len(),
        s.traverse_t(v).sprites == s.sprites,
        s.traverse_t(v).bitmaps == s.bitmaps,
        forall|w: usize| s.traverse_t(v).viewport_alive(w) == s.viewport_alive(w),
{
    let t = s.traverse_t(v);
    assert forall|w: usize| t.viewport_alive(w) == s.viewport_alive(w) by {
        if w < s.viewports.len() {
            assert(t.viewports[w as int].value is Some <==> s.viewports[w as int].value
                is Some);
        }
    }
}

impl Graphics {
    /// A fresh render driver: no viewports yet, and the default target of
    /// forty frames per second.
    pub fn new() -> (g: Graphics)
        ensures
            g.viewports@ =~= Seq::<usize>::empty(),
            g.frame_rate == 40,
    {
        Graphics { viewports: Vec::new(), frame_rate: 40 }
    }

    /// Register a viewport for inclusion in future frames; the reference is
    /// weak, so registration does not keep the viewport alive.
    pub fn add_viewport(&mut self, v: usize)
        ensures
            final(self).viewports@ == old(self).viewports@.push(v),
            final(self).frame_rate == old(self).frame_rate,
    {
        self.viewports.push(v);
    }

    /// Create a viewport through the driver: a standalone creation followed
    /// by registration of a weak entry in the driver's collection.
    pub fn create_viewport(&mut self, scene: &mut Scene, x: i32, y: i32, width: u32, height: u32) -> (v:
        usize)
        requires
            old(scene)@.wf(),
        ensures
            final(scene)@ == old(scene)@.viewport_create_t(
                crate::rect::Rect { x, y, width, height },
            ),
            final(scene)@.wf(),
            v == old(scene)@.viewports.len(),
            final(scene)@.viewport_alive(v),
            final(self).viewports@ == old(self).viewports@.push(v),
            final(self).frame_rate == old(self).frame_rate,
    {
        let v = Viewport::new(scene, x, y, width, height);
        self.viewports.push(v);
        v
    }

    /// The window's default viewport: the first registered one, which
    /// `remove_viewport` never removes.
    pub fn get_window_viewport(&self) -> (r: Option<usize>)
        ensures
            r == if self.viewports@.len() > 0 {
                Some(self.viewports@[0])
            } else {
                None::<usize>
            },
    {
        if self.viewports.len() > 0 {
            Some(self.viewports[0])
        } else {
            None
        }
    }

    /// The registered viewport reference at `index`, if any.
    pub fn get_viewport(&self, index: usize) -> (r: Option<usize>)
        ensures
            r == if index < self.viewports@.len() {
                Some(self.viewports@[index as int])
            } else {
                None::<usize>
            },
    {
        if index < self.viewports.len() {
            Some(self.viewports[index])
        } else {
            None
        }
    }

    /// Drop the registration at `index`. The entry at index zero is the
    /// window viewport and is never removed.
    pub fn remove_viewport(&mut self, index: usize)
        requires
            index < old(self).viewports@.len(),
        ensures
            final(self).viewports@ == if index == 0 {
                old(self).viewports@
            } else {
                old(self).viewports@.remove(index as int)
            },
            final(self).frame_rate == old(self).frame_rate,
    {
        if index != 0 {
            self.viewports.remove(index);
        }
    }

    /// The current target frame rate.
    pub fn frame_rate(&self) -> (r: u8)
        ensures
            r == self.frame_rate,
    {
        self.frame_rate
    }

    /// Change the target frame rate; it takes effect at the next frame
    /// boundary, never retroactively.
    pub fn set_frame_rate(&mut self, frame_rate: u8)
        ensures
            final(self).frame_rate == frame_rate,
            final(self).viewports@ == old(self).viewports@,
    {
        self.frame_rate = frame_rate;
    }

    /// How long to sleep before the next frame: the remainder of the frame
    /// budget after the time the previous frame took, and never a negative
    /// duration — a frame that overran its budget sleeps zero.
    pub fn frame_sleep_ms(frame_rate: u8, elapsed_ms: u64) -> (r: u64)
        requires
            frame_rate > 0,
        ensures
            r == sleep_ms_spec(frame_rate, elapsed_ms),
            elapsed_ms >= 1000u64 / (frame_rate as u64) ==> r == 0,
            elapsed_ms < 1000u64 / (frame_rate as u64) ==> r == 1000u64 / (frame_rate as u64)
                - elapsed_ms,
    {
        let budget: u64 = 1000 / (frame_rate as u64);
        if budget > elapsed_ms {
            budget - elapsed_ms
        } else {
            0
        }
    }

    /// One frame.
    ///
    /// Reads the target frame rate once and computes the pacing sleep from
    /// the elapsed time the shell measured. Prunes viewports that no longer
    /// resolve from the registration list, then traverses the survivors in
    /// registration order, collecting one render pass per visible viewport
    /// for the shell to record against its shared command encoder, submit
    /// and present.
    pub fn update(&mut self, scene: &mut Scene, elapsed_ms: u64) -> (out: FrameOutput)
        requires
            old(scene)@.wf(),
            old(self).frame_rate > 0,
        ensures
            out.sleep_ms == sleep_ms_spec(old(self).frame_rate, elapsed_ms),
            final(self).frame_rate == old(self).frame_rate,
            final(self).viewports@ == live_viewports(old(scene)@, old(self).viewports@),
            final(scene)@ == frame_scene_t(old(scene)@, final(self).viewports@),
            final(scene)@.wf(),
            out.passes@.map_values(|p: RenderPass| p@) == frame_passes(
                old(scene)@,
                final(self).viewports@,
            ),
    {
        let sleep_ms = Self::frame_sleep_ms(self.frame_rate, elapsed_ms);

        // Prune registrations whose viewport has been destroyed.
        let mut live: Vec<usize> = Vec::new();
        let n = self.viewports.len();
        let mut k: usize = 0;
        while k < n
            invariant
                scene@ == old(scene)@,
                self.viewports@ == old(self).viewports@,
                n == self.viewports@.len(),
                k <= n,
                live@ =~= live_viewports(scene@, self.viewports@.take(k as int)),
            decreases n - k,
        {
            let v = self.viewports[k];
            let alive = v < scene.viewports.len() && scene.viewports[v].value.is_some();
            proof {
                assert(alive == scene@.viewport_alive(v));
                assert(self.viewports@.take(k as int + 1).drop_last() =~= self.viewports@.take(
                    k as int,
                ));
            }
            if alive {
                live.push(v);
            }
            k = k + 1;
        }
        proof {
            assert(self.viewports@.take(n as int) =~= self.viewports@);
        }
        self.viewports = live;
        let ghost vps = self.viewports@;
        proof {
            lemma_live_viewports_alive(old(scene)@, old(self).viewports@);
        }

        // Traverse each live viewport, in registration order, against the
        // shared frame.
        let mut passes: Vec<RenderPass> = Vec::new();
        let m = self.viewports.len();
        let mut k: usize = 0;
        while k < m
            invariant
                self.viewports@ == vps,
                self.frame_rate == old(self).frame_rate,
                m == vps.len(),
                k <= m,
                forall|j: int| 0 <= j < m ==> old(scene)@.viewport_alive(#[trigger] vps[j]),
                forall|j: int| 0 <= j < m ==> scene@.viewport_alive(#[trigger] vps[j]),
                scene@ == frame_scene_t(old(scene)@, vps.take(k as int)),
                scene@.wf(),
                passes@.map_values(|p: RenderPass| p@) =~= frame_passes(
                    old(scene)@,
                    vps.take(k as int),
                ),
            decreases m - k,
        {
            let v = self.viewports[k];
            let ghost before = scene@;
            let r = Viewport::update(scene, v);
            proof {
                assert(vps.take(k as int + 1).drop_last() =~= vps.take(k as int));
                assert(vps.take(k as int + 1).last() == v);
                assert(scene@ == frame_scene_t(old(scene)@, vps.take(k as int + 1)));
                assert forall|j: int| 0 <= j < m implies scene@.viewport_alive(
                    #[trigger] vps[j],
                ) by {
                    lemma_traverse_preserves_alive(before, v);
                }
            }
            match r {
                Some(p) => {
                    passes.push(p);
                },
                None => {},
            }
            proof {
                assert(passes@.map_values(|p: RenderPass| p@) =~= frame_passes(
                    old(scene)@,
                    vps.take(k as int + 1),
                ));
            }
            k = k + 1;
        }
        proof {
            assert(vps.take(m as int) =~= vps);
        }
        FrameOutput { sleep_ms, passes }
    }
}

} // verus!
