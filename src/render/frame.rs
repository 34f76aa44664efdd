use vstd::prelude::*;

verus! {

/// The next thing the presentation loop has to do.
#[derive(Debug, Clone, Copy, PartialEq, Eq, Structural)]
pub enum FrameAction {
    /// Rebuild the swapchain and its image views at the current surface size.
    RecreateSwapchain,
    /// Tell layer `i` that the swapchain was rebuilt, whether or not an
    /// earlier layer consumed that event.
    NotifyInvalidated(usize),
    /// Acquire the next swapchain image, waiting as long as it takes.
    AcquireImage,
    /// Let layer `i` append its drawing to the frame's GPU work.
    DrawLayer(usize),
    /// Present the image and wait until the GPU has finished the frame.
    Present,
    /// The frame is done.
    Finished,
}

#[derive(Debug, Clone, Copy, PartialEq, Eq, Structural)]
enum Phase {
    Idle,
    Recreating,
    Notifying(usize),
    Acquiring,
    Drawing(usize),
    Presenting,
}

/// The actions of one frame with `n` layers: when the swapchain is to be
/// rebuilt, the rebuild and one notification per layer come first; then the
/// image is acquired, every layer draws in stack order, and the image is
/// presented.
pub open spec fn frame_actions(recreate: bool, n: nat) -> Seq<FrameAction> {
    let prologue = if recreate {
        seq![FrameAction::RecreateSwapchain] + Seq::new(n, |i: int| FrameAction::NotifyInvalidated(i as usize))
    } else {
        Seq::empty()
    };
    prologue + seq![FrameAction::AcquireImage] + Seq::new(n, |i: int| FrameAction::DrawLayer(i as usize))
        + seq![FrameAction::Present]
}

/// Swapchain lifecycle of the presentation loop. A resize only marks the
/// swapchain stale; the rebuild happens at the start of the next frame, and a
/// suboptimal acquisition marks it stale for the frame after.
pub struct FrameLifecycle {
    need_recreation: bool,
    phase: Phase,
    layer_count: usize,
    recreating: Ghost<bool>,
    trace: Ghost<Seq<FrameAction>>,
}

impl FrameLifecycle {
    /// Whether the next frame rebuilds the swapchain.
    pub closed spec fn stale(&self) -> bool {
        self.need_recreation
    }

    /// Whether no frame is in progress.
    pub closed spec fn idle(&self) -> bool {
        self.phase == Phase::Idle
    }

    /// The layer count of the frame in progress.
    pub closed spec fn layers(&self) -> nat {
        self.layer_count as nat
    }

    /// Whether the frame in progress (or the last one) rebuilt the swapchain.
    pub closed spec fn recreates(&self) -> bool {
        self.recreating@
    }

    /// The actions handed out for the frame in progress, or for the last
    /// frame (finished or aborted) when idle.
    pub closed spec fn actions(&self) -> Seq<FrameAction> {
        self.trace@
    }

    #[verifier::type_invariant]
    spec fn consistent(&self) -> bool {
        let n = self.layer_count as nat;
        let full = frame_actions(self.recreating@, n);
        let pre: int = if self.recreating@ { n + 1int } else { 0int };
        match self.phase {
            Phase::Idle => self.trace@.len() <= full.len() && self.trace@ == full.subrange(
                0,
                self.trace@.len() as int,
            ),
            Phase::Recreating => self.recreating@ && self.trace@ == full.subrange(0, 1),
            Phase::Notifying(i) => self.recreating@ && i < n && self.trace@ == full.subrange(0, i + 2int),
            Phase::Acquiring => self.trace@ == full.subrange(0, pre + 1),
            Phase::Drawing(i) => i < n && self.trace@ == full.subrange(0, pre + i + 2int),
            Phase::Presenting => self.trace@ == full,
        }
    }

    /// A lifecycle whose swapchain was just created.
    pub fn new() -> (r: Self)
        ensures
            r.idle(),
            !r.stale(),
    {
        let ghost trace = frame_actions(false, 0);
        assert(trace.subrange(0, trace.len() as int) =~= trace);
        FrameLifecycle {
            need_recreation: false,
            phase: Phase::Idle,
            layer_count: 0,
            recreating: Ghost(false),
            trace: Ghost(trace),
        }
    }

    /// Marks the swapchain stale, e.g. after the window was resized.
    pub fn invalidate(&mut self)
        ensures
            final(self).stale(),
            final(self).idle() == old(self).idle(),
            final(self).actions() == old(self).actions(),
    {
        proof {
            use_type_invariant(&*self);
        }
        self.need_recreation = true;
    }

    /// Gives up the frame in progress after one of its actions failed. The
    /// swapchain is then in an unknown state, so the next frame rebuilds it.
    pub fn abort_frame(&mut self)
        ensures
            final(self).idle(),
            final(self).stale() == (old(self).stale() || !old(self).idle()),
            final(self).actions() == old(self).actions(),
            final(self).layers() == old(self).layers(),
            final(self).recreates() == old(self).recreates(),
    {
        proof {
            use_type_invariant(&*self);
        }
        let stale = self.need_recreation || self.phase != Phase::Idle;
        let ghost trace = self.trace@;
        let ghost full = frame_actions(self.recreating@, self.layer_count as nat);
        assert(full.subrange(0, full.len() as int) =~= full);
        *self = FrameLifecycle {
            need_recreation: stale,
            phase: Phase::Idle,
            layer_count: self.layer_count,
            recreating: self.recreating,
            trace: Ghost(trace),
        };
    }

    pub fn is_idle(&self) -> (r: bool)
        ensures
            r == self.idle(),
    {
        self.phase == Phase::Idle
    }

    pub fn needs_recreation(&self) -> (r: bool)
        ensures
            r == self.stale(),
    {
        self.need_recreation
    }

    /// Starts a frame over `layer_count` layers and returns its first action.
    pub fn begin_frame(&mut self, layer_count: usize) -> (r: FrameAction)
        requires
            old(self).idle(),
        ensures
            !final(self).idle(),
            !final(self).stale(),
            final(self).layers() == layer_count,
            final(self).recreates() == old(self).stale(),
            final(self).actions() == seq![r],
            r == if old(self).stale() {
                FrameAction::RecreateSwapchain
            } else {
                FrameAction::AcquireImage
            },
    {
        let recreate = self.need_recreation;
        let ghost full = frame_actions(recreate, layer_count as nat);
        let (phase, action) = if recreate {
            (Phase::Recreating, FrameAction::RecreateSwapchain)
        } else {
            (Phase::Acquiring, FrameAction::AcquireImage)
        };
        let ghost trace = seq![action];
        assert(trace =~= full.subrange(0, 1));
        *self = FrameLifecycle {
            need_recreation: false,
            phase,
            layer_count,
            recreating: Ghost(recreate),
            trace: Ghost(trace),
        };
        action
    }

    /// Reports that the last action was carried out and returns the next
    /// one. `suboptimal` is what the image acquisition reported; it is
    /// ignored after any other action.
    pub fn advance(&mut self, suboptimal: bool) -> (r: FrameAction)
        requires
            !old(self).idle(),
        ensures
            final(self).layers() == old(self).layers(),
            final(self).recreates() == old(self).recreates(),
            r != FrameAction::Finished ==> !final(self).idle(),
            r != FrameAction::Finished ==> final(self).actions() == old(self).actions().push(r),
            r == FrameAction::Finished ==> final(self).idle(),
            r == FrameAction::Finished ==> final(self).actions() == old(self).actions(),
            r == FrameAction::Finished ==> final(self).actions() == frame_actions(
                final(self).recreates(),
                final(self).layers(),
            ),
            old(self).actions().len() < frame_actions(old(self).recreates(), old(self).layers()).len()
                ==> r == frame_actions(old(self).recreates(), old(self).layers())[old(self).actions().len() as int],
            old(self).actions().len() >= frame_actions(old(self).recreates(), old(self).layers()).len()
                ==> r == FrameAction::Finished,
            final(self).stale() == (old(self).stale() || (old(self).actions().last()
                == FrameAction::AcquireImage && suboptimal)),
    {
        proof {
            use_type_invariant(&*self);
        }
        let n = self.layer_count;
        let ghost pre: int = if self.recreating@ { n + 1 } else { 0 };
        let ghost full = frame_actions(self.recreating@, n as nat);
        let ghost before = self.trace@;
        assert(full.len() == pre + n + 2);
        let (phase, action, stale) = match self.phase {
            Phase::Idle => (Phase::Idle, FrameAction::Finished, self.need_recreation),
            Phase::Recreating => {
                if n > 0 {
                    (Phase::Notifying(0), FrameAction::NotifyInvalidated(0), self.need_recreation)
                } else {
                    (Phase::Acquiring, FrameAction::AcquireImage, self.need_recreation)
                }
            },
            Phase::Notifying(i) => {
                if i + 1 < n {
                    (Phase::Notifying(i + 1), FrameAction::NotifyInvalidated(i + 1), self.need_recreation)
                } else {
                    (Phase::Acquiring, FrameAction::AcquireImage, self.need_recreation)
                }
            },
            Phase::Acquiring => {
                let stale = self.need_recreation || suboptimal;
                if n > 0 {
                    (Phase::Drawing(0), FrameAction::DrawLayer(0), stale)
                } else {
                    (Phase::Presenting, FrameAction::Present, stale)
                }
            },
            Phase::Drawing(i) => {
                if i + 1 < n {
                    (Phase::Drawing(i + 1), FrameAction::DrawLayer(i + 1), self.need_recreation)
                } else {
                    (Phase::Presenting, FrameAction::Present, self.need_recreation)
                }
            },
            Phase::Presenting => (Phase::Idle, FrameAction::Finished, self.need_recreation),
        };
        let ghost trace = if action == FrameAction::Finished {
            before
        } else {
            before.push(action)
        };
        assert(trace =~= full.subrange(0, trace.len() as int));
        assert(full.subrange(0, full.len() as int) =~= full);
        *self = FrameLifecycle {
            need_recreation: stale,
            phase,
            layer_count: n,
            recreating: self.recreating,
            trace: Ghost(trace),
        };
        action
    }
}

/// A frame that starts with a stale swapchain rebuilds it first, then
/// notifies every layer exactly once, in stack order, before the image is
/// acquired and the layers draw.
pub proof fn lemma_stale_frame_notifies_each_layer_once(n: nat)
    requires
        n < usize::MAX,
    ensures
        frame_actions(true, n).len() == 2 * n + 3,
        frame_actions(true, n)[0] == FrameAction::RecreateSwapchain,
        frame_actions(true, n)[n + 1int] == FrameAction::AcquireImage,
        forall|i: int| 0 <= i < n ==> #[trigger] frame_actions(true, n)[1 + i] == FrameAction::NotifyInvalidated(i as usize),
        forall|p: int|
            0 <= p < frame_actions(true, n).len() && (#[trigger] frame_actions(true, n)[p] is NotifyInvalidated)
                ==> p == 1 + frame_actions(true, n)[p]->NotifyInvalidated_0,
        forall|p: int|
            0 <= p < frame_actions(true, n).len() && #[trigger] frame_actions(true, n)[p]
                == FrameAction::RecreateSwapchain ==> p == 0,
{
    let a = frame_actions(true, n);
    assert forall|p: int| 0 <= p < a.len() && (#[trigger] a[p] is NotifyInvalidated) implies p == 1
        + a[p]->NotifyInvalidated_0 by {
        if p >= n + 1 {
            if p == n + 1 {
            } else if p < 2 * n + 2 {
                assert(a[p] == FrameAction::DrawLayer((p - n - 2) as usize));
            }
        }
    }
    assert forall|p: int| 0 <= p < a.len() && #[trigger] a[p] == FrameAction::RecreateSwapchain implies p == 0 by {
        if 0 < p <= n {
            assert(a[p] == FrameAction::NotifyInvalidated((p - 1) as usize));
        } else if n + 1 < p < 2 * n + 2 {
            assert(a[p] == FrameAction::DrawLayer((p - n - 2) as usize));
        }
    }
}

/// A frame that starts with a fresh swapchain neither rebuilds it nor
/// notifies any layer: it acquires, lets every layer draw and presents.
pub proof fn lemma_fresh_frame_does_not_notify(n: nat)
    requires
        n < usize::MAX,
    ensures
        frame_actions(false, n).len() == n + 2,
        frame_actions(false, n)[0] == FrameAction::AcquireImage,
        forall|p: int|
            0 <= p < frame_actions(false, n).len() ==> !(#[trigger] frame_actions(false, n)[p] is NotifyInvalidated)
                && frame_actions(false, n)[p] != FrameAction::RecreateSwapchain,
{
    let a = frame_actions(false, n);
    assert forall|p: int| 0 <= p < a.len() implies !(#[trigger] a[p] is NotifyInvalidated) && a[p]
        != FrameAction::RecreateSwapchain by {
        if 0 < p <= n {
            assert(a[p] == FrameAction::DrawLayer((p - 1) as usize));
        }
    }
}

} // verus!
