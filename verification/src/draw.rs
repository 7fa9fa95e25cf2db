//! One pass over the animators: which of them draw now, and how long the next poll may wait.
//!
//! A pass asks the program around it for the time until a frame is due, tells it to draw, and
//! asks what became of an animation that has ended. Each answer leads to the next stage, until
//! the pass is done.

use vstd::prelude::*;
use crate::animator::{retain_busy, Animator, AnimatorView};
use crate::daemon::{Daemon, DaemonView};
use crate::format::PixelFormat;
use crate::time::{poll_timeout, Span, DRAW_THRESHOLD_NANOS};
use crate::wallpaper::{Wallpaper, WallpaperView};

verus! {

/// One of the two lists of animators.
#[derive(Clone, Copy, Debug, PartialEq, Eq, Structural)]
pub enum Lane {
    Transitions,
    Images,
}

/// What a pass waits for.
pub enum DrawStage {
    /// The time until the next frame of the animator at `index`. Where `due`, it decides whether
    /// the frame is drawn now; otherwise only when to poll again.
    AskTime { lane: Lane, index: usize, due: bool },
    /// A frame: sleep for `wait`, attach and commit the wallpapers of the animator at `index`,
    /// restart its clock and draw its next frame in this format. The answer is whether the
    /// animation has ended.
    Frame { lane: Lane, index: usize, wait: Option<Span>, pixel_format: PixelFormat },
    /// The transition `animator` has ended and was taken off its list at `index`. The answer is
    /// whether an animated image goes on from it.
    Promote { index: usize, animator: Animator },
    /// Nothing: the pass is over.
    Done,
}

/// An answer to a [`DrawStage`].
#[derive(Clone, Copy, Debug, PartialEq, Eq, Structural)]
pub enum DrawEvent {
    /// The time until the next frame.
    Time(Span),
    /// Whether the frame that was drawn ended the animation.
    Framed(bool),
    /// Whether an animated image goes on from the transition.
    Promoted(bool),
}

/// The mathematical counterpart of [`DrawStage`].
#[verifier::ext_equal]
pub enum DrawStageView {
    AskTime { lane: Lane, index: int, due: bool },
    Frame { lane: Lane, index: int, wait: Option<Span>, pixel_format: PixelFormat },
    Promote { index: int, animator: AnimatorView },
    Done,
}

impl View for DrawStage {
    type V = DrawStageView;

    open spec fn view(&self) -> DrawStageView {
        match *self {
            DrawStage::AskTime { lane, index, due } => DrawStageView::AskTime {
                lane,
                index: index as int,
                due,
            },
            DrawStage::Frame { lane, index, wait, pixel_format } => DrawStageView::Frame {
                lane,
                index: index as int,
                wait,
                pixel_format,
            },
            DrawStage::Promote { index, animator } => DrawStageView::Promote {
                index: index as int,
                animator: animator@,
            },
            DrawStage::Done => DrawStageView::Done,
        }
    }
}

/// The wallpaper `id` can take a new frame.
pub open spec fn ready(ws: Seq<WallpaperView>, id: u64) -> bool {
    exists|i: int| 0 <= i < ws.len() && (#[trigger] ws[i]).id == id && ws[i].draw_ready
}

/// All of the wallpapers `ids` can take a new frame.
pub open spec fn all_ready(ws: Seq<WallpaperView>, ids: Seq<u64>) -> bool {
    forall|p: int| 0 <= p < ids.len() ==> ready(ws, #[trigger] ids[p])
}

impl DrawStageView {
    /// Whether `event` answers what the stage waits for.
    pub open spec fn expects(self, event: DrawEvent) -> bool {
        match self {
            DrawStageView::AskTime { .. } => event matches DrawEvent::Time(t) && t.wf(),
            DrawStageView::Frame { .. } => event is Framed,
            DrawStageView::Promote { .. } => event is Promoted,
            DrawStageView::Done => false,
        }
    }
}

impl DaemonView {
    /// The animators of a lane.
    pub open spec fn lane(self, lane: Lane) -> Seq<AnimatorView> {
        match lane {
            Lane::Transitions => self.transition_animators,
            Lane::Images => self.image_animators,
        }
    }

    /// The daemon without the animated images that drive nothing.
    pub open spec fn prune_images(self) -> DaemonView {
        DaemonView {
            image_animators: self.image_animators.filter(crate::animator::busy()),
            ..self
        }
    }

    /// The daemon with the transition at position `i` taken off its list.
    pub open spec fn take_transition(self, i: int) -> DaemonView {
        DaemonView {
            transition_animators: crate::animator::swap_removed(self.transition_animators, i),
            ..self
        }
    }

    /// The daemon with `animator` as an animated image.
    pub open spec fn push_image(self, animator: AnimatorView) -> DaemonView {
        DaemonView { image_animators: self.image_animators.push(animator), ..self }
    }

    /// A pass that has come to position `index` of the animated images.
    pub open spec fn seek_image(self, index: int) -> (DaemonView, DrawStageView) {
        if index < self.image_animators.len() {
            let due = all_ready(self.wallpapers, self.image_animators[index].wallpapers);
            (self, DrawStageView::AskTime { lane: Lane::Images, index, due })
        } else {
            (self, DrawStageView::Done)
        }
    }

    /// A pass that has come to position `index` of a lane. After the transitions come the
    /// animated images, without those that drive nothing.
    pub open spec fn seek(self, lane: Lane, index: int) -> (DaemonView, DrawStageView) {
        match lane {
            Lane::Transitions => if index < self.transition_animators.len() {
                let due = all_ready(self.wallpapers, self.transition_animators[index].wallpapers);
                (self, DrawStageView::AskTime { lane, index, due })
            } else {
                self.prune_images().seek_image(0)
            },
            Lane::Images => self.seek_image(index),
        }
    }

    /// The start of a pass: no poll time is set, and the first animator is looked at.
    pub open spec fn draw(self) -> (DaemonView, DrawStageView) {
        DaemonView { poll_time: None, ..self }.seek(Lane::Transitions, 0)
    }

    /// What the answer `event` leads to.
    pub open spec fn draw_step(
        self,
        stage: DrawStageView,
        event: DrawEvent,
    ) -> (DaemonView, DrawStageView) {
        match (stage, event) {
            (DrawStageView::AskTime { lane, index, due }, DrawEvent::Time(t)) => if due
                && t.total_nanos() <= DRAW_THRESHOLD_NANOS {
                let wait = if t.total_nanos() == 0 {
                    None
                } else {
                    Some(t)
                };
                let pixel_format = self.pixel_format;
                (self, DrawStageView::Frame { lane, index, wait, pixel_format })
            } else {
                self.set_poll_time(crate::time::spec_poll_timeout(t)).seek(lane, index + 1)
            },
            (
                DrawStageView::Frame { lane, index, .. },
                DrawEvent::Framed(ended),
            ) => if lane is Transitions && ended {
                (
                    self.take_transition(index),
                    DrawStageView::Promote { index, animator: self.transition_animators[index] },
                )
            } else {
                (self, DrawStageView::AskTime { lane, index, due: false })
            },
            (
                DrawStageView::Promote { index, animator },
                DrawEvent::Promoted(goes_on),
            ) => if goes_on {
                self.push_image(animator).seek(Lane::Transitions, index)
            } else {
                self.seek(Lane::Transitions, index)
            },
            _ => (self, stage),
        }
    }

    /// The stage of a pass fits the daemon: it names an animator that is there. One that has
    /// been taken off its list still shares no wallpaper with any other.
    pub open spec fn pass_wf(self, stage: DrawStageView) -> bool {
        match stage {
            DrawStageView::AskTime { lane, index, .. } => 0 <= index < self.lane(lane).len(),
            DrawStageView::Frame { lane, index, .. } => 0 <= index < self.lane(lane).len(),
            DrawStageView::Promote { index, animator } => {
                &&& 0 <= index <= self.transition_animators.len()
                &&& self.push_image(animator).wf()
            },
            DrawStageView::Done => true,
        }
    }
}

/// What is driven and borne is what the two lists drive and bear.
proof fn lemma_same_animators(v: DaemonView, u: DaemonView)
    requires
        v.wf(),
        u.wallpapers == v.wallpapers,
        u.next_id == v.next_id,
        u.callback == v.callback,
        u.output_globals == v.output_globals,
        forall|id: u64| (#[trigger] u.driven(id)) <= v.driven(id),
        forall|id: u64| (#[trigger] u.animators_named(id)) <= v.animators_named(id),
    ensures
        u.wf(),
{
    assert forall|id: u64| (#[trigger] u.driven(id)) > 0 implies crate::daemon::known(
        u.wallpapers,
        id,
    ) by {
        assert(v.driven(id) > 0);
    }
    assert forall|id: u64| (#[trigger] u.animators_named(id)) > 0 implies id < u.next_id by {
        assert(v.animators_named(id) > 0);
    }
}

/// Coming to the next animator keeps what holds of the daemon.
proof fn lemma_seek_wf(v: DaemonView, lane: Lane, index: int)
    requires
        v.wf(),
        0 <= index,
    ensures
        v.seek(lane, index).0.wf(),
        v.seek(lane, index).0.pass_wf(v.seek(lane, index).1),
{
    let u = v.prune_images();
    assert forall|id: u64| (#[trigger] u.driven(id)) <= v.driven(id) by {
        crate::animator::lemma_holders_busy(v.image_animators, id);
    }
    assert forall|id: u64| (#[trigger] u.animators_named(id)) <= v.animators_named(id) by {
        crate::animator::lemma_holders_busy(v.image_animators, id);
    }
    lemma_same_animators(v, u);
}

/// Taking a transition off its list keeps what holds of the daemon, and so does putting it among
/// the animated images.
proof fn lemma_take_transition_wf(v: DaemonView, i: int)
    requires
        v.wf(),
        0 <= i < v.transition_animators.len(),
    ensures
        v.take_transition(i).wf(),
        v.take_transition(i).push_image(v.transition_animators[i]).wf(),
{
    let a = v.transition_animators[i];
    let u = v.take_transition(i);
    let p = u.push_image(a);
    assert forall|id: u64| (#[trigger] u.driven(id)) <= v.driven(id) by {
        crate::animator::lemma_holders_swap_removed(v.transition_animators, i, id);
    }
    assert forall|id: u64| (#[trigger] u.animators_named(id)) <= v.animators_named(id) by {
        crate::animator::lemma_holders_swap_removed(v.transition_animators, i, id);
    }
    lemma_same_animators(v, u);
    assert forall|id: u64| (#[trigger] p.driven(id)) <= v.driven(id) by {
        crate::animator::lemma_holders_swap_removed(v.transition_animators, i, id);
        crate::animator::lemma_holders_push(v.image_animators, a, id);
    }
    assert forall|id: u64| (#[trigger] p.animators_named(id)) <= v.animators_named(id) by {
        crate::animator::lemma_holders_swap_removed(v.transition_animators, i, id);
        crate::animator::lemma_holders_push(v.image_animators, a, id);
    }
    lemma_same_animators(v, p);
}

/// Every step of a pass keeps what holds of the daemon and of the pass.
pub proof fn lemma_draw_step_wf(v: DaemonView, stage: DrawStageView, event: DrawEvent)
    requires
        v.wf(),
        v.pass_wf(stage),
        stage.expects(event),
    ensures
        v.draw_step(stage, event).0.wf(),
        v.draw_step(stage, event).0.pass_wf(v.draw_step(stage, event).1),
{
    match (stage, event) {
        (DrawStageView::AskTime { lane, index, due }, DrawEvent::Time(t)) => {
            let time = crate::time::spec_poll_timeout(t);
            crate::daemon::lemma_rest_wf(v, v.set_poll_time(time));
            lemma_seek_wf(v.set_poll_time(time), lane, index + 1);
        },
        (DrawStageView::Frame { lane, index, .. }, DrawEvent::Framed(ended)) => {
            if lane is Transitions && ended {
                lemma_take_transition_wf(v, index);
            }
        },
        (DrawStageView::Promote { index, animator }, DrawEvent::Promoted(goes_on)) => {
            if goes_on {
                lemma_seek_wf(v.push_image(animator), Lane::Transitions, index);
            } else {
                lemma_seek_wf(v, Lane::Transitions, index);
            }
        },
        _ => {},
    }
}

/// Whether the wallpaper `id` can take a new frame.
fn is_ready(wallpapers: &Vec<Wallpaper>, id: u64) -> (r: bool)
    ensures
        r == ready(crate::wallpaper::wallpapers_view(wallpapers@), id),
{
    let ghost ws = crate::wallpaper::wallpapers_view(wallpapers@);
    let mut i: usize = 0;
    while i < wallpapers.len()
        invariant
            i <= wallpapers.len(),
            ws == crate::wallpaper::wallpapers_view(wallpapers@),
            forall|j: int| 0 <= j < i ==> !((#[trigger] ws[j]).id == id && ws[j].draw_ready),
        decreases wallpapers.len() - i,
    {
        if wallpapers[i].id == id && wallpapers[i].draw_ready {
            assert(ws[i as int].id == id && ws[i as int].draw_ready);
            return true;
        }
        i += 1;
    }
    false
}

/// Whether all of the wallpapers `ids` can take a new frame.
fn are_ready(wallpapers: &Vec<Wallpaper>, ids: &Vec<u64>) -> (r: bool)
    ensures
        r == all_ready(crate::wallpaper::wallpapers_view(wallpapers@), ids@),
{
    let ghost ws = crate::wallpaper::wallpapers_view(wallpapers@);
    let mut p: usize = 0;
    while p < ids.len()
        invariant
            p <= ids.len(),
            ws == crate::wallpaper::wallpapers_view(wallpapers@),
            forall|q: int| 0 <= q < p ==> ready(ws, #[trigger] ids@[q]),
        decreases ids.len() - p,
    {
        if !is_ready(wallpapers, ids[p]) {
            assert(!ready(ws, ids@[p as int]));
            return false;
        }
        p += 1;
    }
    true
}

impl Daemon {
    /// Starts a pass and returns what it waits for first.
    pub fn draw(&mut self) -> (stage: DrawStage)
        requires
            old(self).wf(),
        ensures
            (final(self)@, stage@) == old(self)@.draw(),
            final(self).wf(),
            final(self)@.pass_wf(stage@),
    {
        self.poll_time = None;
        proof {
            crate::daemon::lemma_rest_wf(old(self)@, self@);
        }
        self.seek(Lane::Transitions, 0)
    }

    /// Takes the answer to what the pass waits for and returns what it waits for next.
    pub fn draw_step(&mut self, stage: DrawStage, event: DrawEvent) -> (next: DrawStage)
        requires
            old(self).wf(),
            old(self)@.pass_wf(stage@),
            stage@.expects(event),
        ensures
            (final(self)@, next@) == old(self)@.draw_step(stage@, event),
            final(self).wf(),
            final(self)@.pass_wf(next@),
    {
        proof {
            lemma_draw_step_wf(self@, stage@, event);
        }
        match stage {
            DrawStage::AskTime { lane, index, due } => {
                assert(index < self.transition_animators.len() || index
                    < self.image_animators.len());
                let t: Span = match event {
                    DrawEvent::Time(t) => t,
                    _ => Span { secs: 0, nanos: 0 },
                };
                if due && !t.longer_than_nanos(DRAW_THRESHOLD_NANOS) {
                    let wait = if t.is_zero() {
                        None
                    } else {
                        Some(t)
                    };
                    DrawStage::Frame { lane, index, wait, pixel_format: self.pixel_format }
                } else {
                    self.set_poll_time(poll_timeout(&t));
                    self.seek(lane, index + 1)
                }
            },
            DrawStage::Frame { lane, index, .. } => {
                let ended: bool = match event {
                    DrawEvent::Framed(ended) => ended,
                    _ => false,
                };
                if lane == Lane::Transitions && ended {
                    let animator = self.transition_animators.swap_remove(index);
                    proof {
                        assert(self@.transition_animators =~= old(self)@.take_transition(
                            index as int,
                        ).transition_animators);
                        assert(self@ =~= old(self)@.take_transition(index as int));
                    }
                    DrawStage::Promote { index, animator }
                } else {
                    DrawStage::AskTime { lane, index, due: false }
                }
            },
            DrawStage::Promote { index, animator } => {
                let goes_on: bool = match event {
                    DrawEvent::Promoted(goes_on) => goes_on,
                    _ => false,
                };
                if goes_on {
                    let ghost view = animator@;
                    self.image_animators.push(animator);
                    proof {
                        assert(self@.image_animators =~= old(self)@.push_image(
                            view,
                        ).image_animators);
                        assert(self@ =~= old(self)@.push_image(view));
                    }
                }
                self.seek(Lane::Transitions, index)
            },
            DrawStage::Done => DrawStage::Done,
        }
    }

    /// Comes to position `index` of a lane.
    fn seek(&mut self, lane: Lane, index: usize) -> (stage: DrawStage)
        requires
            old(self).wf(),
        ensures
            (final(self)@, stage@) == old(self)@.seek(lane, index as int),
            final(self).wf(),
            final(self)@.pass_wf(stage@),
    {
        proof {
            lemma_seek_wf(self@, lane, index as int);
        }
        let mut index: usize = index;
        if lane == Lane::Transitions {
            if index < self.transition_animators.len() {
                let due = are_ready(
                    &self.wallpapers,
                    &self.transition_animators[index].wallpapers,
                );
                return DrawStage::AskTime { lane, index, due };
            }
            self.image_animators = retain_busy(&self.image_animators);
            proof {
                assert(self@ =~= old(self)@.prune_images());
            }
            index = 0;
        }
        if index < self.image_animators.len() {
            let due = are_ready(&self.wallpapers, &self.image_animators[index].wallpapers);
            DrawStage::AskTime { lane: Lane::Images, index, due }
        } else {
            DrawStage::Done
        }
    }
}

} // verus!
