//! What holds of a whole pass over the animators, whatever the answers were.

use vstd::prelude::*;
use crate::animator::AnimatorView;
use crate::daemon::DaemonView;
use crate::draw::{DrawEvent, DrawStage, DrawStageView, Lane};
use crate::format::PixelFormat;
use crate::objects::WaylandObject;
use crate::time::{Span, Timespec, DRAW_THRESHOLD_NANOS};
use crate::wallpaper::WallpaperView;

verus! {

/// One answer to a pass, and what is known of the wallpapers and the objects when it is given.
/// Between two answers wallpapers become ready for a frame, or cease to be, and a frame that is
/// drawn registers objects.
pub struct PassAnswer {
    pub wallpapers: Seq<WallpaperView>,
    pub objects: Seq<Option<WaylandObject>>,
    pub event: DrawEvent,
}

/// A pass under way: the daemon, and what the pass waits for.
pub struct Pass {
    pub daemon: DaemonView,
    pub stage: DrawStageView,
    /// The timeouts it has set so far.
    pub timeouts: Seq<Timespec>,
    /// For each animator, by its id, the time until its next frame that was last read.
    pub read: Map<u64, Span>,
    /// The transitions that have ended.
    pub ended: Seq<AnimatorView>,
    /// Those of them from which an animated image goes on.
    pub promoted: Seq<AnimatorView>,
    /// The transitions it has come to, one after the other.
    pub seen_transitions: Seq<AnimatorView>,
    /// The animated images it has come to, one after the other.
    pub seen_images: Seq<AnimatorView>,
}

impl Pass {
    /// The start of a pass.
    pub open spec fn start(v: DaemonView) -> Pass {
        Pass {
            daemon: v.draw().0,
            stage: v.draw().1,
            timeouts: Seq::empty(),
            read: Map::empty(),
            ended: Seq::empty(),
            promoted: Seq::empty(),
            seen_transitions: Pass::came_to(v.draw().0, v.draw().1, Lane::Transitions),
            seen_images: Pass::came_to(v.draw().0, v.draw().1, Lane::Images),
        }
    }

    /// The daemon when an answer is given.
    pub open spec fn observed(self, answer: PassAnswer) -> DaemonView {
        DaemonView { wallpapers: answer.wallpapers, objects: answer.objects, ..self.daemon }
    }

    /// The animator of a lane that the pass has just come to, if it is at one.
    pub open spec fn came_to(
        daemon: DaemonView,
        stage: DrawStageView,
        lane: Lane,
    ) -> Seq<AnimatorView> {
        match stage {
            DrawStageView::AskTime { lane: l, index, .. } => if l == lane {
                seq![daemon.lane(l)[index]]
            } else {
                Seq::empty()
            },
            _ => Seq::empty(),
        }
    }

    /// The timeout that an answer sets, if it sets one.
    pub open spec fn timeout_set(self, event: DrawEvent) -> Option<Timespec> {
        match (self.stage, event) {
            (DrawStageView::AskTime { due, .. }, DrawEvent::Time(t)) => if due && t.total_nanos()
                <= DRAW_THRESHOLD_NANOS {
                None
            } else {
                Some(crate::time::spec_poll_timeout(t))
            },
            _ => None,
        }
    }

    /// The pass after one more answer.
    pub open spec fn step(self, answer: PassAnswer) -> Pass {
        let observed = self.observed(answer);
        let (daemon, stage) = observed.draw_step(self.stage, answer.event);
        Pass {
            daemon,
            stage,
            timeouts: match self.timeout_set(answer.event) {
                Some(t) => self.timeouts.push(t),
                None => self.timeouts,
            },
            read: match (self.stage, answer.event) {
                (DrawStageView::AskTime { lane, index, .. }, DrawEvent::Time(t)) => self.read.insert(
                    self.daemon.lane(lane)[index].id,
                    t,
                ),
                _ => self.read,
            },
            ended: match (self.stage, answer.event) {
                (
                    DrawStageView::Frame { lane, index, .. },
                    DrawEvent::Framed(ended),
                ) => if lane is Transitions && ended {
                    self.ended.push(self.daemon.transition_animators[index])
                } else {
                    self.ended
                },
                _ => self.ended,
            },
            promoted: match (self.stage, answer.event) {
                (
                    DrawStageView::Promote { animator, .. },
                    DrawEvent::Promoted(goes_on),
                ) => if goes_on {
                    self.promoted.push(animator)
                } else {
                    self.promoted
                },
                _ => self.promoted,
            },
            // after a frame the pass is still at the same animator
            seen_transitions: if self.stage is Frame {
                self.seen_transitions
            } else {
                self.seen_transitions + Pass::came_to(daemon, stage, Lane::Transitions)
            },
            seen_images: if self.stage is Frame {
                self.seen_images
            } else {
                self.seen_images + Pass::came_to(daemon, stage, Lane::Images)
            },
        }
    }

    /// The pass after a series of answers.
    pub open spec fn run(v: DaemonView, answers: Seq<PassAnswer>) -> Pass
        decreases answers.len(),
    {
        if answers.len() == 0 {
            Pass::start(v)
        } else {
            Pass::run(v, answers.drop_last()).step(answers.last())
        }
    }

    /// Every answer is one to what the pass waited for.
    pub open spec fn fits(v: DaemonView, answers: Seq<PassAnswer>) -> bool
        decreases answers.len(),
    {
        answers.len() > 0 ==> {
            &&& Pass::fits(v, answers.drop_last())
            &&& Pass::run(v, answers.drop_last()).stage.expects(answers.last().event)
        }
    }

    /// The stage names an animator that is there.
    pub open spec fn in_bounds(self) -> bool {
        match self.stage {
            DrawStageView::AskTime { lane, index, .. } => 0 <= index < self.daemon.lane(lane).len(),
            DrawStageView::Frame { lane, index, .. } => 0 <= index < self.daemon.lane(lane).len(),
            DrawStageView::Promote { index, .. } => 0 <= index
                <= self.daemon.transition_animators.len(),
            DrawStageView::Done => true,
        }
    }

    /// How many animators the pass has seen and left on their lists.
    pub open spec fn left(self) -> int {
        match self.stage {
            DrawStageView::AskTime { lane, index, .. } => if lane is Transitions {
                index
            } else {
                self.daemon.transition_animators.len() + index
            },
            DrawStageView::Frame { lane, index, .. } => if lane is Transitions {
                index
            } else {
                self.daemon.transition_animators.len() + index
            },
            DrawStageView::Promote { index, .. } => index,
            DrawStageView::Done => (self.daemon.transition_animators.len()
                + self.daemon.image_animators.len()) as int,
        }
    }

    /// An upper bound on the answers the pass still needs.
    pub open spec fn work(self) -> int {
        let transitions = self.daemon.transition_animators.len();
        let images = self.daemon.image_animators.len();
        match self.stage {
            DrawStageView::AskTime { lane, index, due } => (if lane is Transitions {
                6 * (transitions - index) + 3 * images
            } else {
                3 * (images - index)
            }) - if due {
                0int
            } else {
                2int
            },
            DrawStageView::Frame { lane, index, .. } => (if lane is Transitions {
                6 * (transitions - index) + 3 * images
            } else {
                3 * (images - index)
            }) - 1,
            DrawStageView::Promote { index, .. } => 6 * (transitions - index) + 3 * images + 4,
            DrawStageView::Done => 0,
        }
    }
}

/// `poll_time` is the earliest of `timeouts`, and is not set where there are none.
pub open spec fn is_earliest(poll_time: Option<Timespec>, timeouts: Seq<Timespec>) -> bool {
    match poll_time {
        None => timeouts.len() == 0,
        Some(t) => timeouts.contains(t) && forall|i: int|
            0 <= i < timeouts.len() ==> !(#[trigger] timeouts[i]).before(t),
    }
}

/// Lowering the poll time keeps it the earliest.
pub proof fn law_poll_time_is_the_earliest(
    poll_time: Option<Timespec>,
    timeouts: Seq<Timespec>,
    new_time: Timespec,
)
    requires
        is_earliest(poll_time, timeouts),
    ensures
        is_earliest(
            Some(crate::time::earliest(poll_time, new_time)),
            timeouts.push(new_time),
        ),
{
    let all = timeouts.push(new_time);
    let t = crate::time::earliest(poll_time, new_time);
    assert(all[timeouts.len() as int] == new_time);
    if t != new_time {
        let k = choose|k: int| 0 <= k < timeouts.len() && timeouts[k] == t;
        assert(all[k] == t);
    }
    assert forall|i: int| 0 <= i < all.len() implies !(#[trigger] all[i]).before(t) by {
        if i < timeouts.len() {
            assert(all[i] == timeouts[i]);
        }
    }
}

/// It does not matter in which order two timeouts are set.
pub proof fn law_poll_times_commute(poll_time: Option<Timespec>, a: Timespec, b: Timespec)
    ensures
        crate::time::earliest(Some(crate::time::earliest(poll_time, a)), b)
            == crate::time::earliest(Some(crate::time::earliest(poll_time, b)), a),
        crate::time::earliest(Some(crate::time::earliest(poll_time, a)), a)
            == crate::time::earliest(poll_time, a),
{
}

proof fn lemma_prune_len(v: DaemonView)
    ensures
        v.prune_images().image_animators.len() <= v.image_animators.len(),
{
    v.image_animators.lemma_filter_len(crate::animator::busy());
}

/// At every point of a pass, whatever the answers were: it has set one timeout for each animator
/// that it left, and the poll time is the earliest of them.
pub proof fn law_pass_schedules_what_it_leaves(v: DaemonView, answers: Seq<PassAnswer>)
    requires
        Pass::fits(v, answers),
    ensures
        Pass::run(v, answers).in_bounds(),
        Pass::run(v, answers).timeouts.len() == Pass::run(v, answers).left(),
        is_earliest(Pass::run(v, answers).daemon.poll_time, Pass::run(v, answers).timeouts),
    decreases answers.len(),
{
    if answers.len() > 0 {
        law_pass_schedules_what_it_leaves(v, answers.drop_last());
        let before = Pass::run(v, answers.drop_last());
        let answer = answers.last();
        match before.timeout_set(answer.event) {
            Some(t) => {
                law_poll_time_is_the_earliest(before.daemon.poll_time, before.timeouts, t);
            },
            None => {},
        }
    }
}

/// `timeouts` are those of the times last read from `animators`, in order.
pub open spec fn are_timeouts_of(
    timeouts: Seq<Timespec>,
    animators: Seq<AnimatorView>,
    read: Map<u64, Span>,
) -> bool {
    &&& timeouts.len() == animators.len()
    &&& forall|i: int|
        0 <= i < animators.len() ==> read.contains_key((#[trigger] animators[i]).id) && timeouts[i]
            == crate::time::spec_poll_timeout(read[animators[i].id])
}

/// How many animators bear `id` and are off their list for the moment.
pub open spec fn pending_bearers(stage: DrawStageView, id: u64) -> nat {
    match stage {
        DrawStageView::Promote { animator, .. } => if animator.id == id {
            1
        } else {
            0
        },
        _ => 0,
    }
}

impl Pass {
    /// The animators that the pass has seen and left on their lists.
    pub open spec fn passed(self) -> Seq<AnimatorView> {
        let transitions = self.daemon.transition_animators;
        let images = self.daemon.image_animators;
        match self.stage {
            DrawStageView::AskTime { lane, index, .. } => if lane is Transitions {
                transitions.take(index)
            } else {
                transitions + images.take(index)
            },
            DrawStageView::Frame { lane, index, .. } => if lane is Transitions {
                transitions.take(index)
            } else {
                transitions + images.take(index)
            },
            DrawStageView::Promote { index, .. } => transitions.take(index),
            DrawStageView::Done => transitions + images,
        }
    }

    /// Whether the pass has come to the animated images.
    pub open spec fn among_images(self) -> bool {
        match self.stage {
            DrawStageView::AskTime { lane, .. } => lane is Images,
            DrawStageView::Frame { lane, .. } => lane is Images,
            DrawStageView::Promote { .. } => false,
            DrawStageView::Done => true,
        }
    }

    /// What a pass over the animators of `v` does with each of them.
    pub open spec fn accounts_for(self, v: DaemonView) -> bool {
        let images = v.image_animators + self.promoted;
        &&& are_timeouts_of(self.timeouts, self.passed(), self.read)
        &&& self.daemon.image_animators == if self.among_images() {
            images.filter(crate::animator::busy())
        } else {
            images
        }
        &&& self.daemon.transition_animators.to_multiset().add(self.ended.to_multiset())
            == v.transition_animators.to_multiset()
        &&& self.promoted.to_multiset().subset_of(self.ended.to_multiset())
        &&& self.stage matches DrawStageView::Promote { animator, .. }
            ==> self.promoted.to_multiset().insert(animator).subset_of(self.ended.to_multiset())
    }

    /// No two animators bear the same id.
    pub open spec fn ids_distinct(self) -> bool {
        forall|id: u64|
            (#[trigger] self.daemon.animators_named(id)) + pending_bearers(self.stage, id) <= 1
    }
}

/// Where no id is borne twice, an animator bears none of the ids before it.
proof fn lemma_bearers_prefix(animators: Seq<AnimatorView>, i: int, id: u64)
    requires
        0 <= i < animators.len(),
    ensures
        crate::animator::bearers(animators, id) >= crate::animator::bearers(
            animators.take(i),
            id,
        ) + if animators[i].id == id {
            1nat
        } else {
            0nat
        },
    decreases animators.len(),
{
    let rest = animators.drop_last();
    if i == rest.len() {
        assert(animators.take(i) =~= rest);
    } else {
        assert(rest.take(i) =~= animators.take(i));
        lemma_bearers_prefix(rest, i, id);
    }
}

/// The animator that a pass has come to is none of those it has seen.
proof fn lemma_current_is_new(p: Pass, lane: Lane, index: int, due: bool)
    requires
        p.stage == (DrawStageView::AskTime { lane, index, due }),
        p.in_bounds(),
        p.ids_distinct(),
    ensures
        forall|i: int|
            0 <= i < p.passed().len() ==> (#[trigger] p.passed()[i]).id
                != p.daemon.lane(lane)[index].id,
{
    let id = p.daemon.lane(lane)[index].id;
    let transitions = p.daemon.transition_animators;
    let images = p.daemon.image_animators;
    assert(p.daemon.animators_named(id) <= 1);
    lemma_bearers_prefix(p.daemon.lane(lane), index, id);
    assert forall|i: int| 0 <= i < p.passed().len() implies (#[trigger] p.passed()[i]).id
        != id by {
        if lane is Transitions {
            crate::animator::lemma_holders_member(transitions.take(index), i, id);
        } else if i < transitions.len() {
            crate::animator::lemma_holders_member(transitions, i, id);
        } else {
            crate::animator::lemma_holders_member(images.take(index), i - transitions.len(), id);
        }
    }
}

/// What is taken off a list is what the list then lacks.
proof fn lemma_swap_removed_multiset(animators: Seq<AnimatorView>, i: int)
    requires
        0 <= i < animators.len(),
    ensures
        crate::animator::swap_removed(animators, i).to_multiset().insert(animators[i])
            == animators.to_multiset(),
{
    let last = animators.last();
    let u = animators.update(i, last);
    vstd::seq_lib::to_multiset_update(animators, i, last);
    vstd::seq_lib::to_multiset_remove(u, u.len() - 1);
    assert(u.remove(u.len() - 1) =~= u.drop_last());
    animators.to_multiset_ensures();
    assert(animators.contains(animators[i]));
    assert(animators.contains(animators[animators.len() - 1]));
    assert(u.drop_last().to_multiset().insert(animators[i]) =~= animators.to_multiset());
}

/// No step of a pass makes two animators bear the same id.
proof fn lemma_step_ids_distinct(p: Pass, answer: PassAnswer)
    requires
        p.in_bounds(),
        p.ids_distinct(),
        p.stage.expects(answer.event),
    ensures
        p.step(answer).ids_distinct(),
{
    let v = p.daemon;
    let n = p.step(answer);
    assert forall|id: u64|
        (#[trigger] n.daemon.animators_named(id)) + pending_bearers(n.stage, id) <= 1 by {
        assert(v.animators_named(id) + pending_bearers(p.stage, id) <= 1);
        crate::animator::lemma_holders_busy(v.image_animators, id);
        match p.stage {
            DrawStageView::Frame { lane, index, .. } => {
                if lane is Transitions {
                    crate::animator::lemma_holders_swap_removed(v.transition_animators, index, id);
                }
            },
            DrawStageView::Promote { animator, .. } => {
                crate::animator::lemma_holders_push(v.image_animators, animator, id);
                crate::animator::lemma_holders_busy(v.image_animators.push(animator), id);
            },
            _ => {},
        }
    }
}

/// A time that was read is kept as the one last read, and sets the timeout of its animator where
/// the animator is left.
proof fn lemma_time_accounts(p: Pass, answer: PassAnswer, v: DaemonView)
    requires
        p.stage is AskTime,
        p.in_bounds(),
        p.ids_distinct(),
        p.accounts_for(v),
        p.stage.expects(answer.event),
    ensures
        p.step(answer).accounts_for(v),
{
    let n = p.step(answer);
    match (p.stage, answer.event) {
        (DrawStageView::AskTime { lane, index, due }, DrawEvent::Time(t)) => {
            lemma_current_is_new(p, lane, index, due);
            let animators = p.daemon.lane(lane);
            if due && t.total_nanos() <= DRAW_THRESHOLD_NANOS {
                assert(n.passed() =~= p.passed());
            } else {
                assert(animators.take(index + 1) =~= animators.take(index).push(animators[index]));
                assert(n.passed() =~= p.passed().push(animators[index]));
            }
            assert(are_timeouts_of(n.timeouts, n.passed(), n.read));
        },
        _ => {},
    }
}

/// The end of a transition takes it from its list, and leaves what the pass has seen as it was.
proof fn lemma_frame_accounts(p: Pass, answer: PassAnswer, v: DaemonView)
    requires
        p.stage is Frame,
        p.in_bounds(),
        p.accounts_for(v),
        p.stage.expects(answer.event),
    ensures
        p.step(answer).accounts_for(v),
{
    let n = p.step(answer);
    match (p.stage, answer.event) {
        (DrawStageView::Frame { lane, index, .. }, DrawEvent::Framed(ended)) => {
            if lane is Transitions && ended {
                let transitions = p.daemon.transition_animators;
                let animator = transitions[index];
                lemma_swap_removed_multiset(transitions, index);
                p.ended.to_multiset_ensures();
                assert(n.ended.to_multiset() =~= p.ended.to_multiset().insert(animator));
                assert(n.daemon.transition_animators.to_multiset().add(n.ended.to_multiset())
                    =~= v.transition_animators.to_multiset());
                assert(n.passed() =~= p.passed());
            }
        },
        _ => {},
    }
}

/// A transition that has ended is among the animated images if one goes on from it, and nowhere
/// otherwise.
proof fn lemma_promotion_accounts(p: Pass, answer: PassAnswer, v: DaemonView)
    requires
        p.stage is Promote,
        p.in_bounds(),
        p.accounts_for(v),
        p.stage.expects(answer.event),
    ensures
        p.step(answer).accounts_for(v),
{
    let n = p.step(answer);
    match (p.stage, answer.event) {
        (DrawStageView::Promote { index, animator }, DrawEvent::Promoted(goes_on)) => {
            p.promoted.to_multiset_ensures();
            if goes_on {
                assert((v.image_animators + p.promoted).push(animator) =~= v.image_animators
                    + n.promoted);
            }
            assert(n.passed() =~= p.passed());
        },
        _ => {},
    }
}

/// Whatever the answers were, a pass accounts for every animator.
proof fn lemma_pass_accounts(v: DaemonView, answers: Seq<PassAnswer>)
    requires
        Pass::fits(v, answers),
        forall|id: u64| (#[trigger] v.animators_named(id)) <= 1,
    ensures
        Pass::run(v, answers).ids_distinct(),
        Pass::run(v, answers).accounts_for(v),
    decreases answers.len(),
{
    let p = Pass::run(v, answers);
    if answers.len() == 0 {
        assert(v.image_animators + p.promoted =~= v.image_animators);
        assert(p.passed() =~= Seq::<AnimatorView>::empty());
        p.ended.to_multiset_ensures();
        assert(p.ended.to_multiset() =~= vstd::multiset::Multiset::empty());
        assert(p.daemon.transition_animators.to_multiset().add(p.ended.to_multiset())
            =~= v.transition_animators.to_multiset());
        assert forall|id: u64|
            (#[trigger] p.daemon.animators_named(id)) + pending_bearers(p.stage, id) <= 1 by {
            assert(v.animators_named(id) <= 1);
            crate::animator::lemma_holders_busy(v.image_animators, id);
        }
    } else {
        let before = Pass::run(v, answers.drop_last());
        let answer = answers.last();
        lemma_pass_accounts(v, answers.drop_last());
        law_pass_schedules_what_it_leaves(v, answers.drop_last());
        lemma_step_ids_distinct(before, answer);
        match before.stage {
            DrawStageView::AskTime { .. } => {
                lemma_time_accounts(before, answer, v);
            },
            DrawStageView::Frame { .. } => {
                lemma_frame_accounts(before, answer, v);
            },
            DrawStageView::Promote { .. } => {
                lemma_promotion_accounts(before, answer, v);
            },
            DrawStageView::Done => {},
        }
    }
}

/// A pass that is over has done with each animator what it should, whatever the answers were:
/// - the timeouts, in order, are those of the times last read from the transitions that are left
///   and then from the animated images that are left, and the poll time is the earliest of them;
/// - the animated images are those there were, followed by those that go on from transitions,
///   without any that drive nothing;
/// - the transitions that are left and those that have ended are together those there were, and
///   animated images go on from none but those that have ended.
pub proof fn law_pass_accounts_for_every_animator(v: DaemonView, answers: Seq<PassAnswer>)
    requires
        v.wf(),
        Pass::fits(v, answers),
        Pass::run(v, answers).stage is Done,
    ensures
        ({
            let p = Pass::run(v, answers);
            let transitions = p.daemon.transition_animators;
            let images = p.daemon.image_animators;
            &&& are_timeouts_of(p.timeouts, transitions + images, p.read)
            &&& is_earliest(p.daemon.poll_time, p.timeouts)
            &&& images == (v.image_animators + p.promoted).filter(crate::animator::busy())
            &&& transitions.to_multiset().add(p.ended.to_multiset())
                == v.transition_animators.to_multiset()
            &&& p.promoted.to_multiset().subset_of(p.ended.to_multiset())
        }),
{
    lemma_pass_accounts(v, answers);
    law_pass_schedules_what_it_leaves(v, answers);
}

/// A pass that is over has set a poll time if and only if an animator is left. So the daemon
/// draws again exactly as long as there is something to animate.
pub proof fn law_poll_time_set_while_animating(v: DaemonView, answers: Seq<PassAnswer>)
    requires
        Pass::fits(v, answers),
        Pass::run(v, answers).stage is Done,
    ensures
        Pass::run(v, answers).daemon.poll_time is Some <==> Pass::run(
            v,
            answers,
        ).daemon.transition_animators.len() + Pass::run(v, answers).daemon.image_animators.len()
            > 0,
{
    law_pass_schedules_what_it_leaves(v, answers);
}

/// Every answer brings the end of a pass nearer.
pub proof fn law_every_answer_is_progress(p: Pass, answer: PassAnswer)
    requires
        p.in_bounds(),
        p.stage.expects(answer.event),
    ensures
        0 <= p.step(answer).work() < p.work(),
        p.step(answer).in_bounds(),
{
    let observed = p.observed(answer);
    lemma_prune_len(observed);
    match (p.stage, answer.event) {
        (DrawStageView::Promote { animator, .. }, _) => {
            lemma_prune_len(observed.push_image(animator));
        },
        (_, DrawEvent::Time(t)) => {
            lemma_prune_len(observed.set_poll_time(crate::time::spec_poll_timeout(t)));
        },
        _ => {},
    }
}

/// A pass takes no more answers than six for each transition and three for each animated image.
pub proof fn law_pass_ends(v: DaemonView, answers: Seq<PassAnswer>)
    requires
        Pass::fits(v, answers),
    ensures
        0 <= Pass::run(v, answers).work(),
        answers.len() + Pass::run(v, answers).work() <= 6 * v.transition_animators.len() + 3
            * v.image_animators.len(),
    decreases answers.len(),
{
    if answers.len() > 0 {
        law_pass_ends(v, answers.drop_last());
        law_pass_schedules_what_it_leaves(v, answers.drop_last());
        law_every_answer_is_progress(Pass::run(v, answers.drop_last()), answers.last());
    } else {
        lemma_prune_len(DaemonView { poll_time: None, ..v });
    }
}

/// How often the wallpaper `id` is driven by an animator that is off its list for the moment.
pub open spec fn pending(stage: DrawStageView, id: u64) -> nat {
    match stage {
        DrawStageView::Promote { animator, .. } => crate::animator::occurrences(
            animator.wallpapers,
            id,
        ),
        _ => 0,
    }
}

/// A pass takes no wallpaper from its animator, except those of a transition that has ended and
/// from which no animated image goes on.
pub proof fn law_pass_keeps_what_it_animates(
    v: DaemonView,
    stage: DrawStageView,
    event: DrawEvent,
    id: u64,
)
    requires
        v.pass_wf(stage),
        stage.expects(event),
    ensures
        ({
            let (u, next) = v.draw_step(stage, event);
            u.driven(id) + pending(next, id) == v.driven(id) + if event == DrawEvent::Promoted(
                false,
            ) {
                0
            } else {
                pending(stage, id)
            }
        }),
{
    crate::animator::lemma_holders_busy(v.image_animators, id);
    match (stage, event) {
        (DrawStageView::Frame { lane, index, .. }, _) => {
            if lane is Transitions {
                crate::animator::lemma_holders_swap_removed(v.transition_animators, index, id);
            }
        },
        (DrawStageView::Promote { animator, .. }, _) => {
            crate::animator::lemma_holders_push(v.image_animators, animator, id);
            crate::animator::lemma_holders_busy(v.image_animators.push(animator), id);
        },
        _ => {},
    }
}

/// A step of a pass does not depend on the objects that are registered.
pub proof fn law_pass_ignores_objects(
    v: DaemonView,
    objects: Seq<Option<WaylandObject>>,
    stage: DrawStageView,
    event: DrawEvent,
)
    ensures
        ({
            let (u, next) = v.draw_step(stage, event);
            DaemonView { objects, ..v }.draw_step(stage, event) == (
                DaemonView { objects, ..u },
                next,
            )
        }),
        ({
            let (u, next) = v.draw();
            DaemonView { objects, ..v }.draw() == (DaemonView { objects, ..u }, next)
        }),
{
}

impl Pass {
    /// The animator of a lane that the pass is at, if it is at one.
    pub open spec fn current(self, lane: Lane) -> Seq<AnimatorView> {
        match self.stage {
            DrawStageView::Frame { lane: l, index, .. } => if l == lane {
                seq![self.daemon.lane(l)[index]]
            } else {
                Seq::empty()
            },
            _ => Pass::came_to(self.daemon, self.stage, lane),
        }
    }

    /// The animators of a lane that the pass has left on their list.
    pub open spec fn passed_in(self, lane: Lane) -> Seq<AnimatorView> {
        let animators = self.daemon.lane(lane);
        match self.stage {
            DrawStageView::AskTime { lane: l, index, .. } => if l == lane {
                animators.take(index)
            } else if lane is Transitions {
                animators
            } else {
                Seq::empty()
            },
            DrawStageView::Frame { lane: l, index, .. } => if l == lane {
                animators.take(index)
            } else if lane is Transitions {
                animators
            } else {
                Seq::empty()
            },
            DrawStageView::Promote { index, .. } => if lane is Transitions {
                animators.take(index)
            } else {
                Seq::empty()
            },
            DrawStageView::Done => animators,
        }
    }

    /// The transitions that the pass has come to are those it has left, the one it is at, and
    /// those that have ended. The animated images it has come to are those it has left and the one
    /// it is at.
    pub open spec fn has_seen(self) -> bool {
        &&& self.seen_transitions.to_multiset() == (self.passed_in(Lane::Transitions)
            + self.current(Lane::Transitions)).to_multiset().add(self.ended.to_multiset())
        &&& self.seen_images == self.passed_in(Lane::Images) + self.current(Lane::Images)
    }
}

proof fn lemma_multiset_push(s: Seq<AnimatorView>, a: AnimatorView)
    ensures
        (s + seq![a]).to_multiset() == s.to_multiset().insert(a),
{
    s.to_multiset_ensures();
    assert(s + seq![a] =~= s.push(a));
}

/// Coming to the next animator adds it to what was seen.
proof fn lemma_step_has_seen(p: Pass, answer: PassAnswer)
    requires
        p.in_bounds(),
        p.has_seen(),
        p.stage.expects(answer.event),
    ensures
        p.step(answer).has_seen(),
{
    let n = p.step(answer);
    let none = Seq::<AnimatorView>::empty();
    let transitions = p.daemon.transition_animators;
    match (p.stage, answer.event) {
        (DrawStageView::AskTime { lane, index, due }, DrawEvent::Time(t)) => {
            let animators = p.daemon.lane(lane);
            assert(p.seen_transitions + none =~= p.seen_transitions);
            assert(p.seen_images + none =~= p.seen_images);
            if !(due && t.total_nanos() <= DRAW_THRESHOLD_NANOS) {
                assert(animators.take(index) + seq![animators[index]] =~= animators.take(index + 1));
                assert(n.passed_in(lane) + none =~= n.passed_in(lane));
                assert(transitions + none =~= transitions);
                if lane is Transitions {
                    assert(n.passed_in(Lane::Transitions) =~= transitions.take(index + 1));
                    match n.stage {
                        DrawStageView::AskTime { lane: l, index: i, .. } => {
                            if l is Transitions {
                                lemma_multiset_push(p.seen_transitions, transitions[i]);
                                lemma_multiset_push(transitions.take(i), transitions[i]);
                                assert(n.seen_transitions.to_multiset() =~= (n.passed_in(
                                    Lane::Transitions,
                                ) + n.current(Lane::Transitions)).to_multiset().add(
                                    n.ended.to_multiset(),
                                ));
                                assert(n.seen_images =~= none);
                                assert(n.passed_in(Lane::Images) + n.current(Lane::Images)
                                    =~= none);
                            } else {
                                assert(n.passed_in(Lane::Images) =~= none);
                                assert(n.seen_images =~= n.passed_in(Lane::Images) + n.current(
                                    Lane::Images,
                                ));
                            }
                        },
                        _ => {
                            assert(n.passed_in(Lane::Images) =~= none);
                            assert(n.seen_images =~= n.passed_in(Lane::Images) + n.current(
                                Lane::Images,
                            ));
                        },
                    }
                } else {
                    assert(n.passed_in(Lane::Images) =~= animators.take(index + 1));
                    assert(n.seen_images =~= n.passed_in(Lane::Images) + n.current(Lane::Images));
                }
            }
        },
        (DrawStageView::Frame { lane, index, .. }, DrawEvent::Framed(ended)) => {
            if lane is Transitions && ended {
                let animator = transitions[index];
                lemma_multiset_push(transitions.take(index), animator);
                p.ended.to_multiset_ensures();
                assert(n.passed_in(Lane::Transitions) + none =~= transitions.take(index));
                assert(n.seen_transitions.to_multiset() =~= (n.passed_in(Lane::Transitions)
                    + n.current(Lane::Transitions)).to_multiset().add(n.ended.to_multiset()));
            }
        },
        (DrawStageView::Promote { index, .. }, DrawEvent::Promoted(_)) => {
            assert(p.seen_transitions + none =~= p.seen_transitions);
            assert(p.passed_in(Lane::Transitions) + none =~= transitions.take(index));
            match n.stage {
                DrawStageView::AskTime { lane: l, index: i, .. } => {
                    if l is Transitions {
                        lemma_multiset_push(p.seen_transitions, transitions[i]);
                        lemma_multiset_push(transitions.take(i), transitions[i]);
                        assert(n.seen_transitions.to_multiset() =~= (n.passed_in(
                            Lane::Transitions,
                        ) + n.current(Lane::Transitions)).to_multiset().add(
                            n.ended.to_multiset(),
                        ));
                    } else {
                        assert(transitions.take(index) =~= transitions);
                        assert(n.passed_in(Lane::Images) =~= none);
                    }
                },
                _ => {
                    assert(transitions.take(index) =~= transitions);
                    assert(n.passed_in(Lane::Images) =~= none);
                },
            }
            assert(n.seen_images =~= n.passed_in(Lane::Images) + n.current(Lane::Images));
        },
        _ => {},
    }
}

proof fn lemma_has_seen(v: DaemonView, answers: Seq<PassAnswer>)
    requires
        Pass::fits(v, answers),
    ensures
        Pass::run(v, answers).has_seen(),
    decreases answers.len(),
{
    if answers.len() == 0 {
        let p = Pass::start(v);
        p.ended.to_multiset_ensures();
        assert(p.seen_transitions =~= p.passed_in(Lane::Transitions) + p.current(
            Lane::Transitions,
        ));
        assert(p.seen_images =~= p.passed_in(Lane::Images) + p.current(Lane::Images));
        assert(p.seen_transitions.to_multiset() =~= p.seen_transitions.to_multiset().add(
            p.ended.to_multiset(),
        ));
    } else {
        lemma_has_seen(v, answers.drop_last());
        law_pass_schedules_what_it_leaves(v, answers.drop_last());
        lemma_step_has_seen(Pass::run(v, answers.drop_last()), answers.last());
    }
}

/// A pass that is over has come to every transition there was exactly once, though their order
/// changes when one ends, and then to every animated image that is left, in order.
pub proof fn law_every_animator_is_seen_once(v: DaemonView, answers: Seq<PassAnswer>)
    requires
        v.wf(),
        Pass::fits(v, answers),
        Pass::run(v, answers).stage is Done,
    ensures
        Pass::run(v, answers).seen_transitions.to_multiset()
            == v.transition_animators.to_multiset(),
        Pass::run(v, answers).seen_images == Pass::run(v, answers).daemon.image_animators,
{
    let p = Pass::run(v, answers);
    lemma_has_seen(v, answers);
    law_pass_accounts_for_every_animator(v, answers);
    assert(p.passed_in(Lane::Transitions) + p.current(Lane::Transitions)
        =~= p.daemon.transition_animators);
    assert(p.passed_in(Lane::Images) + p.current(Lane::Images) =~= p.daemon.image_animators);
}

/// What a pass that is at an animator knows of it: whether its wallpapers were all ready when the
/// pass came to it.
proof fn lemma_due_means_ready(v: DaemonView, answers: Seq<PassAnswer>)
    requires
        Pass::fits(v, answers),
    ensures
        Pass::run(v, answers).stage matches DrawStageView::AskTime { lane, index, due } ==> due
            ==> crate::draw::all_ready(
            Pass::run(v, answers).daemon.wallpapers,
            Pass::run(v, answers).daemon.lane(lane)[index].wallpapers,
        ),
    decreases answers.len(),
{
    if answers.len() > 0 {
        lemma_due_means_ready(v, answers.drop_last());
    }
}

/// A pass draws a frame only for an animator whose wallpapers could all take one when the pass came
/// to it: each of them was configured, and none waited for a frame callback.
pub proof fn law_only_ready_wallpapers_are_drawn(
    v: DaemonView,
    answers: Seq<PassAnswer>,
    lane: Lane,
    index: int,
    k: int,
)
    requires
        Pass::fits(v, answers),
        Pass::run(v, answers).stage matches DrawStageView::Frame { lane: l, index: i, .. } && l
            == lane && i == index,
        ({
            let ws = Pass::run(v, answers.drop_last()).daemon.wallpapers;
            forall|i: int| 0 <= i < ws.len() ==> (#[trigger] ws[i]).wf()
        }),
        0 <= k < Pass::run(v, answers).daemon.lane(lane)[index].wallpapers.len(),
    ensures
        answers.len() > 0,
        ({
            let before = Pass::run(v, answers.drop_last());
            let animator = Pass::run(v, answers).daemon.lane(lane)[index];
            &&& before.stage == (DrawStageView::AskTime { lane, index, due: true })
            &&& before.daemon.lane(lane)[index] == animator
            &&& crate::draw::ready(before.daemon.wallpapers, animator.wallpapers[k])
            &&& exists|i: int|
                0 <= i < before.daemon.wallpapers.len() && (
                #[trigger] before.daemon.wallpapers[i]).id == animator.wallpapers[k]
                    && before.daemon.wallpapers[i].configured
                    && before.daemon.wallpapers[i].callback is None
        }),
{
    let before = Pass::run(v, answers.drop_last());
    let ids = Pass::run(v, answers).daemon.lane(lane)[index].wallpapers;
    lemma_due_means_ready(v, answers.drop_last());
    let ws = before.daemon.wallpapers;
    assert(crate::draw::ready(ws, ids[k]));
    let i = choose|i: int| 0 <= i < ws.len() && (#[trigger] ws[i]).id == ids[k] && ws[i].draw_ready;
    assert(ws[i].wf());
}

/// A pass changes nothing but the poll time and the two lists of animators.
pub proof fn law_pass_changes_only_animators(
    v: DaemonView,
    stage: DrawStageView,
    event: DrawEvent,
)
    ensures
        ({
            let u = v.draw_step(stage, event).0;
            u == (DaemonView {
                poll_time: u.poll_time,
                transition_animators: u.transition_animators,
                image_animators: u.image_animators,
                ..v
            })
        }),
{
}

/// The frame of an animator is due when the pass comes to it if and only if each wallpaper that
/// this very animator drives, `own`, can take a frame. What the other wallpapers can do is of no
/// concern. So where each can, and the frame is wanted within a millisecond, it is drawn next.
pub proof fn law_own_wallpapers_make_a_frame_due(
    v: DaemonView,
    stage: DrawStageView,
    event: DrawEvent,
    lane: Lane,
    index: int,
    due: bool,
    own: Seq<u64>,
)
    requires
        stage is AskTime && event is Time || stage is Promote && event is Promoted,
        v.draw_step(stage, event).1 == (DrawStageView::AskTime { lane, index, due }),
        lane is Transitions ==> own == v.draw_step(
            stage,
            event,
        ).0.transition_animators[index].wallpapers,
        lane is Images ==> own == v.draw_step(stage, event).0.image_animators[index].wallpapers,
    ensures
        due <==> forall|id: u64| #[trigger]
            own.contains(id) ==> exists|i: int|
                0 <= i < v.wallpapers.len() && (#[trigger] v.wallpapers[i]).id == id
                    && v.wallpapers[i].draw_ready,
        forall|later: DaemonView, t: Span|
            due && t.secs == 0 && t.nanos <= 1_000_000 ==> (#[trigger] later.draw_step(
                DrawStageView::AskTime { lane, index, due },
                DrawEvent::Time(t),
            )).1 is Frame,
{
    lemma_due_is_own_readiness(v.wallpapers, own);
}

/// The same of the animator that a pass comes to first.
pub proof fn law_own_wallpapers_make_the_first_frame_due(
    v: DaemonView,
    lane: Lane,
    index: int,
    due: bool,
    own: Seq<u64>,
)
    requires
        v.draw().1 == (DrawStageView::AskTime { lane, index, due }),
        lane is Transitions ==> own == v.draw().0.transition_animators[index].wallpapers,
        lane is Images ==> own == v.draw().0.image_animators[index].wallpapers,
    ensures
        due <==> forall|id: u64| #[trigger]
            own.contains(id) ==> exists|i: int|
                0 <= i < v.wallpapers.len() && (#[trigger] v.wallpapers[i]).id == id
                    && v.wallpapers[i].draw_ready,
{
    lemma_due_is_own_readiness(v.wallpapers, own);
}

proof fn lemma_due_is_own_readiness(ws: Seq<WallpaperView>, own: Seq<u64>)
    ensures
        crate::draw::all_ready(ws, own) <==> forall|id: u64| #[trigger]
            own.contains(id) ==> exists|i: int|
                0 <= i < ws.len() && (#[trigger] ws[i]).id == id && ws[i].draw_ready,
{
    if crate::draw::all_ready(ws, own) {
        assert forall|id: u64| #[trigger] own.contains(id) implies exists|i: int|
            0 <= i < ws.len() && (#[trigger] ws[i]).id == id && ws[i].draw_ready by {
            let p = choose|p: int| 0 <= p < own.len() && own[p] == id;
            assert(crate::draw::ready(ws, own[p]));
        }
    }
    if forall|id: u64| #[trigger]
        own.contains(id) ==> exists|i: int|
            0 <= i < ws.len() && (#[trigger] ws[i]).id == id && ws[i].draw_ready {
        assert forall|p: int| 0 <= p < own.len() implies crate::draw::ready(
            ws,
            #[trigger] own[p],
        ) by {
            assert(own.contains(own[p]));
        }
    }
}

/// The animators that drive something, in order.
proof fn lemma_busy_inline(animators: Seq<AnimatorView>)
    ensures
        animators.filter(crate::animator::busy()) == animators.filter(
            |a: AnimatorView| a.wallpapers.len() > 0,
        ),
{
    assert(crate::animator::busy() =~= (|a: AnimatorView| a.wallpapers.len() > 0));
}

/// A pass forgets the poll time and begins with the first transition; where there is none, with the
/// first of the animated images that drive something, and where there is none either it is over.
/// Nothing else is touched.
pub proof fn law_where_a_pass_begins(v: DaemonView)
    ensures
        ({
            let (u, stage) = v.draw();
            let driving = v.image_animators.filter(|a: AnimatorView| a.wallpapers.len() > 0);
            let images = if v.transition_animators.len() > 0 {
                v.image_animators
            } else {
                driving
            };
            &&& u == (DaemonView { poll_time: None, image_animators: images, ..v })
            &&& v.transition_animators.len() > 0 ==> (stage matches DrawStageView::AskTime {
                lane,
                index,
                ..
            } && lane is Transitions && index == 0)
            &&& v.transition_animators.len() == 0 && driving.len() > 0 ==> (stage matches
                DrawStageView::AskTime { lane, index, .. } && lane is Images && index == 0)
            &&& v.transition_animators.len() == 0 && driving.len() == 0 ==> stage is Done
        }),
{
    lemma_busy_inline(v.image_animators);
}

/// What the time until a frame leads to. Where the frame is due and wanted within a millisecond it
/// is drawn, after a wait if there is time left. Otherwise the poll time is lowered to the timeout
/// for it and the pass goes on: to the next animator of the same list, from the last transition to
/// the first of the animated images that drive something, and to its end after the last of them.
pub proof fn law_what_a_time_leads_to(
    v: DaemonView,
    lane: Lane,
    index: int,
    due: bool,
    t: Span,
)
    requires
        t.nanos < 1_000_000_000,
        0 <= index < if lane is Transitions {
            v.transition_animators.len()
        } else {
            v.image_animators.len()
        },
    ensures
        ({
            let (u, next) = v.draw_step(
                DrawStageView::AskTime { lane, index, due },
                DrawEvent::Time(t),
            );
            let now = due && t.secs == 0 && t.nanos <= 1_000_000;
            let driving = v.image_animators.filter(|a: AnimatorView| a.wallpapers.len() > 0);
            let more = if lane is Transitions {
                index + 1 < v.transition_animators.len()
            } else {
                index + 1 < v.image_animators.len()
            };
            let images = if lane is Transitions && !more {
                driving
            } else {
                v.image_animators
            };
            let wanted = Timespec {
                tv_sec: t.secs as i64,
                tv_nsec: if t.nanos <= 500_000 {
                    0
                } else {
                    (t.nanos - 500_000) as i64
                },
            };
            &&& now ==> u == v && next == (DrawStageView::Frame {
                lane,
                index,
                wait: if t.nanos == 0 {
                    None
                } else {
                    Some(t)
                },
                pixel_format: v.pixel_format,
            })
            &&& !now ==> u == (DaemonView {
                poll_time: u.poll_time,
                image_animators: images,
                ..v
            })
            &&& !now && v.poll_time is None ==> u.poll_time == Some(wanted)
            &&& !now ==> (v.poll_time matches Some(set) ==> u.poll_time == Some(
                if wanted.tv_sec < set.tv_sec || wanted.tv_sec == set.tv_sec && wanted.tv_nsec
                    < set.tv_nsec {
                    wanted
                } else {
                    set
                },
            ))
            &&& !now && more ==> (next matches DrawStageView::AskTime { lane: l, index: i, .. } && l
                == lane && i == index + 1)
            &&& !now && !more && lane is Transitions && driving.len() > 0 ==> (next matches
                DrawStageView::AskTime { lane: l, index: i, .. } && l is Images && i == 0)
            &&& !now && !more && (lane is Images || driving.len() == 0) ==> next is Done
        }),
{
    lemma_busy_inline(v.image_animators);
}

/// What becomes of an animator once its frame was drawn. A transition that has ended is taken off
/// its list, where the last one takes its place, and may go on as an animated image. Any other
/// animator is asked when its next frame is due, which is not drawn in this pass.
pub proof fn law_what_a_frame_leads_to(
    v: DaemonView,
    lane: Lane,
    index: int,
    wait: Option<Span>,
    pixel_format: PixelFormat,
    ended: bool,
)
    requires
        0 <= index < if lane is Transitions {
            v.transition_animators.len()
        } else {
            v.image_animators.len()
        },
    ensures
        ({
            let (u, next) = v.draw_step(
                DrawStageView::Frame { lane, index, wait, pixel_format },
                DrawEvent::Framed(ended),
            );
            let old = v.transition_animators;
            let left = u.transition_animators;
            &&& !(lane is Transitions && ended) ==> u == v && next == (DrawStageView::AskTime {
                lane,
                index,
                due: false,
            })
            &&& lane is Transitions && ended ==> {
                &&& next == (DrawStageView::Promote { index, animator: old[index] })
                &&& u == (DaemonView { transition_animators: left, ..v })
                &&& left.len() == old.len() - 1
                &&& forall|j: int|
                    0 <= j < left.len() ==> (#[trigger] left[j]) == old[if j == index {
                        old.len() - 1
                    } else {
                        j
                    }]
            }
        }),
{
}

/// What becomes of a transition that has ended: it is the last of the animated images if one goes
/// on from it, and gone otherwise. The pass goes on at the place that the transition had.
pub proof fn law_what_a_promotion_leads_to(
    v: DaemonView,
    index: int,
    animator: AnimatorView,
    goes_on: bool,
)
    requires
        0 <= index <= v.transition_animators.len(),
    ensures
        ({
            let (u, next) = v.draw_step(
                DrawStageView::Promote { index, animator },
                DrawEvent::Promoted(goes_on),
            );
            let all = if goes_on {
                v.image_animators.push(animator)
            } else {
                v.image_animators
            };
            let driving = all.filter(|a: AnimatorView| a.wallpapers.len() > 0);
            let more = index < v.transition_animators.len();
            &&& u == (DaemonView {
                image_animators: if more {
                    all
                } else {
                    driving
                },
                ..v
            })
            &&& more ==> (next matches DrawStageView::AskTime { lane, index: i, .. } && lane is
                Transitions && i == index)
            &&& !more && driving.len() > 0 ==> (next matches DrawStageView::AskTime {
                lane,
                index: i,
                ..
            } && lane is Images && i == 0)
            &&& !more && driving.len() == 0 ==> next is Done
        }),
{
    lemma_busy_inline(v.image_animators);
    lemma_busy_inline(v.image_animators.push(animator));
}

/// Every answer of the right sort is one that a pass takes: any time whose nanoseconds make no
/// further second, and either answer to a question of yes or no. A pass that is over takes none.
pub proof fn law_which_answers_a_pass_takes(stage: DrawStageView, event: DrawEvent)
    ensures
        stage is AskTime ==> (stage.expects(event) <==> (event is Time && (event->Time_0).nanos
            < 1_000_000_000)),
        stage is Frame ==> (stage.expects(event) <==> event is Framed),
        stage is Promote ==> (stage.expects(event) <==> event is Promoted),
        stage is Done ==> !stage.expects(event),
{
}

/// What a pass waits for is what the stage holds.
pub proof fn law_stage_shows_its_fields(stage: DrawStage)
    ensures
        stage is Done <==> stage@ is Done,
        stage matches DrawStage::AskTime { lane, index, due } ==> stage@
            == (DrawStageView::AskTime { lane, index: index as int, due }),
        stage matches DrawStage::Frame { lane, index, wait, pixel_format } ==> stage@
            == (DrawStageView::Frame { lane, index: index as int, wait, pixel_format }),
        stage matches DrawStage::Promote { index, animator } ==> (stage@ matches
            DrawStageView::Promote { index: i, animator: a } && i == index && a.id == animator.id
            && a.wallpapers == animator.wallpapers@),
{
}

} // verus!
