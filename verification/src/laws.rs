//! What holds across the operations on the daemon.

use vstd::prelude::*;
use crate::animator::AnimatorView;
use crate::daemon::{Cli, Daemon, DaemonView};
use crate::draw::{DrawEvent, DrawStageView, Lane};
use crate::events::OutputMade;
use crate::format::ShmFormat;
use crate::request::{ImageReqView, Request};
use crate::time::Timespec;
use crate::wallpaper::{Handles, Key, Mark, WallpaperView};

verus! {

/// Stopping the animations of wallpapers frees these wallpapers and no others, and no animator
/// is left without a wallpaper.
pub proof fn law_stopping_frees_what_was_asked(v: DaemonView, ids: Seq<u64>, id: u64)
    ensures
        v.stop_animations(ids).driven(id) == if ids.contains(id) {
            0
        } else {
            v.driven(id)
        },
        forall|i: int|
            0 <= i < v.stop_animations(ids).transition_animators.len() ==> !(
            #[trigger] v.stop_animations(ids).transition_animators[i]).is_idle(),
        forall|i: int|
            0 <= i < v.stop_animations(ids).image_animators.len() ==> !(
            #[trigger] v.stop_animations(ids).image_animators[i]).is_idle(),
{
    crate::animator::lemma_holders_detached(v.transition_animators, ids, id);
    crate::animator::lemma_holders_detached(v.image_animators, ids, id);
    lemma_detached_busy(v.transition_animators, ids);
    lemma_detached_busy(v.image_animators, ids);
}

proof fn lemma_detached_busy(animators: Seq<AnimatorView>, ids: Seq<u64>)
    ensures
        forall|i: int|
            0 <= i < crate::animator::detached(animators, ids).len() ==> !(
            #[trigger] crate::animator::detached(animators, ids)[i]).is_idle(),
{
    let stripped = animators.map_values(|a: AnimatorView| a.without(ids));
    let kept = stripped.filter(crate::animator::busy());
    assert forall|i: int| 0 <= i < kept.len() implies !(#[trigger] kept[i]).is_idle() by {
        stripped.lemma_filter_pred(crate::animator::busy(), i);
    }
}

/// Filtering twice is filtering by both.
proof fn lemma_filter_filter<A>(
    s: Seq<A>,
    p: spec_fn(A) -> bool,
    q: spec_fn(A) -> bool,
    both: spec_fn(A) -> bool,
)
    requires
        forall|x: A| #[trigger] both(x) == (p(x) && q(x)),
    ensures
        s.filter(p).filter(q) == s.filter(both),
    decreases s.len(),
{
    reveal(Seq::filter);
    if s.len() > 0 {
        let rest = s.drop_last();
        lemma_filter_filter(rest, p, q, both);
        if p(s.last()) {
            rest.filter(p).lemma_filter_push(s.last(), q);
        }
    }
}

/// Detaching wallpapers one list after the other is detaching them at once.
proof fn lemma_detached_twice(animators: Seq<AnimatorView>, a: Seq<u64>, b: Seq<u64>)
    ensures
        crate::animator::detached(crate::animator::detached(animators, a), b)
            == crate::animator::detached(animators, a + b),
    decreases animators.len(),
{
    let busy = crate::animator::busy();
    let fa = |x: AnimatorView| x.without(a);
    let fb = |x: AnimatorView| x.without(b);
    let fab = |x: AnimatorView| x.without(a + b);
    reveal(Seq::filter);
    if animators.len() == 0 {
        assert(crate::animator::detached(animators, a) =~= animators);
        assert(crate::animator::detached(animators, b) =~= animators);
        assert(crate::animator::detached(animators, a + b) =~= animators);
    } else {
        let rest = animators.drop_last();
        let x = animators.last();
        lemma_detached_twice(rest, a, b);
        assert(animators.map_values(fa) =~= rest.map_values(fa).push(fa(x)));
        assert(animators.map_values(fab) =~= rest.map_values(fab).push(fab(x)));
        rest.map_values(fa).lemma_filter_push(fa(x), busy);
        rest.map_values(fab).lemma_filter_push(fab(x), busy);
        assert forall|w: u64| #[trigger]
            crate::animator::unlisted(a + b)(w) == (crate::animator::unlisted(a)(w)
                && crate::animator::unlisted(b)(w)) by {
            lemma_contains_concat(a, b, w);
        }
        lemma_filter_filter(
            x.wallpapers,
            crate::animator::unlisted(a),
            crate::animator::unlisted(b),
            crate::animator::unlisted(a + b),
        );
        assert(fab(x) =~= fb(fa(x)));
        let kept = rest.map_values(fa).filter(busy);
        if busy(fa(x)) {
            assert(kept.push(fa(x)).map_values(fb) =~= kept.map_values(fb).push(fb(fa(x))));
            kept.map_values(fb).lemma_filter_push(fb(fa(x)), busy);
        } else {
            assert(fa(x).wallpapers =~= Seq::<u64>::empty());
            assert(fb(fa(x)).wallpapers =~= Seq::<u64>::empty());
        }
    }
}

proof fn lemma_contains_concat(a: Seq<u64>, b: Seq<u64>, w: u64)
    ensures
        (a + b).contains(w) == (a.contains(w) || b.contains(w)),
{
    if a.contains(w) {
        let k = choose|k: int| 0 <= k < a.len() && a[k] == w;
        assert((a + b)[k] == w);
    }
    if b.contains(w) {
        let k = choose|k: int| 0 <= k < b.len() && b[k] == w;
        assert((a + b)[a.len() + k] == w);
    }
}

/// Stopping the animations of some wallpapers and then of others is stopping them all at once.
pub proof fn law_stops_compose(v: DaemonView, a: Seq<u64>, b: Seq<u64>)
    ensures
        v.stop_animations(a).stop_animations(b) == v.stop_animations(a + b),
{
    lemma_detached_twice(v.transition_animators, a, b);
    lemma_detached_twice(v.image_animators, a, b);
}

/// A wallpaper that is removed, because its output is gone or its surface was closed, is neither
/// among the wallpapers nor driven by an animator any more, and no other wallpaper is touched.
pub proof fn law_removed_wallpapers_leave_no_trace(v: DaemonView, key: Key)
    requires
        v.wf(),
        v.first_id(key) is Some,
    ensures
        !crate::daemon::known(v.remove_first(key).wallpapers, v.first_id(key)->0),
        v.remove_first(key).driven(v.first_id(key)->0) == 0,
        v.remove_first(key).wallpapers.len() == v.wallpapers.len() - 1,
        forall|j: int|
            0 <= j < v.wallpapers.len() && (#[trigger] v.wallpapers[j]).id != v.first_id(key)->0
                ==> v.remove_first(key).wallpapers.contains(v.wallpapers[j])
                && v.remove_first(key).driven(v.wallpapers[j].id) == v.driven(v.wallpapers[j].id),
{
    let i = crate::wallpaper::first_match(v.wallpapers, key)->0;
    assert(crate::wallpaper::is_first_match(v.wallpapers, key, i));
    crate::daemon::lemma_remove_wallpaper_wf(v, i);
    let u = v.remove_first(key);
    let gone = v.wallpapers[i].id;
    assert forall|j: int|
        0 <= j < v.wallpapers.len() && (#[trigger] v.wallpapers[j]).id != gone implies
        u.wallpapers.contains(v.wallpapers[j]) && u.driven(v.wallpapers[j].id) == v.driven(
        v.wallpapers[j].id,
    ) by {
        let k = if j < i {
            j
        } else {
            j - 1
        };
        assert(u.wallpapers[k] == v.wallpapers[j]);
        law_stopping_frees_what_was_asked(v, seq![gone], v.wallpapers[j].id);
        let stopped = v.stop_animations(seq![gone]);
        assert(u.transition_animators == stopped.transition_animators);
        assert(u.image_animators == stopped.image_animators);
        assert(!seq![gone].contains(v.wallpapers[j].id));
    }
}

/// An output that was given a name is found by that name.
pub proof fn law_named_output_is_found(v: DaemonView, sender: u32, name: Seq<char>)
    requires
        v.wf(),
        v.first_id(Key::Output(sender)) is Some,
    ensures
        v.apply(
            Key::Output(sender),
            |w: WallpaperView| WallpaperView { name: Some(name), ..w },
        ).find_wallpapers_by_names(seq![name]).contains(v.first_id(Key::Output(sender))->0),
{
    let key = Key::Output(sender);
    let i = crate::wallpaper::first_match(v.wallpapers, key)->0;
    assert(crate::wallpaper::is_first_match(v.wallpapers, key, i));
    let w = WallpaperView { name: Some(name), ..v.wallpapers[i] };
    let u = v.with_wallpaper(i, w);
    crate::events::lemma_with_wallpaper_wf(v, i, w);
    crate::request::law_names_find_their_wallpapers(u, seq![name], i);
    assert(seq![name][0] == name);
    assert(u.wallpapers[i] == w);
}

/// What the compositor tells of one wallpaper changes no other.
pub proof fn law_other_wallpapers_stay(
    v: DaemonView,
    key: Key,
    f: spec_fn(WallpaperView) -> WallpaperView,
    j: int,
)
    requires
        0 <= j < v.wallpapers.len(),
        crate::wallpaper::first_match(v.wallpapers, key) != Some(j),
    ensures
        v.apply(key, f).wallpapers[j] == v.wallpapers[j],
        v.apply(key, f).wallpapers.len() == v.wallpapers.len(),
{
    if crate::wallpaper::first_match(v.wallpapers, key) is Some {
        let i = crate::wallpaper::first_match(v.wallpapers, key)->0;
        assert(crate::wallpaper::is_first_match(v.wallpapers, key, i));
    }
}

/// A wallpaper is held by the daemon and by no more than one animator.
pub proof fn law_a_wallpaper_has_one_animator(v: DaemonView, id: u64)
    requires
        v.wf(),
    ensures
        v.driven(id) <= 1,
        v.driven(id) == 1 ==> crate::daemon::known(v.wallpapers, id),
{
}

/// Nothing the daemon does takes back the request to terminate.
pub proof fn law_exit_is_final(
    v: DaemonView,
    time: Timespec,
    output_name: u32,
    handles: Handles,
    ids: Seq<u64>,
    key: Key,
    f: spec_fn(WallpaperView) -> WallpaperView,
    stage: DrawStageView,
    event: DrawEvent,
)
    requires
        v.exit,
    ensures
        v.set_poll_time(time).exit,
        v.new_output(output_name, handles).exit,
        v.stop_animations(ids).exit,
        v.remove_first(key).exit,
        v.apply(key, f).exit,
        v.push_transition(ids).exit,
        v.draw().0.exit,
        v.draw_step(stage, event).0.exit,
{
}

/// Nor does anything that the compositor or a client tells it.
pub proof fn law_exit_outlives_every_message<T, I, A, E>(
    v: DaemonView,
    format: ShmFormat,
    id: u32,
    marked: Seq<u64>,
    mark: Mark,
    received: Result<Request<T, I, A>, E>,
    req: ImageReqView<T, I, A>,
    names: Seq<u32>,
    made: Seq<OutputMade>,
)
    requires
        v.exit,
    ensures
        v.format(format).exit,
        v.callback_done(id).exit,
        v.delete_id(id).exit,
        v.mark(marked, mark).exit,
        v.recv_socket_msg(received).exit,
        v.next_image(req).exit,
        v.new_outputs(names, made).exit,
    decreases names.len(),
{
    if names.len() > 0 {
        law_exit_outlives_every_message(
            v,
            format,
            id,
            marked,
            mark,
            received,
            req,
            names.drop_last(),
            made,
        );
    }
}

/// A request that cannot be read, and a request to terminate, ask the daemon to terminate. No
/// other request does.
pub proof fn law_only_failure_and_kill_end_the_daemon<T, I, A, E>(
    v: DaemonView,
    received: Result<Request<T, I, A>, E>,
)
    requires
        !v.exit,
    ensures
        v.recv_socket_msg(received).exit <==> (received is Err || received == Ok::<
            Request<T, I, A>,
            E,
        >(Request::Kill)),
{
}

/// What is known of the daemon is what its fields hold.
pub proof fn law_daemon_shows_its_fields(d: Daemon)
    ensures
        d@.registry == d.registry && d@.compositor == d.compositor && d@.shm == d.shm,
        d@.viewporter == d.viewporter && d@.layer_shell == d.layer_shell,
        d@.layer == d.layer && d@.pixel_format == d.pixel_format,
        d@.namespace == d.namespace@ && d@.use_cache == d.use_cache,
        d@.fractional_scale_manager == d.fractional_scale_manager,
        d@.poll_time == d.poll_time && d@.forced_shm_format == d.forced_shm_format,
        d@.callback == d.callback && d@.exit == d.exit.raised && d@.next_id == d.next_id,
        d@.objects == d.objects@,
        d.output_globals is None <==> d@.output_globals is None,
        d.output_globals matches Some(names) ==> d@.output_globals == Some(names@),
        d@.wallpapers.len() == d.wallpapers@.len(),
        forall|i: int|
            0 <= i < d.wallpapers@.len() ==> (#[trigger] d@.wallpapers[i]) == d.wallpapers@[i]@,
        d@.transition_animators.len() == d.transition_animators@.len(),
        forall|i: int|
            0 <= i < d.transition_animators@.len() ==> (#[trigger] d@.transition_animators[i]).id
                == d.transition_animators@[i].id && d@.transition_animators[i].wallpapers
                == d.transition_animators@[i].wallpapers@,
        d@.image_animators.len() == d.image_animators@.len(),
        forall|i: int|
            0 <= i < d.image_animators@.len() ==> (#[trigger] d@.image_animators[i]).id
                == d.image_animators@[i].id && d@.image_animators[i].wallpapers
                == d.image_animators@[i].wallpapers@,
{
}

/// Names are compared letter by letter, and stay in their order.
pub proof fn law_names_are_their_letters(names: Seq<String>)
    ensures
        crate::daemon::strings_view(names).len() == names.len(),
        forall|i: int|
            0 <= i < names.len() ==> (#[trigger] crate::daemon::strings_view(names)[i])
                == names[i]@,
{
}

/// Lowering the poll time sets it where it was not set, and otherwise leaves the shorter of the two
/// timeouts. Nothing else changes.
pub proof fn law_the_poll_time_is_lowered(v: DaemonView, time: Timespec)
    ensures
        v.set_poll_time(time) == (DaemonView { poll_time: v.set_poll_time(time).poll_time, ..v }),
        v.poll_time is None ==> v.set_poll_time(time).poll_time == Some(time),
        v.poll_time matches Some(set) ==> v.set_poll_time(time).poll_time == Some(
            if time.tv_sec < set.tv_sec || time.tv_sec == set.tv_sec && time.tv_nsec < set.tv_nsec {
                time
            } else {
                set
            },
        ),
{
}

/// A new output gets a wallpaper behind all others, under an id that no wallpaper has had. Nothing
/// else changes.
pub proof fn law_a_new_output_gets_one_wallpaper(
    v: DaemonView,
    output_name: u32,
    handles: Handles,
)
    requires
        v.next_id < u64::MAX,
    ensures
        ({
            let u = v.new_output(output_name, handles);
            let n = v.wallpapers.len() as int;
            &&& u == (DaemonView { wallpapers: u.wallpapers, next_id: u.next_id, ..v })
            &&& u.next_id == v.next_id + 1
            &&& u.wallpapers.len() == n + 1
            &&& forall|i: int| 0 <= i < n ==> (#[trigger] u.wallpapers[i]) == v.wallpapers[i]
            &&& u.wallpapers[n].id == v.next_id
            &&& u.wallpapers[n].output_name == output_name
            &&& u.wallpapers[n].handles == handles
            &&& !u.wallpapers[n].configured && !u.wallpapers[n].draw_ready
            &&& u.wallpapers[n].name is None && u.wallpapers[n].callback is None
        }),
{
}

/// The wallpapers that names find are, in the order in which the daemon has them, those whose own
/// name is among the names, or all of them where no name is given.
pub proof fn law_names_find_in_order(v: DaemonView, names: Seq<Seq<char>>)
    ensures
        v.find_wallpapers_by_names(names) == v.wallpapers.filter(
            |w: WallpaperView|
                names.len() == 0 || (w.name is Some && names.contains(w.name->0)),
        ).map_values(|w: WallpaperView| w.id),
{
    let plain = |w: WallpaperView|
        names.len() == 0 || (w.name is Some && names.contains(w.name->0));
    let pred = crate::daemon::addressed(names);
    assert forall|w: WallpaperView| #[trigger] pred(w) == plain(w) by {
        if names.len() > 0 {
            if pred(w) {
                let k = choose|k: int| 0 <= k < names.len() && w.has_name(#[trigger] names[k]);
                assert(names[k] == w.name->0);
            }
            if plain(w) {
                let k = choose|k: int| 0 <= k < names.len() && names[k] == w.name->0;
                assert(w.has_name(names[k]));
            }
        }
    }
    assert(pred =~= plain);
    assert(v.find_wallpapers_by_names(names) =~= v.wallpapers.filter(plain).map_values(
        |w: WallpaperView| w.id,
    ));
}

/// Stopping animations takes the wallpapers asked for from every animator, and the animators that
/// are then left without any from their lists. Animators keep their ids and the rest of their
/// wallpapers, and everything stays in its order. Nothing else changes.
pub proof fn law_what_stopping_leaves(v: DaemonView, ids: Seq<u64>)
    ensures
        ({
            let u = v.stop_animations(ids);
            let kept = |a: AnimatorView|
                AnimatorView {
                    id: a.id,
                    wallpapers: a.wallpapers.filter(|w: u64| !ids.contains(w)),
                };
            let driving = |a: AnimatorView| a.wallpapers.len() > 0;
            &&& u == (DaemonView {
                transition_animators: u.transition_animators,
                image_animators: u.image_animators,
                ..v
            })
            &&& u.transition_animators == v.transition_animators.map_values(kept).filter(driving)
            &&& u.image_animators == v.image_animators.map_values(kept).filter(driving)
        }),
{
    let kept = |a: AnimatorView|
        AnimatorView { id: a.id, wallpapers: a.wallpapers.filter(|w: u64| !ids.contains(w)) };
    let driving = |a: AnimatorView| a.wallpapers.len() > 0;
    assert(crate::animator::unlisted(ids) =~= (|w: u64| !ids.contains(w)));
    assert(crate::animator::busy() =~= driving);
    assert forall|a: AnimatorView| #[trigger] a.without(ids) == kept(a) by {}
    assert(v.transition_animators.map_values(|a: AnimatorView| a.without(ids))
        =~= v.transition_animators.map_values(kept));
    assert(v.image_animators.map_values(|a: AnimatorView| a.without(ids))
        =~= v.image_animators.map_values(kept));
}

/// What happens to wallpapers happens to each of those that are meant and to no other, and changes
/// nothing but the wallpapers.
pub proof fn law_marks_meet_who_is_meant(v: DaemonView, ids: Seq<u64>, mark: Mark)
    ensures
        ({
            let u = v.mark(ids, mark);
            &&& u == (DaemonView { wallpapers: u.wallpapers, ..v })
            &&& u.wallpapers.len() == v.wallpapers.len()
            &&& forall|i: int|
                0 <= i < v.wallpapers.len() ==> (#[trigger] u.wallpapers[i]) == if ids.contains(
                    v.wallpapers[i].id,
                ) {
                    v.wallpapers[i].marked(mark)
                } else {
                    v.wallpapers[i]
                }
        }),
{
}

/// Removing a wallpaper takes it from the wallpapers, which stay in order, and stops its
/// animations. Nothing else changes.
pub proof fn law_what_removing_leaves(v: DaemonView, i: int)
    requires
        0 <= i < v.wallpapers.len(),
    ensures
        ({
            let u = v.remove_wallpaper(i);
            let stopped = v.stop_animations(seq![v.wallpapers[i].id]);
            &&& u == (DaemonView {
                wallpapers: u.wallpapers,
                transition_animators: stopped.transition_animators,
                image_animators: stopped.image_animators,
                ..v
            })
            &&& u.wallpapers.len() == v.wallpapers.len() - 1
            &&& forall|j: int|
                0 <= j < u.wallpapers.len() ==> (#[trigger] u.wallpapers[j]) == v.wallpapers[if j
                    < i {
                    j
                } else {
                    j + 1
                }]
        }),
{
}

/// A wallpaper is driven exactly when some animator of either list has it among its wallpapers.
pub proof fn law_what_is_driven(v: DaemonView, id: u64)
    ensures
        v.driven(id) > 0 <==> ((exists|i: int|
            0 <= i < v.transition_animators.len() && (
            #[trigger] v.transition_animators[i]).wallpapers.contains(id)) || (exists|i: int|
            0 <= i < v.image_animators.len() && (
            #[trigger] v.image_animators[i]).wallpapers.contains(id))),
{
    lemma_holders_listed(v.transition_animators, id);
    lemma_holders_listed(v.image_animators, id);
}

proof fn lemma_holders_listed(animators: Seq<AnimatorView>, id: u64)
    ensures
        crate::animator::holders(animators, id) > 0 <==> exists|i: int|
            0 <= i < animators.len() && (#[trigger] animators[i]).wallpapers.contains(id),
    decreases animators.len(),
{
    if animators.len() > 0 {
        let rest = animators.drop_last();
        let last = animators.len() - 1;
        lemma_holders_listed(rest, id);
        crate::animator::lemma_occurrences_contains(animators[last].wallpapers, id);
        if exists|i: int| 0 <= i < rest.len() && (#[trigger] rest[i]).wallpapers.contains(id) {
            let i = choose|i: int| 0 <= i < rest.len() && (#[trigger] rest[i]).wallpapers.contains(
                id,
            );
            assert(animators[i].wallpapers.contains(id));
        }
        if exists|i: int|
            0 <= i < animators.len() && (#[trigger] animators[i]).wallpapers.contains(id) {
            let i = choose|i: int|
                0 <= i < animators.len() && (#[trigger] animators[i]).wallpapers.contains(id);
            if i < last {
                assert(rest[i].wallpapers.contains(id));
            }
        }
    }
}

/// What holds of the daemon between any two events. No two wallpapers have the same id, and new ids
/// are past all that were given; a wallpaper is ready exactly when it is configured and waits for
/// no callback; what is animated is there, and is not both in transition and an animated image; and
/// outputs wait exactly as long as a callback does.
pub proof fn law_what_always_holds(v: DaemonView, i: int, j: int, p: int, q: int)
    requires
        v.wf(),
    ensures
        v.callback is Some <==> v.output_globals is Some,
        0 <= i < j < v.wallpapers.len() ==> v.wallpapers[i].id != v.wallpapers[j].id,
        0 <= i < v.wallpapers.len() ==> v.wallpapers[i].id < v.next_id
            && (v.wallpapers[i].draw_ready <==> v.wallpapers[i].configured
            && v.wallpapers[i].callback is None),
        0 <= i < v.transition_animators.len() && 0 <= p < v.transition_animators[i].wallpapers.len()
            ==> exists|k: int|
            0 <= k < v.wallpapers.len() && (#[trigger] v.wallpapers[k]).id
                == v.transition_animators[i].wallpapers[p],
        0 <= i < v.image_animators.len() && 0 <= p < v.image_animators[i].wallpapers.len()
            ==> exists|k: int|
            0 <= k < v.wallpapers.len() && (#[trigger] v.wallpapers[k]).id
                == v.image_animators[i].wallpapers[p],
        0 <= i < v.transition_animators.len() && 0 <= j < v.image_animators.len() && 0 <= p
            < v.transition_animators[i].wallpapers.len() && 0 <= q
            < v.image_animators[j].wallpapers.len() ==> v.transition_animators[i].wallpapers[p]
            != v.image_animators[j].wallpapers[q],
{
    if 0 <= i < v.transition_animators.len() && 0 <= p
        < v.transition_animators[i].wallpapers.len() {
        let id = v.transition_animators[i].wallpapers[p];
        crate::animator::lemma_occurrences_contains(v.transition_animators[i].wallpapers, id);
        crate::animator::lemma_holders_member(v.transition_animators, i, id);
        assert(v.driven(id) > 0);
        assert(crate::daemon::known(v.wallpapers, id));
        if 0 <= j < v.image_animators.len() && 0 <= q < v.image_animators[j].wallpapers.len()
            && v.image_animators[j].wallpapers[q] == id {
            crate::animator::lemma_occurrences_contains(v.image_animators[j].wallpapers, id);
            crate::animator::lemma_holders_member(v.image_animators, j, id);
            assert(v.driven(id) <= 1);
        }
    }
    if 0 <= i < v.image_animators.len() && 0 <= p < v.image_animators[i].wallpapers.len() {
        let id = v.image_animators[i].wallpapers[p];
        crate::animator::lemma_occurrences_contains(v.image_animators[i].wallpapers, id);
        crate::animator::lemma_holders_member(v.image_animators, i, id);
        assert(v.driven(id) > 0);
        assert(crate::daemon::known(v.wallpapers, id));
    }
}

/// The ids of wallpapers are their own, in their order.
pub proof fn law_ids_are_in_order(ws: Seq<WallpaperView>)
    ensures
        crate::daemon::ids_of(ws).len() == ws.len(),
        forall|i: int| 0 <= i < ws.len() ==> (#[trigger] crate::daemon::ids_of(ws)[i]) == ws[i].id,
{
}

/// A daemon starts as the user has asked for, with nothing shown, nothing animated and nothing to
/// draw, and with all outputs that were announced waiting. It draws in the format that the user has
/// chosen, which it then keeps, and in `Xrgb` until it knows better where they have chosen none.
pub proof fn law_how_a_daemon_starts(found: DaemonView, args: Cli, output_globals: Seq<u32>)
    ensures
        ({
            let v = DaemonView::starting(found, args, output_globals);
            &&& v.layer == args.layer && v.namespace == args.namespace@
            &&& v.use_cache <==> !args.no_cache
            &&& args.format is None ==> v.pixel_format is Xrgb && !v.forced_shm_format
            &&& args.format matches Some(format) ==> v.pixel_format == format
                && v.forced_shm_format
            &&& v.wallpapers.len() == 0 && v.transition_animators.len() == 0
            &&& v.image_animators.len() == 0 && v.poll_time is None && !v.exit && v.next_id == 0
            &&& v.output_globals == Some(output_globals)
            &&& v.callback == found.callback && v.objects == found.objects
            &&& v.registry == found.registry && v.compositor == found.compositor
            &&& v.shm == found.shm && v.viewporter == found.viewporter
            &&& v.layer_shell == found.layer_shell
            &&& v.fractional_scale_manager == found.fractional_scale_manager
        }),
{
}

/// Two animators of a list, and what they count for together.
proof fn lemma_two_animators(animators: Seq<AnimatorView>, i: int, j: int, id: u64)
    requires
        0 <= i < j < animators.len(),
    ensures
        crate::animator::holders(animators, id) >= crate::animator::occurrences(
            animators[i].wallpapers,
            id,
        ) + crate::animator::occurrences(animators[j].wallpapers, id),
        animators[i].id == id && animators[j].id == id ==> crate::animator::bearers(animators, id)
            >= 2,
    decreases animators.len(),
{
    let rest = animators.drop_last();
    if j < rest.len() {
        lemma_two_animators(rest, i, j, id);
    } else {
        crate::animator::lemma_holders_member(rest, i, id);
    }
}

/// What stands twice in a list occurs twice.
proof fn lemma_two_occurrences(list: Seq<u64>, p: int, q: int)
    requires
        0 <= p < q < list.len(),
        list[p] == list[q],
    ensures
        crate::animator::occurrences(list, list[p]) >= 2,
    decreases list.len(),
{
    let rest = list.drop_last();
    if q < rest.len() {
        lemma_two_occurrences(rest, p, q);
    } else {
        assert(rest[p] == list[p]);
        crate::animator::lemma_occurrences_contains(rest, list[p]);
    }
}

/// What else holds of the daemon between any two events: no animator has the id of another of the
/// same list or of the other one, nor one that is yet to be given; and no wallpaper is twice in an
/// animator, or in two animators of a list.
pub proof fn law_animators_never_share(
    v: DaemonView,
    lane: Lane,
    animators: Seq<AnimatorView>,
    i: int,
    j: int,
    p: int,
    q: int,
)
    requires
        v.wf(),
        lane is Transitions ==> animators == v.transition_animators,
        lane is Images ==> animators == v.image_animators,
    ensures
        0 <= i < j < animators.len() ==> animators[i].id != animators[j].id,
        0 <= i < animators.len() ==> animators[i].id < v.next_id,
        0 <= i < v.transition_animators.len() && 0 <= j < v.image_animators.len()
            ==> v.transition_animators[i].id != v.image_animators[j].id,
        0 <= i < animators.len() && 0 <= p < q < animators[i].wallpapers.len()
            ==> animators[i].wallpapers[p] != animators[i].wallpapers[q],
        0 <= i < j < animators.len() && 0 <= p < animators[i].wallpapers.len() && 0 <= q
            < animators[j].wallpapers.len() ==> animators[i].wallpapers[p]
            != animators[j].wallpapers[q],
{
    if 0 <= i < animators.len() {
        let id = animators[i].id;
        crate::animator::lemma_holders_member(animators, i, id);
        assert(v.animators_named(id) > 0);
        if i < j < animators.len() {
            lemma_two_animators(animators, i, j, id);
            assert(v.animators_named(id) <= 1);
        }
        if 0 <= p < animators[i].wallpapers.len() {
            let w = animators[i].wallpapers[p];
            assert(v.driven(w) <= 1);
            crate::animator::lemma_holders_member(animators, i, w);
            if p < q < animators[i].wallpapers.len() && animators[i].wallpapers[q] == w {
                lemma_two_occurrences(animators[i].wallpapers, p, q);
            }
            if i < j < animators.len() && 0 <= q < animators[j].wallpapers.len()
                && animators[j].wallpapers[q] == w {
                crate::animator::lemma_occurrences_contains(animators[i].wallpapers, w);
                crate::animator::lemma_occurrences_contains(animators[j].wallpapers, w);
                lemma_two_animators(animators, i, j, w);
            }
        }
    }
    if 0 <= i < v.transition_animators.len() && 0 <= j < v.image_animators.len() {
        let id = v.transition_animators[i].id;
        crate::animator::lemma_holders_member(v.transition_animators, i, id);
        crate::animator::lemma_holders_member(v.image_animators, j, id);
        assert(v.animators_named(id) <= 1);
    }
}

} // verus!
