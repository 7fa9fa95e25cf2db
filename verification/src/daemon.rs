//! The state of the daemon, and the operations on it that several events share.

use vstd::prelude::*;
use crate::animator::{detach, lists, Animator, AnimatorView};
use crate::exit::{exit_daemon, ExitFlag};
use crate::format::PixelFormat;
use crate::objects::{Objects, WaylandObject};
use crate::time::Timespec;
use crate::wallpaper::{Handles, Mark, Wallpaper, WallpaperView};
use crate::animator;
use crate::objects;
use crate::time;
use crate::wallpaper;

verus! {

/// The layer on which the wallpapers are shown.
#[derive(Clone, Copy, Debug, PartialEq, Eq, Structural)]
pub enum Layer {
    Background,
    Bottom,
    Top,
    Overlay,
}

/// What the user asked for on the command line.
pub struct Cli {
    pub format: Option<PixelFormat>,
    pub layer: Layer,
    pub namespace: String,
    pub no_cache: bool,
    pub quiet: bool,
}

/// The state of the daemon.
pub struct Daemon {
    pub objects: Objects,
    pub registry: u32,
    pub compositor: u32,
    pub shm: u32,
    pub viewporter: u32,
    pub layer_shell: u32,
    pub layer: Layer,
    pub pixel_format: PixelFormat,
    pub wallpapers: Vec<Wallpaper>,
    pub transition_animators: Vec<Animator>,
    pub image_animators: Vec<Animator>,
    pub namespace: String,
    pub use_cache: bool,
    pub fractional_scale_manager: Option<u32>,
    /// How long the next poll may wait. While it is set there is something to draw.
    pub poll_time: Option<Timespec>,
    /// Whether the user has chosen the pixel format.
    pub forced_shm_format: bool,
    /// The registry names of the outputs that wait for the pixel format to be settled.
    pub output_globals: Option<Vec<u32>>,
    /// The callback that tells that every pixel format has been announced.
    pub callback: Option<u32>,
    pub exit: ExitFlag,
    /// The id of the next wallpaper or animator.
    pub next_id: u64,
}

/// The mathematical counterpart of [`Daemon`].
#[verifier::ext_equal]
pub struct DaemonView {
    pub objects: Seq<Option<WaylandObject>>,
    pub registry: u32,
    pub compositor: u32,
    pub shm: u32,
    pub viewporter: u32,
    pub layer_shell: u32,
    pub layer: Layer,
    pub pixel_format: PixelFormat,
    pub wallpapers: Seq<WallpaperView>,
    pub transition_animators: Seq<AnimatorView>,
    pub image_animators: Seq<AnimatorView>,
    pub namespace: Seq<char>,
    pub use_cache: bool,
    pub fractional_scale_manager: Option<u32>,
    pub poll_time: Option<Timespec>,
    pub forced_shm_format: bool,
    pub output_globals: Option<Seq<u32>>,
    pub callback: Option<u32>,
    pub exit: bool,
    pub next_id: u64,
}

/// The elements of a vector that may be missing.
pub open spec fn opt_seq(v: Option<Vec<u32>>) -> Option<Seq<u32>> {
    match v {
        Some(v) => Some(v@),
        None => None,
    }
}

/// The strings of a list, each by its characters.
pub open spec fn strings_view(v: Seq<String>) -> Seq<Seq<char>> {
    v.map_values(|s: String| s@)
}

impl View for Daemon {
    type V = DaemonView;

    open spec fn view(&self) -> DaemonView {
        DaemonView {
            objects: self.objects@,
            registry: self.registry,
            compositor: self.compositor,
            shm: self.shm,
            viewporter: self.viewporter,
            layer_shell: self.layer_shell,
            layer: self.layer,
            pixel_format: self.pixel_format,
            wallpapers: wallpaper::wallpapers_view(self.wallpapers@),
            transition_animators: animator::animators_view(self.transition_animators@),
            image_animators: animator::animators_view(self.image_animators@),
            namespace: self.namespace@,
            use_cache: self.use_cache,
            fractional_scale_manager: self.fractional_scale_manager,
            poll_time: self.poll_time,
            forced_shm_format: self.forced_shm_format,
            output_globals: opt_seq(self.output_globals),
            callback: self.callback,
            exit: self.exit.raised,
            next_id: self.next_id,
        }
    }
}

/// `id` is the id of one of `ws`.
pub open spec fn known(ws: Seq<WallpaperView>, id: u64) -> bool {
    exists|i: int| 0 <= i < ws.len() && (#[trigger] ws[i]).id == id
}

/// No two of `ws` have the same id.
pub open spec fn ids_distinct(ws: Seq<WallpaperView>) -> bool {
    forall|i: int, j: int|
        0 <= i < ws.len() && 0 <= j < ws.len() && i != j ==> (#[trigger] ws[i]).id != (
        #[trigger] ws[j]).id
}

/// Holds of the wallpapers that one of `names` names, and of every wallpaper where no name is
/// given.
pub open spec fn addressed(names: Seq<Seq<char>>) -> spec_fn(WallpaperView) -> bool {
    |w: WallpaperView|
        names.len() == 0 || exists|k: int| 0 <= k < names.len() && w.has_name(#[trigger] names[k])
}

/// The ids of `ws`, in order.
pub open spec fn ids_of(ws: Seq<WallpaperView>) -> Seq<u64> {
    ws.map_values(|w: WallpaperView| w.id)
}

impl DaemonView {
    /// How often animators drive the wallpaper `id`.
    pub open spec fn driven(self, id: u64) -> nat {
        animator::holders(self.transition_animators, id) + animator::holders(self.image_animators, id)
    }

    /// How many animators bear `id`.
    pub open spec fn animators_named(self, id: u64) -> nat {
        animator::bearers(self.transition_animators, id) + animator::bearers(self.image_animators, id)
    }

    /// What holds of the daemon between any two events. A wallpaper that waits for a frame callback
    /// can take no frame; every wallpaper is told from every other; a wallpaper that is animated is
    /// still there, and is animated by one animator only; animators are told from one another; and
    /// outputs wait exactly as long as the callback that releases them is outstanding.
    pub open spec fn wf(self) -> bool {
        &&& self.callback is Some <==> self.output_globals is Some
        &&& forall|i: int| 0 <= i < self.wallpapers.len() ==> (#[trigger] self.wallpapers[i]).wf()
        &&& ids_distinct(self.wallpapers)
        &&& forall|i: int|
            0 <= i < self.wallpapers.len() ==> (#[trigger] self.wallpapers[i]).id < self.next_id
        &&& forall|id: u64| (#[trigger] self.driven(id)) <= 1
        &&& forall|id: u64| (#[trigger] self.driven(id)) > 0 ==> known(self.wallpapers, id)
        &&& forall|id: u64| (#[trigger] self.animators_named(id)) <= 1
        &&& forall|id: u64| (#[trigger] self.animators_named(id)) > 0 ==> id < self.next_id
    }

    /// The daemon at its start, with the objects that were found for it.
    pub open spec fn starting(
        found: DaemonView,
        args: Cli,
        output_globals: Seq<u32>,
    ) -> DaemonView {
        DaemonView {
            layer: args.layer,
            pixel_format: match args.format {
                Some(format) => format,
                None => PixelFormat::Xrgb,
            },
            wallpapers: Seq::empty(),
            transition_animators: Seq::empty(),
            image_animators: Seq::empty(),
            namespace: args.namespace@,
            use_cache: !args.no_cache,
            poll_time: None,
            forced_shm_format: args.format is Some,
            output_globals: Some(output_globals),
            exit: false,
            next_id: 0,
            ..found
        }
    }

    /// The daemon with its poll time lowered to `time`, if that is earlier.
    pub open spec fn set_poll_time(self, time: Timespec) -> DaemonView {
        DaemonView { poll_time: Some(time::earliest(self.poll_time, time)), ..self }
    }

    /// The daemon with another wallpaper, on the output `output_name`.
    pub open spec fn new_output(self, output_name: u32, handles: Handles) -> DaemonView {
        DaemonView {
            wallpapers: self.wallpapers.push(
                WallpaperView::fresh(self.next_id, output_name, handles),
            ),
            next_id: (self.next_id + 1) as u64,
            ..self
        }
    }

    /// The ids of the wallpapers that `names` address, in order.
    pub open spec fn find_wallpapers_by_names(self, names: Seq<Seq<char>>) -> Seq<u64> {
        ids_of(self.wallpapers.filter(addressed(names)))
    }

    /// The daemon once nothing animates the wallpapers `ids`, and animators that were left
    /// without a wallpaper are gone.
    pub open spec fn stop_animations(self, ids: Seq<u64>) -> DaemonView {
        DaemonView {
            transition_animators: animator::detached(self.transition_animators, ids),
            image_animators: animator::detached(self.image_animators, ids),
            ..self
        }
    }

    /// The daemon once `mark` has happened to the wallpapers `ids`.
    pub open spec fn mark(self, ids: Seq<u64>, mark: Mark) -> DaemonView {
        DaemonView {
            wallpapers: self.wallpapers.map_values(
                |w: WallpaperView|
                    if ids.contains(w.id) {
                        w.marked(mark)
                    } else {
                        w
                    },
            ),
            ..self
        }
    }

    /// The daemon without the wallpaper at position `i`, and with nothing animating it.
    pub open spec fn remove_wallpaper(self, i: int) -> DaemonView {
        DaemonView { wallpapers: self.wallpapers.remove(i), ..self }.stop_animations(
            seq![self.wallpapers[i].id],
        )
    }
}

/// Stopping animations keeps what holds of the daemon.
pub proof fn lemma_stop_animations_wf(v: DaemonView, ids: Seq<u64>)
    requires
        v.wf(),
    ensures
        v.stop_animations(ids).wf(),
        forall|id: u64|
            (#[trigger] v.stop_animations(ids).driven(id)) == if ids.contains(id) {
                0
            } else {
                v.driven(id)
            },
{
    let u = v.stop_animations(ids);
    assert forall|id: u64| (#[trigger] u.driven(id)) == if ids.contains(id) {
        0
    } else {
        v.driven(id)
    } by {
        animator::lemma_holders_detached(v.transition_animators, ids, id);
        animator::lemma_holders_detached(v.image_animators, ids, id);
    }
    assert forall|id: u64| (#[trigger] u.animators_named(id)) <= v.animators_named(id) by {
        animator::lemma_holders_detached(v.transition_animators, ids, id);
        animator::lemma_holders_detached(v.image_animators, ids, id);
    }
    assert forall|id: u64| (#[trigger] u.driven(id)) > 0 implies known(u.wallpapers, id) by {
        assert(v.driven(id) > 0);
    }
}

/// Removing a wallpaper keeps what holds of the daemon, and leaves no trace of the wallpaper.
pub proof fn lemma_remove_wallpaper_wf(v: DaemonView, i: int)
    requires
        v.wf(),
        0 <= i < v.wallpapers.len(),
    ensures
        v.remove_wallpaper(i).wf(),
        !known(v.remove_wallpaper(i).wallpapers, v.wallpapers[i].id),
        v.remove_wallpaper(i).driven(v.wallpapers[i].id) == 0,
{
    let gone = v.wallpapers[i].id;
    let u = v.remove_wallpaper(i);
    let ids = seq![gone];
    assert(ids[0] == gone);
    lemma_stop_animations_wf(v, ids);
    let stopped = v.stop_animations(ids);
    let left = v.wallpapers.remove(i);
    assert forall|id: u64| (#[trigger] u.driven(id)) == stopped.driven(id) by {}
    assert forall|id: u64| (#[trigger] u.animators_named(id)) == stopped.animators_named(id) by {}
    assert forall|j: int| 0 <= j < left.len() implies (#[trigger] left[j]) == v.wallpapers[if j
        < i {
        j
    } else {
        j + 1
    }] by {}
    assert(ids_distinct(left));
    assert forall|id: u64| (#[trigger] u.driven(id)) > 0 implies known(u.wallpapers, id) by {
        assert(stopped.driven(id) > 0);
        assert(!ids.contains(id));
        assert(known(v.wallpapers, id));
        let k = choose|k: int| 0 <= k < v.wallpapers.len() && (#[trigger] v.wallpapers[k]).id == id;
        assert(k != i);
        assert(left[if k < i {
            k
        } else {
            k - 1
        }].id == id);
    }
}

/// What is not part of the lists does not bear on what holds of the daemon.
pub proof fn lemma_rest_wf(v: DaemonView, u: DaemonView)
    requires
        v.wf(),
        u.wallpapers == v.wallpapers,
        u.transition_animators == v.transition_animators,
        u.image_animators == v.image_animators,
        u.next_id == v.next_id,
        u.callback is Some <==> u.output_globals is Some,
    ensures
        u.wf(),
{
    assert forall|id: u64| (#[trigger] u.driven(id)) == v.driven(id) by {}
    assert forall|id: u64| (#[trigger] u.animators_named(id)) == v.animators_named(id) by {}
}

/// A wallpaper more keeps what holds of the daemon.
pub proof fn lemma_new_output_wf(v: DaemonView, output_name: u32, handles: Handles)
    requires
        v.wf(),
        v.next_id < u64::MAX,
    ensures
        v.new_output(output_name, handles).wf(),
{
    let u = v.new_output(output_name, handles);
    assert forall|id: u64| (#[trigger] u.driven(id)) == v.driven(id) by {}
    assert forall|id: u64| (#[trigger] u.animators_named(id)) == v.animators_named(id) by {}
    assert forall|id: u64| (#[trigger] u.driven(id)) > 0 implies known(u.wallpapers, id) by {
        assert(known(v.wallpapers, id));
        let k = choose|k: int| 0 <= k < v.wallpapers.len() && (#[trigger] v.wallpapers[k]).id == id;
        assert(u.wallpapers[k].id == id);
    }
    assert(ids_distinct(u.wallpapers));
}

/// Changing what is known of wallpapers keeps what holds of the daemon.
pub proof fn lemma_same_ids_wf(v: DaemonView, u: DaemonView)
    requires
        v.wf(),
        u == (DaemonView { wallpapers: u.wallpapers, ..v }),
        u.wallpapers.len() == v.wallpapers.len(),
        forall|j: int|
            0 <= j < u.wallpapers.len() ==> (#[trigger] u.wallpapers[j]).id == v.wallpapers[j].id
                && u.wallpapers[j].wf(),
    ensures
        u.wf(),
{
    assert forall|id: u64| (#[trigger] u.driven(id)) == v.driven(id) by {}
    assert forall|id: u64| (#[trigger] u.animators_named(id)) == v.animators_named(id) by {}
    assert forall|id: u64| (#[trigger] u.driven(id)) > 0 implies known(u.wallpapers, id) by {
        assert(v.driven(id) > 0);
        let k = choose|k: int| 0 <= k < v.wallpapers.len() && (#[trigger] v.wallpapers[k]).id == id;
        assert(u.wallpapers[k].id == id);
    }
    assert(ids_distinct(u.wallpapers));
}

/// What is found by name is found once, and is there.
pub proof fn lemma_named_distinct(ws: Seq<WallpaperView>, pred: spec_fn(WallpaperView) -> bool)
    requires
        ids_distinct(ws),
    ensures
        ids_of(ws.filter(pred)).no_duplicates(),
        forall|id: u64| #[trigger]
            ids_of(ws.filter(pred)).contains(id) <==> exists|i: int|
                0 <= i < ws.len() && (#[trigger] ws[i]).id == id && pred(ws[i]),
    decreases ws.len(),
{
    reveal(Seq::filter);
    let found = ids_of(ws.filter(pred));
    if ws.len() > 0 {
        let rest = ws.drop_last();
        let found_rest = ids_of(rest.filter(pred));
        assert(ids_distinct(rest)) by {
            assert forall|i: int, j: int|
                0 <= i < rest.len() && 0 <= j < rest.len() && i != j implies (
            #[trigger] rest[i]).id != (#[trigger] rest[j]).id by {
                assert(ws[i].id != ws[j].id);
            }
        }
        lemma_named_distinct(rest, pred);
        if pred(ws.last()) {
            assert(found =~= found_rest.push(ws.last().id));
            assert(!found_rest.contains(ws.last().id)) by {
                if found_rest.contains(ws.last().id) {
                    let i = choose|i: int|
                        0 <= i < rest.len() && (#[trigger] rest[i]).id == ws.last().id && pred(
                            rest[i],
                        );
                    assert(ws[i].id != ws[ws.len() - 1].id);
                }
            }
        } else {
            assert(found =~= found_rest);
        }
        assert forall|id: u64| #[trigger] found.contains(id) <==> exists|i: int|
            0 <= i < ws.len() && (#[trigger] ws[i]).id == id && pred(ws[i]) by {
            if found.contains(id) {
                if found_rest.contains(id) {
                    let i = choose|i: int|
                        0 <= i < rest.len() && (#[trigger] rest[i]).id == id && pred(rest[i]);
                    assert(ws[i].id == id && pred(ws[i]));
                } else {
                    assert(ws[ws.len() - 1].id == id && pred(ws[ws.len() - 1]));
                }
            }
            if exists|i: int| 0 <= i < ws.len() && (#[trigger] ws[i]).id == id && pred(ws[i]) {
                let i = choose|i: int|
                    0 <= i < ws.len() && (#[trigger] ws[i]).id == id && pred(ws[i]);
                if i < rest.len() {
                    assert(rest[i].id == id && pred(rest[i]));
                    assert(found_rest.contains(id));
                    let k = choose|k: int| 0 <= k < found_rest.len() && found_rest[k] == id;
                    assert(found[k] == id);
                } else {
                    assert(found[found.len() - 1] == id);
                }
            }
        }
    }
}

/// One entry of the answer to a query: the wallpaper to describe, and the format it is drawn in.
#[derive(Clone, Copy, Debug, PartialEq, Eq, Structural)]
pub struct BgInfo {
    pub wallpaper: u64,
    pub pixel_format: PixelFormat,
}

impl Daemon {
    /// What holds of the daemon between any two events.
    pub open spec fn wf(&self) -> bool {
        self.objects.wf() && self@.wf()
    }

    /// A daemon that waits to be told the pixel formats. The globals it cannot do without must
    /// have been bound. `output_globals` are the registry names of the outputs.
    pub fn new(objects: Objects, args: Cli, output_globals: Vec<u32>) -> (daemon: Daemon)
        requires
            objects.wf(),
            objects@.len() < u32::MAX,
            objects::alive(objects@).contains(WaylandObject::Registry),
            objects::alive(objects@).contains(WaylandObject::Compositor),
            objects::alive(objects@).contains(WaylandObject::Shm),
            objects::alive(objects@).contains(WaylandObject::LayerShell),
            objects::alive(objects@).contains(WaylandObject::Viewporter),
        ensures
            daemon.wf(),
            daemon.callback is Some,
            daemon.callback->0 >= 1,
            objects::is_first_free(objects@, daemon.callback->0 - 1),
            objects::is_first_of(objects::alive(objects@), WaylandObject::Registry, Some(daemon.registry)),
            objects::is_first_of(objects::alive(objects@), WaylandObject::Compositor, Some(daemon.compositor)),
            objects::is_first_of(objects::alive(objects@), WaylandObject::Shm, Some(daemon.shm)),
            objects::is_first_of(objects::alive(objects@), WaylandObject::LayerShell, Some(daemon.layer_shell)),
            objects::is_first_of(objects::alive(objects@), WaylandObject::Viewporter, Some(daemon.viewporter)),
            objects::is_first_of(
                objects::alive(objects@),
                WaylandObject::FractionalScaler,
                daemon.fractional_scale_manager,
            ),
            daemon@ == DaemonView::starting(daemon@, args, output_globals@),
            daemon@ == (DaemonView {
                objects: objects::spec_create(objects@, daemon.callback->0, WaylandObject::Callback),
                registry: daemon.registry,
                compositor: daemon.compositor,
                shm: daemon.shm,
                viewporter: daemon.viewporter,
                layer_shell: daemon.layer_shell,
                layer: args.layer,
                pixel_format: match args.format {
                    Some(format) => format,
                    None => PixelFormat::Xrgb,
                },
                wallpapers: Seq::empty(),
                transition_animators: Seq::empty(),
                image_animators: Seq::empty(),
                namespace: args.namespace@,
                use_cache: !args.no_cache,
                fractional_scale_manager: daemon.fractional_scale_manager,
                poll_time: None,
                forced_shm_format: args.format is Some,
                output_globals: Some(output_globals@),
                callback: daemon.callback,
                exit: false,
                next_id: 0,
            }),
    {
        let mut objects = objects;
        let registry = objects.get_first(WaylandObject::Registry).unwrap();
        let compositor = objects.get_first(WaylandObject::Compositor).unwrap();
        let shm = objects.get_first(WaylandObject::Shm).unwrap();
        let layer_shell = objects.get_first(WaylandObject::LayerShell).unwrap();
        let viewporter = objects.get_first(WaylandObject::Viewporter).unwrap();
        let fractional_scale_manager = objects.get_first(WaylandObject::FractionalScaler);
        let callback = objects.create(WaylandObject::Callback);
        let daemon = Daemon {
            objects,
            registry,
            compositor,
            shm,
            viewporter,
            layer_shell,
            layer: args.layer,
            pixel_format: match args.format {
                Some(format) => format,
                None => PixelFormat::Xrgb,
            },
            wallpapers: Vec::new(),
            transition_animators: Vec::new(),
            image_animators: Vec::new(),
            namespace: args.namespace,
            use_cache: !args.no_cache,
            fractional_scale_manager,
            poll_time: None,
            forced_shm_format: args.format.is_some(),
            output_globals: Some(output_globals),
            callback: Some(callback),
            exit: ExitFlag::new(),
            next_id: 0,
        };
        proof {
            assert(daemon@.wallpapers =~= Seq::empty());
            assert(daemon@.transition_animators =~= Seq::empty());
            assert(daemon@.image_animators =~= Seq::empty());
        }
        daemon
    }

    /// Asks the daemon to terminate.
    pub fn raise_exit(&mut self)
        ensures
            final(self)@ == (DaemonView { exit: true, ..old(self)@ }),
            old(self).wf() ==> final(self).wf(),
    {
        exit_daemon(&mut self.exit);
        proof {
            if old(self).wf() {
                lemma_rest_wf(old(self)@, self@);
            }
        }
    }

    /// Lowers the poll time to `new_time`, if that is earlier.
    pub fn set_poll_time(&mut self, new_time: Timespec)
        ensures
            final(self)@ == old(self)@.set_poll_time(new_time),
            old(self).wf() ==> final(self).wf(),
    {
        match self.poll_time {
            None => {
                self.poll_time = Some(new_time);
            },
            Some(t) => {
                if new_time.is_before(&t) {
                    self.poll_time = Some(new_time);
                }
            },
        }
        proof {
            if old(self).wf() {
                lemma_rest_wf(old(self)@, self@);
            }
        }
    }

    /// Adds the wallpaper of the output `output_name`, for which `handles` were made, and
    /// returns its id.
    pub fn new_output(&mut self, output_name: u32, handles: Handles) -> (id: u64)
        requires
            old(self).wf(),
            old(self).next_id < u64::MAX,
        ensures
            final(self).wf(),
            id == old(self).next_id,
            final(self)@ == old(self)@.new_output(output_name, handles),
    {
        let id: u64 = self.next_id;
        self.wallpapers.push(Wallpaper::new(id, output_name, handles));
        self.next_id = id + 1;
        proof {
            assert(self@.wallpapers =~= old(self)@.new_output(output_name, handles).wallpapers);
            lemma_new_output_wf(old(self)@, output_name, handles);
        }
        id
    }

    /// What a query is answered: every wallpaper, in order.
    pub fn wallpapers_info(&self) -> (r: Vec<BgInfo>)
        ensures
            r@ == self@.wallpapers_info(),
            r@ == self@.wallpapers.map_values(
                |w: WallpaperView|
                    (BgInfo { wallpaper: w.id, pixel_format: self.pixel_format }),
            ),
    {
        let mut r: Vec<BgInfo> = Vec::new();
        let mut i: usize = 0;
        while i < self.wallpapers.len()
            invariant
                i <= self.wallpapers.len(),
                r@.len() == i,
                forall|j: int|
                    0 <= j < i ==> r@[j] == (BgInfo {
                        wallpaper: (#[trigger] self.wallpapers@[j]).id,
                        pixel_format: self.pixel_format,
                    }),
            decreases self.wallpapers.len() - i,
        {
            r.push(BgInfo { wallpaper: self.wallpapers[i].id, pixel_format: self.pixel_format });
            i += 1;
        }
        r
    }

    /// The ids of the wallpapers that `names` address: of all of them where no name is given.
    pub fn find_wallpapers_by_names(&self, names: &Vec<String>) -> (r: Vec<u64>)
        ensures
            r@ == self@.find_wallpapers_by_names(strings_view(names@)),
    {
        let ghost ws = self@.wallpapers;
        let ghost pred = addressed(strings_view(names@));
        let mut r: Vec<u64> = Vec::new();
        let mut i: usize = 0;
        proof {
            reveal(Seq::filter);
            assert(ids_of(ws.take(0).filter(pred)) =~= Seq::<u64>::empty());
        }
        while i < self.wallpapers.len()
            invariant
                i <= self.wallpapers.len(),
                ws == self@.wallpapers,
                pred == addressed(strings_view(names@)),
                r@ == ids_of(ws.take(i as int).filter(pred)),
            decreases self.wallpapers.len() - i,
        {
            let named = names.len() == 0 || any_name(&self.wallpapers[i], names);
            proof {
                let w = ws[i as int];
                ws.take(i as int).lemma_filter_push(w, pred);
                assert(ws.take(i as int).push(w) =~= ws.take(i + 1));
                assert(named == pred(w));
                assert(ids_of(ws.take(i as int).filter(pred).push(w)) =~= ids_of(
                    ws.take(i as int).filter(pred),
                ).push(w.id));
            }
            if named {
                r.push(self.wallpapers[i].id);
            }
            i += 1;
        }
        proof {
            assert(ws.take(i as int) =~= ws);
        }
        r
    }

    /// Takes the wallpapers `ids` from every animator, and drops the animators left without any.
    pub fn stop_animations(&mut self, ids: &Vec<u64>)
        ensures
            final(self)@ == old(self)@.stop_animations(ids@),
            final(self).objects == old(self).objects,
            old(self).wf() ==> final(self).wf(),
    {
        self.transition_animators = detach(&self.transition_animators, ids);
        self.image_animators = detach(&self.image_animators, ids);
        proof {
            if old(self).wf() {
                lemma_stop_animations_wf(old(self)@, ids@);
            }
        }
    }

    /// Notes what has happened to the wallpapers `ids`.
    pub fn mark(&mut self, ids: &Vec<u64>, mark: &Mark)
        ensures
            final(self)@ == old(self)@.mark(ids@, *mark),
            final(self).objects == old(self).objects,
            old(self).wf() ==> final(self).wf(),
    {
        let ghost ws = self@.wallpapers;
        let ghost goal = self@.mark(ids@, *mark);
        let mut i: usize = 0;
        while i < self.wallpapers.len()
            invariant
                i <= self.wallpapers.len(),
                ws == old(self)@.wallpapers,
                goal == old(self)@.mark(ids@, *mark),
                self.objects == old(self).objects,
                self.wallpapers.len() == ws.len(),
                self@ == (DaemonView {
                    wallpapers: goal.wallpapers.take(i as int) + ws.skip(i as int),
                    ..old(self)@
                }),
            decreases self.wallpapers.len() - i,
        {
            let ghost before = self@.wallpapers;
            assert(before[i as int] == ws[i as int]);
            if lists(ids, self.wallpapers[i].id) {
                self.wallpapers[i].mark(mark);
            }
            proof {
                assert(self@.wallpapers =~= before.update(i as int, goal.wallpapers[i as int]));
                assert(self@.wallpapers =~= goal.wallpapers.take(i + 1) + ws.skip(i + 1));
            }
            i += 1;
        }
        proof {
            assert(self@.wallpapers =~= goal.wallpapers);
            if old(self).wf() {
                lemma_same_ids_wf(old(self)@, self@);
            }
        }
    }

    /// Removes the wallpaper at position `i` and stops its animations. The wallpaper is returned
    /// to be destroyed.
    pub fn remove_wallpaper(&mut self, i: usize) -> (w: Wallpaper)
        requires
            i < old(self).wallpapers.len(),
        ensures
            w@ == old(self)@.wallpapers[i as int],
            final(self)@ == old(self)@.remove_wallpaper(i as int),
            old(self).wf() ==> final(self).wf(),
    {
        let w = self.wallpapers.remove(i);
        let mut ids: Vec<u64> = Vec::new();
        ids.push(w.id);
        self.stop_animations(&ids);
        proof {
            assert(ids@ =~= seq![old(self)@.wallpapers[i as int].id]);
            assert(wallpaper::wallpapers_view(old(self).wallpapers@.remove(i as int)) =~= wallpaper::wallpapers_view(
                old(self).wallpapers@,
            ).remove(i as int));
            assert(self@ =~= old(self)@.remove_wallpaper(i as int));
            if old(self).wf() {
                lemma_remove_wallpaper_wf(old(self)@, i as int);
            }
        }
        w
    }
}

/// Whether one of `names` names the wallpaper.
fn any_name(w: &Wallpaper, names: &Vec<String>) -> (r: bool)
    ensures
        r == exists|k: int|
            0 <= k < names@.len() && w@.has_name(#[trigger] strings_view(names@)[k]),
{
    let ghost all = strings_view(names@);
    let mut k: usize = 0;
    while k < names.len()
        invariant
            k <= names.len(),
            all == strings_view(names@),
            forall|j: int| 0 <= j < k ==> !w@.has_name(#[trigger] all[j]),
        decreases names.len() - k,
    {
        if w.has_name(&names[k]) {
            assert(w@.has_name(all[k as int]));
            return true;
        }
        k += 1;
    }
    false
}

} // verus!
