//! What the events of the compositor do to the daemon.

use vstd::prelude::*;
use vstd::string::*;
use crate::animator::{lists, Animator};
use crate::daemon::{Daemon, DaemonView, Layer};
use crate::format::{select, ShmFormat};
use crate::objects::{str_eq, WaylandObject};
use crate::wallpaper::{
    find_first, Detail, Handles, Key, Mark, Scale, Transform, Wallpaper, WallpaperView,
};

verus! {

/// The lowest version of `wl_output` the daemon works with.
pub const MIN_OUTPUT_VERSION: u32 = 4;

/// The flag of the mode that an output is in.
pub const MODE_CURRENT: u32 = 1;

/// What to do about a global that has appeared.
#[derive(Clone, Copy, Debug, PartialEq, Eq, Structural)]
pub enum GlobalAction {
    /// It is no output.
    Ignore,
    /// It is an output of a version that is too low.
    TooOld,
    /// Make a wallpaper for the output of this registry name, on this layer.
    NewOutput { name: u32, layer: Layer },
}

/// What became of something the compositor announced of a wallpaper.
#[derive(Clone, Copy, Debug, PartialEq, Eq, Structural)]
pub enum Outcome {
    /// No wallpaper is meant.
    Unknown,
    /// The value makes no sense, and was dropped.
    Rejected,
    /// The wallpaper of this id has it.
    Applied(u64),
}

/// What to do about a callback that has fired.
pub enum CallbackAction {
    /// Every pixel format is known: make wallpapers for the outputs of these registry names, on
    /// this layer.
    CreateOutputs { names: Vec<u32>, layer: Layer },
    /// The wallpaper of this id may draw its next frame, which is noted.
    FrameCompleted(u64),
    /// Nothing waits for it.
    Ignore,
}

/// The mathematical counterpart of [`CallbackAction`].
#[verifier::ext_equal]
pub enum CallbackActionView {
    CreateOutputs { names: Seq<u32>, layer: Layer },
    FrameCompleted(u64),
    Ignore,
}

impl View for CallbackAction {
    type V = CallbackActionView;

    open spec fn view(&self) -> CallbackActionView {
        match *self {
            CallbackAction::CreateOutputs { names, layer } => CallbackActionView::CreateOutputs {
                names: names@,
                layer,
            },
            CallbackAction::FrameCompleted(id) => CallbackActionView::FrameCompleted(id),
            CallbackAction::Ignore => CallbackActionView::Ignore,
        }
    }
}

/// A wallpaper, if there is one.
pub open spec fn opt_wallpaper(w: Option<Wallpaper>) -> Option<WallpaperView> {
    match w {
        Some(w) => Some(w@),
        None => None,
    }
}

/// A surface to commit: that of this wallpaper. Where that changes the surface, what the wallpaper
/// has shown under the namespace may be loaded from the cache.
pub struct SurfaceCommit {
    pub wallpaper: u64,
    pub namespace: String,
    pub use_cache: bool,
}

/// The mathematical counterpart of [`SurfaceCommit`].
pub struct SurfaceCommitView {
    pub wallpaper: u64,
    pub namespace: Seq<char>,
    pub use_cache: bool,
}

impl View for SurfaceCommit {
    type V = SurfaceCommitView;

    open spec fn view(&self) -> SurfaceCommitView {
        SurfaceCommitView {
            wallpaper: self.wallpaper,
            namespace: self.namespace@,
            use_cache: self.use_cache,
        }
    }
}

/// A commit, if there is one.
pub open spec fn opt_commit(commit: Option<SurfaceCommit>) -> Option<SurfaceCommitView> {
    match commit {
        Some(commit) => Some(commit@),
        None => None,
    }
}

/// What became of a scale factor after which a surface has to be committed.
pub enum ScaleOutcome {
    /// No wallpaper is meant.
    Unknown,
    /// The factor makes no sense, and was dropped.
    Rejected,
    /// The wallpaper has it, and its surface has to be committed.
    Commit(SurfaceCommit),
}

/// An acknowledgement to send.
#[derive(Clone, Copy, Debug, PartialEq, Eq, Structural)]
pub struct AckConfigure {
    pub layer_surface: u32,
    pub serial: u32,
}

/// The search for the wallpaper to which a released buffer belongs.
#[derive(Clone, Copy, Debug, PartialEq, Eq, Structural)]
pub enum ReleaseStage {
    /// Offer the buffer to this wallpaper, which is held `strong_count` times.
    Offer { buffer: u32, index: usize, wallpaper: u64, strong_count: usize },
    /// The wallpaper last offered it has taken it.
    Taken,
    /// No wallpaper has taken it.
    NotFound,
}

impl DaemonView {
    /// The daemon with `w` as the wallpaper at position `i`.
    pub open spec fn with_wallpaper(self, i: int, w: WallpaperView) -> DaemonView {
        DaemonView { wallpapers: self.wallpapers.update(i, w), ..self }
    }

    /// The first wallpaper that `key` names has had `f` done to it.
    pub open spec fn apply(
        self,
        key: Key,
        f: spec_fn(WallpaperView) -> WallpaperView,
    ) -> DaemonView {
        match crate::wallpaper::first_match(self.wallpapers, key) {
            Some(i) => self.with_wallpaper(i, f(self.wallpapers[i])),
            None => self,
        }
    }

    /// The first wallpaper that `key` names is gone.
    pub open spec fn remove_first(self, key: Key) -> DaemonView {
        match crate::wallpaper::first_match(self.wallpapers, key) {
            Some(i) => self.remove_wallpaper(i),
            None => self,
        }
    }

    /// The id of the first wallpaper that `key` names.
    pub open spec fn first_id(self, key: Key) -> Option<u64> {
        match crate::wallpaper::first_match(self.wallpapers, key) {
            Some(i) => Some(self.wallpapers[i].id),
            None => None,
        }
    }

    /// What becomes of a value for the first wallpaper that `key` names.
    pub open spec fn outcome(self, key: Key, sensible: bool) -> Outcome {
        match self.first_id(key) {
            None => Outcome::Unknown,
            Some(id) => if sensible {
                Outcome::Applied(id)
            } else {
                Outcome::Rejected
            },
        }
    }

    /// The daemon once the server has forgotten the object `id`.
    pub open spec fn delete_id(self, id: u32) -> DaemonView {
        if id == 0 {
            self
        } else {
            DaemonView { objects: self.objects.update(id - 1, None), ..self }
        }
    }

    /// The daemon once the compositor has announced a format.
    pub open spec fn format(self, format: ShmFormat) -> DaemonView {
        DaemonView {
            pixel_format: crate::format::spec_select(
                self.forced_shm_format,
                self.pixel_format,
                format,
            ),
            ..self
        }
    }

    /// The daemon once the callback `sender` has fired. If it is the one that tells that all
    /// formats are known, nothing waits for them any more; otherwise the first wallpaper that waits
    /// for it may draw its next frame.
    pub open spec fn callback_done(self, sender: u32) -> DaemonView {
        if self.callback == Some(sender) {
            DaemonView { callback: None, output_globals: None, ..self }
        } else {
            match self.first_id(Key::Callback(sender)) {
                Some(id) => self.mark(seq![id], Mark::FrameCompleted),
                None => self,
            }
        }
    }

    /// What to do about a callback that has fired.
    pub open spec fn callback_action(self, sender: u32) -> CallbackActionView {
        if self.callback == Some(sender) {
            CallbackActionView::CreateOutputs { names: self.output_globals->0, layer: self.layer }
        } else {
            match self.first_id(Key::Callback(sender)) {
                Some(id) => CallbackActionView::FrameCompleted(id),
                None => CallbackActionView::Ignore,
            }
        }
    }

    /// The wallpaper that goes when whom `key` means is removed.
    pub open spec fn removed(self, key: Key) -> Option<WallpaperView> {
        match crate::wallpaper::first_match(self.wallpapers, key) {
            Some(i) => Some(self.wallpapers[i]),
            None => None,
        }
    }

    /// The daemon once an output has told its transform, and what became of that.
    pub open spec fn geometry(self, sender: u32, transform: Transform) -> (DaemonView, Outcome) {
        let key = Key::Output(sender);
        if transform == Transform::Flipped270 {
            (self, self.outcome(key, false))
        } else {
            (
                self.apply(key, |w: WallpaperView| WallpaperView { transform: Some(transform), ..w }),
                self.outcome(key, true),
            )
        }
    }

    /// The daemon once an output has told its name, and what became of that.
    pub open spec fn name(self, sender: u32, name: Seq<char>) -> (DaemonView, Outcome) {
        let key = Key::Output(sender);
        (
            self.apply(key, |w: WallpaperView| WallpaperView { name: Some(name), ..w }),
            self.outcome(key, true),
        )
    }

    /// The daemon once an output has told its description, and what became of that.
    pub open spec fn description(self, sender: u32, text: Seq<char>) -> (DaemonView, Outcome) {
        let key = Key::Output(sender);
        (
            self.apply(key, |w: WallpaperView| WallpaperView { description: Some(text), ..w }),
            self.outcome(key, true),
        )
    }

    /// The daemon once whom `key` means was told a scale, and what became of that.
    pub open spec fn scaled(self, key: Key, factor: i32, scale: Scale) -> (DaemonView, Outcome) {
        if factor == 0 {
            (self, self.outcome(key, false))
        } else {
            (
                self.apply(key, |w: WallpaperView| WallpaperView { scale: Some(scale), ..w }),
                self.outcome(key, true),
            )
        }
    }

    /// The daemon once an output has told one of its modes.
    pub open spec fn mode(self, sender: u32, flags: u32, width: i32, height: i32) -> DaemonView {
        if is_current(flags) {
            self.apply(
                Key::Output(sender),
                |w: WallpaperView| WallpaperView { dimensions: Some((width, height)), ..w },
            )
        } else {
            self
        }
    }

    /// What to do about a global that has appeared.
    pub open spec fn global(self, name: u32, interface: Seq<char>, version: u32) -> GlobalAction {
        if interface != "wl_output"@ {
            GlobalAction::Ignore
        } else if version < MIN_OUTPUT_VERSION {
            GlobalAction::TooOld
        } else {
            GlobalAction::NewOutput { name, layer: self.layer }
        }
    }

    /// What to commit once everything about an output has been announced.
    pub open spec fn output_done(self, sender: u32) -> Option<SurfaceCommitView> {
        match self.first_id(Key::Output(sender)) {
            Some(id) => Some(self.surface_commit(id)),
            None => None,
        }
    }

    /// The daemon once a surface was committed.
    pub open spec fn surface_committed(self, id: u64, changed: bool) -> DaemonView {
        if changed {
            self.stop_animations(seq![id])
        } else {
            self
        }
    }

    /// What to acknowledge when a surface is configured.
    pub open spec fn configure(self, sender: u32, serial: u32) -> Option<AckConfigure> {
        if self.first_id(Key::LayerSurface(sender)) is Some {
            Some(AckConfigure { layer_surface: sender, serial })
        } else {
            None
        }
    }

    /// The daemon with a wallpaper for each of the outputs `names`, one after the other.
    pub open spec fn new_outputs(self, names: Seq<u32>, made: Seq<OutputMade>) -> DaemonView
        decreases names.len(),
    {
        if names.len() == 0 {
            self
        } else {
            let before = self.new_outputs(names.drop_last(), made);
            let last = made[names.len() - 1];
            DaemonView { objects: last.objects, ..before }.new_output(names.last(), last.handles)
        }
    }

    /// The commit of the surface of the wallpaper `id`.
    pub open spec fn surface_commit(self, id: u64) -> SurfaceCommitView {
        SurfaceCommitView {
            wallpaper: id,
            namespace: self.namespace,
            use_cache: self.use_cache,
        }
    }

    /// The search for the owner of a buffer has come to position `index`.
    pub open spec fn offer_from(self, buffer: u32, index: int) -> ReleaseStage {
        if index < self.wallpapers.len() {
            ReleaseStage::Offer {
                buffer,
                index: index as usize,
                wallpaper: self.wallpapers[index].id,
                strong_count: (1 + self.driven(self.wallpapers[index].id)) as usize,
            }
        } else {
            ReleaseStage::NotFound
        }
    }

    /// What becomes of the search when the wallpaper last offered the buffer has taken it, or has
    /// not.
    pub open spec fn release_step(self, stage: ReleaseStage, taken: bool) -> ReleaseStage {
        match stage {
            ReleaseStage::Offer { buffer, index, .. } => if taken {
                ReleaseStage::Taken
            } else {
                self.offer_from(buffer, index + 1)
            },
            _ => stage,
        }
    }

    /// The search once `refusals` wallpapers have not taken the buffer.
    pub open spec fn refused(self, buffer: u32, refusals: nat) -> ReleaseStage
        decreases refusals,
    {
        if refusals == 0 {
            self.offer_from(buffer, 0)
        } else {
            self.release_step(self.refused(buffer, (refusals - 1) as nat), false)
        }
    }
}

/// Whether a mode is the one that the output is in, by its flags.
pub open spec fn is_current(flags: u32) -> bool {
    flags & MODE_CURRENT == MODE_CURRENT
}

/// What was made for an output, and the objects that are known once it was made.
pub struct OutputMade {
    pub handles: Handles,
    pub objects: Seq<Option<WaylandObject>>,
}

/// The wallpapers that `new_outputs` adds.
pub open spec fn fresh_wallpapers(
    first_id: u64,
    names: Seq<u32>,
    made: Seq<OutputMade>,
) -> Seq<WallpaperView> {
    Seq::new(
        names.len(),
        |i: int| WallpaperView::fresh((first_id + i) as u64, names[i], made[i].handles),
    )
}

/// Wallpapers are added in the order of their outputs.
pub proof fn lemma_new_outputs(v: DaemonView, names: Seq<u32>, made: Seq<OutputMade>)
    requires
        v.wf(),
        v.next_id + names.len() <= u64::MAX,
    ensures
        v.new_outputs(names, made).wf(),
        v.new_outputs(names, made).wallpapers == v.wallpapers + fresh_wallpapers(
            v.next_id,
            names,
            made,
        ),
        v.new_outputs(names, made).next_id == v.next_id + names.len(),
        v.new_outputs(names, made) == (DaemonView {
            objects: v.new_outputs(names, made).objects,
            wallpapers: v.new_outputs(names, made).wallpapers,
            next_id: v.new_outputs(names, made).next_id,
            ..v
        }),
    decreases names.len(),
{
    if names.len() == 0 {
        assert(v.wallpapers + fresh_wallpapers(v.next_id, names, made) =~= v.wallpapers);
    } else {
        let rest = names.drop_last();
        lemma_new_outputs(v, rest, made);
        let before = v.new_outputs(rest, made);
        let last = made[names.len() - 1];
        let observed = DaemonView { objects: last.objects, ..before };
        crate::daemon::lemma_rest_wf(before, observed);
        crate::daemon::lemma_new_output_wf(observed, names.last(), last.handles);
        assert(v.new_outputs(names, made).wallpapers =~= v.wallpapers + fresh_wallpapers(
            v.next_id,
            names,
            made,
        ));
    }
}

/// When every pixel format is known each output that has waited for that gets a wallpaper: the
/// wallpapers are those there were, followed by one fresh wallpaper per waiting output, in order.
/// None waits any longer, and nothing else has changed but the objects that were made.
pub proof fn law_waiting_outputs_get_wallpapers(
    v: DaemonView,
    sender: u32,
    made: Seq<OutputMade>,
)
    requires
        v.wf(),
        v.callback == Some(sender),
        v.next_id + (v.output_globals->0).len() <= u64::MAX,
    ensures
        ({
            let names = v.output_globals->0;
            let u = v.callback_done(sender).new_outputs(names, made);
            &&& u.wf()
            &&& u.wallpapers == v.wallpapers + fresh_wallpapers(v.next_id, names, made)
            &&& u == (DaemonView {
                callback: None,
                output_globals: None,
                objects: u.objects,
                wallpapers: u.wallpapers,
                next_id: (v.next_id + names.len()) as u64,
                ..v
            })
        }),
{
    let settled = v.callback_done(sender);
    crate::daemon::lemma_rest_wf(v, settled);
    lemma_new_outputs(settled, v.output_globals->0, made);
}

/// The callback that tells that the formats are known releases the outputs once only.
pub proof fn law_outputs_are_released_once(v: DaemonView, sender: u32, later: u32)
    requires
        v.callback == Some(sender),
    ensures
        v.callback_done(sender).callback is None,
        v.callback_done(sender).output_globals is None,
        v.callback_done(sender).callback_done(later).callback is None,
        v.callback_done(sender).callback_done(later).output_globals is None,
{
}

/// A frame callback that has fired makes the wallpaper that waited for it ready to draw, where it
/// is configured. Every other wallpaper is as it was.
pub proof fn law_frame_callback_makes_ready(v: DaemonView, sender: u32, i: int)
    requires
        v.wf(),
        v.callback != Some(sender),
        crate::wallpaper::is_first_match(v.wallpapers, Key::Callback(sender), i),
    ensures
        ({
            let u = v.callback_done(sender);
            &&& u.wallpapers.len() == v.wallpapers.len()
            &&& u.wallpapers[i].callback is None
            &&& u.wallpapers[i].draw_ready == v.wallpapers[i].configured
            &&& forall|j: int|
                0 <= j < v.wallpapers.len() && j != i ==> (#[trigger] u.wallpapers[j])
                    == v.wallpapers[j]
        }),
{
    let ids = seq![v.wallpapers[i].id];
    crate::wallpaper::lemma_first_match(v.wallpapers, Key::Callback(sender), i);
    assert(ids[0] == v.wallpapers[i].id);
    assert forall|j: int| 0 <= j < v.wallpapers.len() && j != i implies !ids.contains(
        (#[trigger] v.wallpapers[j]).id,
    ) by {}
}

/// A released buffer is offered to every wallpaper in turn, until one takes it. Only when all have
/// refused it is the search given up.
pub proof fn law_every_wallpaper_is_offered_the_buffer(
    v: DaemonView,
    buffer: u32,
    refusals: nat,
)
    requires
        v.wallpapers.len() <= usize::MAX,
        refusals <= v.wallpapers.len(),
    ensures
        v.refused(buffer, refusals) == v.offer_from(buffer, refusals as int),
        v.refused(buffer, refusals) is NotFound <==> refusals == v.wallpapers.len(),
    decreases refusals,
{
    if refusals > 0 {
        law_every_wallpaper_is_offered_the_buffer(v, buffer, (refusals - 1) as nat);
    }
}

/// Changing what is known of a wallpaper keeps what holds of the daemon.
pub proof fn lemma_with_wallpaper_wf(v: DaemonView, i: int, w: WallpaperView)
    requires
        v.wf(),
        0 <= i < v.wallpapers.len(),
        w.id == v.wallpapers[i].id,
        w.wf(),
    ensures
        v.with_wallpaper(i, w).wf(),
{
    crate::daemon::lemma_same_ids_wf(v, v.with_wallpaper(i, w));
}

/// Whether one of `animators` drives the wallpaper `id`.
fn drives(animators: &Vec<Animator>, id: u64) -> (r: bool)
    ensures
        r == (crate::animator::holders(crate::animator::animators_view(animators@), id) > 0),
{
    let ghost all = crate::animator::animators_view(animators@);
    let mut i: usize = 0;
    while i < animators.len()
        invariant
            i <= animators.len(),
            all == crate::animator::animators_view(animators@),
            crate::animator::holders(all.take(i as int), id) == 0,
        decreases animators.len() - i,
    {
        proof {
            crate::animator::lemma_occurrences_contains(all[i as int].wallpapers, id);
            crate::animator::lemma_holders_member(all, i as int, id);
            assert(all.take(i + 1).drop_last() =~= all.take(i as int));
        }
        if lists(&animators[i].wallpapers, id) {
            return true;
        }
        i += 1;
    }
    proof {
        assert(all.take(i as int) =~= all);
    }
    false
}

impl Daemon {
    /// `wl_display.delete_id`: the server has forgotten the object `id`.
    pub fn delete_id(&mut self, id: u32)
        requires
            old(self).wf(),
            id <= old(self)@.objects.len(),
        ensures
            final(self).wf(),
            final(self)@ == old(self)@.delete_id(id),
    {
        if id != 0 {
            self.objects.remove(id);
            proof {
                crate::daemon::lemma_rest_wf(old(self)@, self@);
            }
        }
    }

    /// `wl_display.error`: the connection is lost, and the daemon ends.
    pub fn error(&mut self)
        requires
            old(self).wf(),
        ensures
            final(self).wf(),
            final(self)@ == (DaemonView { exit: true, ..old(self)@ }),
    {
        self.raise_exit();
    }

    /// `wl_registry.global`: an output that is recent enough gets a wallpaper.
    pub fn global(&self, name: u32, interface: &str, version: u32) -> (r: GlobalAction)
        ensures
            r == if interface@ != "wl_output"@ {
                GlobalAction::Ignore
            } else if version < MIN_OUTPUT_VERSION {
                GlobalAction::TooOld
            } else {
                GlobalAction::NewOutput { name, layer: self.layer }
            },
            r == self@.global(name, interface@, version),
            r is TooOld <==> interface@ == "wl_output"@ && version < 4,
    {
        if str_eq(interface, "wl_output") {
            if version < MIN_OUTPUT_VERSION {
                GlobalAction::TooOld
            } else {
                GlobalAction::NewOutput { name, layer: self.layer }
            }
        } else {
            GlobalAction::Ignore
        }
    }

    /// `wl_registry.global_remove`: the wallpaper of an output that is gone is removed, and
    /// returned to be destroyed.
    pub fn global_remove(&mut self, name: u32) -> (r: Option<Wallpaper>)
        requires
            old(self).wf(),
        ensures
            final(self).wf(),
            final(self)@ == old(self)@.remove_first(Key::OutputName(name)),
            opt_wallpaper(r) == old(self)@.removed(Key::OutputName(name)),
            r is Some <==> old(self)@.first_id(Key::OutputName(name)) is Some,
            r matches Some(w) ==> w@
                == old(self)@.wallpapers[crate::wallpaper::first_match(
                old(self)@.wallpapers,
                Key::OutputName(name),
            )->0],
    {
        self.remove_first(Key::OutputName(name))
    }

    /// `zwlr_layer_surface_v1.closed`: the wallpaper whose surface the compositor has closed is
    /// removed, and returned to be destroyed.
    pub fn closed(&mut self, sender: u32) -> (r: Option<Wallpaper>)
        requires
            old(self).wf(),
        ensures
            final(self).wf(),
            final(self)@ == old(self)@.remove_first(Key::LayerSurface(sender)),
            opt_wallpaper(r) == old(self)@.removed(Key::LayerSurface(sender)),
            r is Some <==> old(self)@.first_id(Key::LayerSurface(sender)) is Some,
            r matches Some(w) ==> w@
                == old(self)@.wallpapers[crate::wallpaper::first_match(
                old(self)@.wallpapers,
                Key::LayerSurface(sender),
            )->0],
    {
        self.remove_first(Key::LayerSurface(sender))
    }

    fn remove_first(&mut self, key: Key) -> (r: Option<Wallpaper>)
        requires
            old(self).wf(),
        ensures
            final(self).wf(),
            final(self)@ == old(self)@.remove_first(key),
            opt_wallpaper(r) == old(self)@.removed(key),
            r is Some <==> old(self)@.first_id(key) is Some,
            r matches Some(w) ==> w@
                == old(self)@.wallpapers[crate::wallpaper::first_match(
                old(self)@.wallpapers,
                key,
            )->0],
    {
        match find_first(&self.wallpapers, key) {
            Some(i) => Some(self.remove_wallpaper(i)),
            None => None,
        }
    }

    /// `wl_shm.format`: the compositor can show this format.
    pub fn format(&mut self, format: ShmFormat)
        requires
            old(self).wf(),
        ensures
            final(self).wf(),
            final(self)@ == old(self)@.format(format),
    {
        self.pixel_format = select(self.forced_shm_format, self.pixel_format, format);
        proof {
            crate::daemon::lemma_rest_wf(old(self)@, self@);
        }
    }

    /// `wl_output.geometry`: the output has this transform. The one that is both flipped and
    /// turned by 270 degrees is not accepted.
    pub fn geometry(&mut self, sender: u32, transform: Transform) -> (r: Outcome)
        requires
            old(self).wf(),
        ensures
            final(self).wf(),
            (final(self)@, r) == old(self)@.geometry(sender, transform),
            r == old(self)@.outcome(Key::Output(sender), transform != Transform::Flipped270),
            final(self)@ == if transform == Transform::Flipped270 {
                old(self)@
            } else {
                old(self)@.apply(
                    Key::Output(sender),
                    |w: WallpaperView| WallpaperView { transform: Some(transform), ..w },
                )
            },
    {
        self.announce(
            Key::Output(sender),
            Detail::Transform(transform),
            transform != Transform::Flipped270,
        )
    }

    /// `wl_output.name`: the output is known by this name.
    pub fn name(&mut self, sender: u32, name: String) -> (r: Outcome)
        requires
            old(self).wf(),
        ensures
            final(self).wf(),
            (final(self)@, r) == old(self)@.name(sender, name@),
            r == old(self)@.outcome(Key::Output(sender), true),
            final(self)@ == old(self)@.apply(
                Key::Output(sender),
                |w: WallpaperView| WallpaperView { name: Some(name@), ..w },
            ),
    {
        self.announce(Key::Output(sender), Detail::Name(name), true)
    }

    /// `wl_output.description`: the output is described like this.
    pub fn description(&mut self, sender: u32, description: String) -> (r: Outcome)
        requires
            old(self).wf(),
        ensures
            final(self).wf(),
            (final(self)@, r) == old(self)@.description(sender, description@),
            r == old(self)@.outcome(Key::Output(sender), true),
            final(self)@ == old(self)@.apply(
                Key::Output(sender),
                |w: WallpaperView| WallpaperView { description: Some(description@), ..w },
            ),
    {
        self.announce(Key::Output(sender), Detail::Description(description), true)
    }

    /// `wl_output.scale`: the output has this scale factor. Zero is not accepted.
    pub fn scale(&mut self, sender: u32, factor: i32) -> (r: Outcome)
        requires
            old(self).wf(),
        ensures
            final(self).wf(),
            (final(self)@, r) == old(self)@.scaled(
                Key::Output(sender),
                factor,
                Scale::Output(factor),
            ),
            r == old(self)@.outcome(Key::Output(sender), factor != 0),
            final(self)@ == if factor != 0 {
                old(self)@.apply(
                    Key::Output(sender),
                    |w: WallpaperView| WallpaperView { scale: Some(Scale::Output(factor)), ..w },
                )
            } else {
                old(self)@
            },
    {
        self.announce(Key::Output(sender), Detail::Scale(Scale::Output(factor)), factor != 0)
    }

    /// `wl_surface.preferred_buffer_scale`: the surface had better be drawn at this scale
    /// factor. Zero is not accepted.
    pub fn preferred_buffer_scale(&mut self, sender: u32, factor: i32) -> (r: Outcome)
        requires
            old(self).wf(),
        ensures
            final(self).wf(),
            (final(self)@, r) == old(self)@.scaled(
                Key::Surface(sender),
                factor,
                Scale::Preferred(factor),
            ),
            r == old(self)@.outcome(Key::Surface(sender), factor != 0),
            final(self)@ == if factor != 0 {
                old(self)@.apply(
                    Key::Surface(sender),
                    |w: WallpaperView| WallpaperView { scale: Some(Scale::Preferred(factor)), ..w },
                )
            } else {
                old(self)@
            },
    {
        self.announce(Key::Surface(sender), Detail::Scale(Scale::Preferred(factor)), factor != 0)
    }

    /// `wp_fractional_scale_v1.preferred_scale`: the surface had better be drawn at this scale
    /// factor. Zero is not accepted. Where it is, the surface has to be committed; see
    /// [`Daemon::surface_committed`]. Factors past `i32::MAX` wrap round.
    pub fn preferred_scale(&mut self, sender: u32, scale: u32) -> (r: ScaleOutcome)
        requires
            old(self).wf(),
        ensures
            final(self).wf(),
            final(self)@ == old(self)@.scaled(
                Key::FractionalScale(sender),
                scale as i32,
                Scale::Fractional(scale as i32),
            ).0,
            match old(self)@.outcome(Key::FractionalScale(sender), scale != 0) {
                Outcome::Unknown => r is Unknown,
                Outcome::Rejected => r is Rejected,
                Outcome::Applied(id) => r matches ScaleOutcome::Commit(commit) && commit@ == old(
                    self,
                )@.surface_commit(id),
            },
            final(self)@ == if scale != 0 {
                old(self)@.apply(
                    Key::FractionalScale(sender),
                    |w: WallpaperView| WallpaperView { scale: Some(Scale::Fractional(scale as i32)), ..w },
                )
            } else {
                old(self)@
            },
    {
        let factor: i32 = #[verifier::truncate] (scale as i32);
        assert(scale as i32 == 0 <==> scale == 0) by (bit_vector);
        let outcome = self.announce(
            Key::FractionalScale(sender),
            Detail::Scale(Scale::Fractional(factor)),
            factor != 0,
        );
        match outcome {
            Outcome::Unknown => ScaleOutcome::Unknown,
            Outcome::Rejected => ScaleOutcome::Rejected,
            Outcome::Applied(id) => ScaleOutcome::Commit(self.surface_commit(id)),
        }
    }

    /// `wl_output.mode`: the output has this width and height. Modes that are not the current one
    /// do not count.
    pub fn mode(&mut self, sender: u32, flags: u32, width: i32, height: i32)
        requires
            old(self).wf(),
        ensures
            final(self).wf(),
            final(self)@ == old(self)@.mode(sender, flags, width, height),
            final(self)@ == if is_current(flags) {
                old(self)@.apply(
                    Key::Output(sender),
                    |w: WallpaperView| WallpaperView { dimensions: Some((width, height)), ..w },
                )
            } else {
                old(self)@
            },
    {
        if flags & MODE_CURRENT == MODE_CURRENT {
            let _ = self.announce(Key::Output(sender), Detail::Dimensions(width, height), true);
        }
    }

    /// Tells the first wallpaper that `key` names of a detail, if that is a sensible one.
    fn announce(&mut self, key: Key, detail: Detail, sensible: bool) -> (r: Outcome)
        requires
            old(self).wf(),
        ensures
            final(self).wf(),
            r == old(self)@.outcome(key, sensible),
            final(self)@ == if sensible {
                old(self)@.apply(key, |w: WallpaperView| w.told(detail))
            } else {
                old(self)@
            },
    {
        match find_first(&self.wallpapers, key) {
            Some(i) => {
                if !sensible {
                    return Outcome::Rejected;
                }
                let id: u64 = self.wallpapers[i].id;
                self.wallpapers[i].tell(detail);
                proof {
                    let w = old(self)@.wallpapers[i as int].told(detail);
                    assert(self@ =~= old(self)@.with_wallpaper(i as int, w));
                    lemma_with_wallpaper_wf(old(self)@, i as int, w);
                }
                Outcome::Applied(id)
            },
            None => Outcome::Unknown,
        }
    }

    /// The commit of the surface of the wallpaper `id`, with what the user has asked for.
    pub fn surface_commit(&self, id: u64) -> (r: SurfaceCommit)
        ensures
            r@ == self@.surface_commit(id),
    {
        SurfaceCommit {
            wallpaper: id,
            namespace: self.namespace.clone(),
            use_cache: self.use_cache,
        }
    }

    /// The id of the first wallpaper that `key` names.
    fn first_id(&self, key: Key) -> (r: Option<u64>)
        ensures
            r == self@.first_id(key),
    {
        match find_first(&self.wallpapers, key) {
            Some(i) => Some(self.wallpapers[i].id),
            None => None,
        }
    }

    /// `wl_output.done`: everything about the output has been announced. Returns the surface that
    /// has to be committed; see [`Daemon::surface_committed`].
    pub fn output_done(&self, sender: u32) -> (r: Option<SurfaceCommit>)
        ensures
            opt_commit(r) == self@.output_done(sender),
            match self@.first_id(Key::Output(sender)) {
                Some(id) => r matches Some(commit) && commit@ == self@.surface_commit(id),
                None => r is None,
            },
    {
        match self.first_id(Key::Output(sender)) {
            Some(id) => Some(self.surface_commit(id)),
            None => None,
        }
    }

    /// The surface of the wallpaper `id` was committed. Where that has changed it, whatever was
    /// animating the wallpaper stops.
    pub fn surface_committed(&mut self, id: u64, changed: bool)
        requires
            old(self).wf(),
        ensures
            final(self).wf(),
            final(self)@ == old(self)@.surface_committed(id, changed),
            final(self)@ == if changed {
                old(self)@.stop_animations(seq![id])
            } else {
                old(self)@
            },
    {
        if changed {
            let mut ids: Vec<u64> = Vec::new();
            ids.push(id);
            self.stop_animations(&ids);
            proof {
                assert(ids@ =~= seq![id]);
            }
        }
    }

    /// `wl_callback.done`: either every pixel format has been announced, and the outputs that
    /// waited for that get their wallpapers, or a wallpaper may draw its next frame.
    pub fn callback_done(&mut self, sender: u32) -> (r: CallbackAction)
        requires
            old(self).wf(),
        ensures
            final(self).wf(),
            final(self)@ == old(self)@.callback_done(sender),
            r@ == old(self)@.callback_action(sender),
            if old(self).callback == Some(sender) {
                r matches CallbackAction::CreateOutputs { names, layer } && Some(names@) == old(
                    self,
                )@.output_globals && layer == old(self).layer
            } else {
                match old(self)@.first_id(Key::Callback(sender)) {
                    Some(id) => r == CallbackAction::FrameCompleted(id),
                    None => r == CallbackAction::Ignore,
                }
            },
    {
        let awaited = match self.callback {
            Some(callback) => callback == sender,
            None => false,
        };
        if awaited {
            let output_globals = self.output_globals.take();
            self.callback = None;
            proof {
                crate::daemon::lemma_rest_wf(old(self)@, self@);
            }
            return CallbackAction::CreateOutputs {
                names: output_globals.unwrap(),
                layer: self.layer,
            };
        }
        match self.first_id(Key::Callback(sender)) {
            Some(id) => {
                let mut ids: Vec<u64> = Vec::new();
                ids.push(id);
                self.mark(&ids, &Mark::FrameCompleted);
                proof {
                    assert(ids@ =~= seq![id]);
                }
                CallbackAction::FrameCompleted(id)
            },
            None => CallbackAction::Ignore,
        }
    }

    /// `zwlr_layer_surface_v1.configure`: what to acknowledge, if the surface is known.
    pub fn configure(&self, sender: u32, serial: u32) -> (r: Option<AckConfigure>)
        ensures
            r == self@.configure(sender, serial),
            r == if self@.first_id(Key::LayerSurface(sender)) is Some {
                Some(AckConfigure { layer_surface: sender, serial })
            } else {
                None
            },
    {
        match self.first_id(Key::LayerSurface(sender)) {
            Some(_) => Some(AckConfigure { layer_surface: sender, serial }),
            None => None,
        }
    }

    /// How many hold the wallpaper `id`: the daemon, and the animator that drives it.
    pub fn strong_count(&self, id: u64) -> (r: usize)
        requires
            self.wf(),
        ensures
            r == 1 + self@.driven(id),
    {
        assert(self@.driven(id) <= 1);
        if drives(&self.transition_animators, id) || drives(&self.image_animators, id) {
            2
        } else {
            1
        }
    }

    /// `wl_buffer.release`: starts the search for the wallpaper to which the buffer belongs.
    pub fn release(&self, buffer: u32) -> (stage: ReleaseStage)
        requires
            self.wf(),
        ensures
            stage == self@.offer_from(buffer, 0),
    {
        self.offer_from(buffer, 0)
    }

    /// The wallpaper last offered the buffer has taken it, or has not: then the next one is
    /// offered it.
    pub fn release_step(&self, stage: ReleaseStage, taken: bool) -> (next: ReleaseStage)
        requires
            self.wf(),
            stage matches ReleaseStage::Offer { index, .. } ==> index < self.wallpapers.len(),
        ensures
            next == self@.release_step(stage, taken),
    {
        match stage {
            ReleaseStage::Offer { buffer, index, .. } => {
                if taken {
                    ReleaseStage::Taken
                } else {
                    self.offer_from(buffer, index + 1)
                }
            },
            _ => stage,
        }
    }

    fn offer_from(&self, buffer: u32, index: usize) -> (stage: ReleaseStage)
        requires
            self.wf(),
        ensures
            stage == self@.offer_from(buffer, index as int),
    {
        if index < self.wallpapers.len() {
            let id: u64 = self.wallpapers[index].id;
            let strong_count: usize = self.strong_count(id);
            ReleaseStage::Offer { buffer, index, wallpaper: id, strong_count }
        } else {
            ReleaseStage::NotFound
        }
    }

    /// The wallpapers to destroy when the daemon ends: all of them, in order.
    pub fn wallpapers_to_destroy(&self) -> (r: Vec<u64>)
        ensures
            r@ == crate::daemon::ids_of(self@.wallpapers),
    {
        let mut r: Vec<u64> = Vec::new();
        let mut i: usize = 0;
        while i < self.wallpapers.len()
            invariant
                i <= self.wallpapers.len(),
                r@.len() == i,
                forall|j: int| 0 <= j < i ==> r@[j] == (#[trigger] self.wallpapers@[j]).id,
            decreases self.wallpapers.len() - i,
        {
            r.push(self.wallpapers[i].id);
            i += 1;
        }
        r
    }
}

/// What the compositor tells of a wallpaper, `f`, is done to the first wallpaper that is meant, in
/// whatever state it is, and to nothing else. Where none is meant nothing changes.
pub proof fn law_what_is_told_reaches_the_wallpaper(
    v: DaemonView,
    key: Key,
    f: spec_fn(WallpaperView) -> WallpaperView,
    i: int,
)
    ensures
        0 <= i < v.wallpapers.len() && v.wallpapers[i].matches_key(key) && (forall|j: int|
            0 <= j < i ==> !(#[trigger] v.wallpapers[j]).matches_key(key)) ==> {
            let u = v.apply(key, f);
            &&& u.wallpapers[i] == f(v.wallpapers[i])
            &&& u.wallpapers.len() == v.wallpapers.len()
            &&& forall|j: int|
                0 <= j < v.wallpapers.len() && j != i ==> (#[trigger] u.wallpapers[j])
                    == v.wallpapers[j]
            &&& u == (DaemonView { wallpapers: u.wallpapers, ..v })
        },
        (forall|j: int|
            0 <= j < v.wallpapers.len() ==> !(#[trigger] v.wallpapers[j]).matches_key(key))
            ==> v.apply(key, f) == v,
{
    if crate::wallpaper::is_first_match(v.wallpapers, key, i) {
        crate::wallpaper::lemma_first_match(v.wallpapers, key, i);
    }
    crate::wallpaper::law_a_key_means_the_first(v.wallpapers, key);
}

/// A fractional scale that is not zero becomes the scale of the first wallpaper whose fractional
/// scale object has sent it, in whatever state the wallpaper is.
pub proof fn law_fractional_scales_are_kept(v: DaemonView, sender: u32, scale: u32, i: int)
    requires
        0 <= i < v.wallpapers.len(),
        v.wallpapers[i].handles.fractional_scale == Some(sender),
        forall|j: int|
            0 <= j < i ==> (#[trigger] v.wallpapers[j]).handles.fractional_scale != Some(sender),
    ensures
        v.apply(
            Key::FractionalScale(sender),
            |w: WallpaperView| WallpaperView { scale: Some(Scale::Fractional(scale as i32)), ..w },
        ).wallpapers == v.wallpapers.update(
            i,
            WallpaperView { scale: Some(Scale::Fractional(scale as i32)), ..v.wallpapers[i] },
        ),
{
    assert(crate::wallpaper::is_first_match(v.wallpapers, Key::FractionalScale(sender), i));
    crate::wallpaper::lemma_first_match(v.wallpapers, Key::FractionalScale(sender), i);
}

/// A value for which no wallpaper is meant goes nowhere. Otherwise it is applied to the first one
/// that is meant, or rejected where it makes no sense.
pub proof fn law_what_becomes_of_a_value(v: DaemonView, key: Key, sensible: bool, i: int)
    ensures
        0 <= i < v.wallpapers.len() && v.wallpapers[i].matches_key(key) && (forall|j: int|
            0 <= j < i ==> !(#[trigger] v.wallpapers[j]).matches_key(key)) ==> {
            &&& v.first_id(key) == Some(v.wallpapers[i].id)
            &&& v.outcome(key, sensible) == if sensible {
                Outcome::Applied(v.wallpapers[i].id)
            } else {
                Outcome::Rejected
            }
            &&& v.remove_first(key) == v.remove_wallpaper(i)
        },
        (forall|j: int|
            0 <= j < v.wallpapers.len() ==> !(#[trigger] v.wallpapers[j]).matches_key(key)) ==> {
            &&& v.first_id(key) is None
            &&& v.outcome(key, sensible) == Outcome::Unknown
            &&& v.remove_first(key) == v
        },
{
    if crate::wallpaper::is_first_match(v.wallpapers, key, i) {
        crate::wallpaper::lemma_first_match(v.wallpapers, key, i);
    }
    crate::wallpaper::law_a_key_means_the_first(v.wallpapers, key);
}

/// An id that the server has forgotten means nothing any more, and every other id means what it
/// meant. The null id is none. Nothing but the objects changes.
pub proof fn law_forgotten_ids_mean_nothing(v: DaemonView, id: u32)
    requires
        id <= v.objects.len(),
    ensures
        ({
            let u = v.delete_id(id);
            &&& u == (DaemonView { objects: u.objects, ..v })
            &&& id == 0 ==> u.objects == v.objects
            &&& u.objects.len() == v.objects.len()
            &&& id >= 1 ==> u.objects[id - 1] is None
            &&& forall|k: int|
                0 <= k < v.objects.len() && k != id - 1 ==> (#[trigger] u.objects[k])
                    == v.objects[k]
        }),
{
}

/// An announced format can change the format to draw in, and nothing else. It does only where the
/// user has not chosen one and the announced one is better: `Bgr` better than `Rgb`, `Rgb` than
/// `Xbgr`, and `Xbgr` than `Xrgb`.
pub proof fn law_better_formats_are_taken(v: DaemonView, format: ShmFormat)
    ensures
        ({
            let old = v.pixel_format;
            let new = v.format(format).pixel_format;
            &&& v.format(format) == (DaemonView { pixel_format: new, ..v })
            &&& v.forced_shm_format ==> new == old
            &&& !v.forced_shm_format && format is Bgr888 ==> new is Bgr
            &&& !v.forced_shm_format && format is Rgb888 && !(old is Bgr) ==> new is Rgb
            &&& !v.forced_shm_format && format is Xbgr8888 && old is Xrgb ==> new is Xbgr
            &&& format is Rgb888 && old is Bgr ==> new == old
            &&& format is Xbgr8888 && !(old is Xrgb) ==> new == old
            &&& format is Xrgb8888 || format is Other ==> new == old
        }),
{
}

/// What a callback that has fired changes. The one that tells that all formats are known ends the
/// wait of the outputs; any other readies the first wallpaper that waited for it, where that is
/// configured, or nothing where none did.
pub proof fn law_what_a_callback_changes(v: DaemonView, sender: u32, i: int)
    requires
        v.wf(),
    ensures
        v.callback == Some(sender) ==> v.callback_done(sender) == (DaemonView {
            callback: None,
            output_globals: None,
            ..v
        }),
        v.callback != Some(sender) && (forall|j: int|
            0 <= j < v.wallpapers.len() ==> (#[trigger] v.wallpapers[j]).callback != Some(sender))
            ==> v.callback_done(sender) == v,
        v.callback != Some(sender) && 0 <= i < v.wallpapers.len() && v.wallpapers[i].callback
            == Some(sender) && (forall|j: int|
            0 <= j < i ==> (#[trigger] v.wallpapers[j]).callback != Some(sender))
            ==> v.callback_done(sender) == (DaemonView {
            wallpapers: v.wallpapers.update(
                i,
                WallpaperView {
                    callback: None,
                    draw_ready: v.wallpapers[i].configured,
                    ..v.wallpapers[i]
                },
            ),
            ..v
        }),
{
    let key = Key::Callback(sender);
    crate::wallpaper::law_a_key_means_the_first(v.wallpapers, key);
    if v.callback != Some(sender) && crate::wallpaper::is_first_match(v.wallpapers, key, i) {
        law_frame_callback_makes_ready(v, sender, i);
        crate::wallpaper::lemma_first_match(v.wallpapers, key, i);
        let ids = seq![v.wallpapers[i].id];
        assert(ids[0] == v.wallpapers[i].id);
        assert(v.callback_done(sender).wallpapers =~= v.wallpapers.update(
            i,
            v.wallpapers[i].marked(Mark::FrameCompleted),
        ));
    }
    if forall|j: int|
        0 <= j < v.wallpapers.len() ==> (#[trigger] v.wallpapers[j]).callback != Some(sender) {
        assert forall|j: int| 0 <= j < v.wallpapers.len() implies !(
        #[trigger] v.wallpapers[j]).matches_key(key) by {}
    }
}

/// A surface is committed with what the user has asked for.
pub proof fn law_surfaces_are_committed_as_asked(v: DaemonView, id: u64)
    ensures
        v.surface_commit(id).wallpaper == id,
        v.surface_commit(id).namespace == v.namespace,
        v.surface_commit(id).use_cache == v.use_cache,
{
}

/// A released buffer is offered to the wallpapers in their order. Each is held by the daemon, and
/// once more exactly where an animator drives it.
pub proof fn law_how_a_buffer_is_offered(v: DaemonView, buffer: u32, index: int, taken: bool)
    requires
        v.wf(),
        0 <= index <= v.wallpapers.len() <= usize::MAX,
    ensures
        index == v.wallpapers.len() ==> v.offer_from(buffer, index) is NotFound,
        index < v.wallpapers.len() ==> {
            let id = v.wallpapers[index].id;
            let driven = (exists|i: int|
                0 <= i < v.transition_animators.len() && (
                #[trigger] v.transition_animators[i]).wallpapers.contains(id)) || (exists|i: int|
                0 <= i < v.image_animators.len() && (
                #[trigger] v.image_animators[i]).wallpapers.contains(id));
            &&& v.offer_from(buffer, index) == (ReleaseStage::Offer {
                buffer,
                index: index as usize,
                wallpaper: id,
                strong_count: if driven {
                    2
                } else {
                    1
                },
            })
            &&& v.release_step(v.offer_from(buffer, index), taken) == if taken {
                ReleaseStage::Taken
            } else {
                v.offer_from(buffer, index + 1)
            }
        },
        v.release_step(ReleaseStage::Taken, taken) is Taken,
        v.release_step(ReleaseStage::NotFound, taken) is NotFound,
{
    if index < v.wallpapers.len() {
        crate::laws::law_what_is_driven(v, v.wallpapers[index].id);
        assert(v.driven(v.wallpapers[index].id) <= 1);
    }
}

/// A mode is the current one if its lowest flag is set.
pub proof fn law_which_mode_is_current(flags: u32)
    ensures
        is_current(flags) <==> flags % 2 == 1,
{
    assert(flags & 1 == 1 <==> flags % 2 == 1) by (bit_vector);
}

/// A commit is what its fields hold.
pub proof fn law_commit_shows_its_fields(commit: SurfaceCommit)
    ensures
        commit@.wallpaper == commit.wallpaper,
        commit@.namespace == commit.namespace@,
        commit@.use_cache == commit.use_cache,
{
}

/// What an output tells reaches the first wallpaper on it, `i`, in whatever state that is, and
/// nothing else. Every value is kept but two: the transform that is both flipped and turned by 270
/// degrees, and the scale of zero. A mode counts only where its lowest flag is set.
pub proof fn law_what_an_output_tells(
    v: DaemonView,
    sender: u32,
    i: int,
    transform: Transform,
    text: Seq<char>,
    factor: i32,
    flags: u32,
    width: i32,
    height: i32,
)
    requires
        0 <= i < v.wallpapers.len(),
        v.wallpapers[i].handles.output == sender,
        forall|j: int| 0 <= j < i ==> (#[trigger] v.wallpapers[j]).handles.output != sender,
    ensures
        ({
            let w = v.wallpapers[i];
            let with = |n: WallpaperView|
                DaemonView { wallpapers: v.wallpapers.update(i, n), ..v };
            let applied = Outcome::Applied(w.id);
            &&& v.geometry(sender, transform) == if transform is Flipped270 {
                (v, Outcome::Rejected)
            } else {
                (with(WallpaperView { transform: Some(transform), ..w }), applied)
            }
            &&& v.name(sender, text) == (with(WallpaperView { name: Some(text), ..w }), applied)
            &&& v.description(sender, text) == (
                with(WallpaperView { description: Some(text), ..w }),
                applied,
            )
            &&& v.scaled(Key::Output(sender), factor, Scale::Output(factor)) == if factor == 0 {
                (v, Outcome::Rejected)
            } else {
                (with(WallpaperView { scale: Some(Scale::Output(factor)), ..w }), applied)
            }
            &&& v.mode(sender, flags, width, height) == if flags % 2 == 1 {
                with(WallpaperView { dimensions: Some((width, height)), ..w })
            } else {
                v
            }
            &&& v.output_done(sender) == Some(
                SurfaceCommitView {
                    wallpaper: w.id,
                    namespace: v.namespace,
                    use_cache: v.use_cache,
                },
            )
        }),
{
    assert(crate::wallpaper::is_first_match(v.wallpapers, Key::Output(sender), i));
    crate::wallpaper::lemma_first_match(v.wallpapers, Key::Output(sender), i);
    law_which_mode_is_current(flags);
}

/// What an output tells on which there is no wallpaper changes nothing, and nothing comes of it.
pub proof fn law_what_a_strange_output_tells(
    v: DaemonView,
    sender: u32,
    transform: Transform,
    text: Seq<char>,
    factor: i32,
    flags: u32,
    width: i32,
    height: i32,
)
    requires
        forall|j: int|
            0 <= j < v.wallpapers.len() ==> (#[trigger] v.wallpapers[j]).handles.output != sender,
    ensures
        v.geometry(sender, transform) == (v, Outcome::Unknown),
        v.name(sender, text) == (v, Outcome::Unknown),
        v.description(sender, text) == (v, Outcome::Unknown),
        v.scaled(Key::Output(sender), factor, Scale::Output(factor)) == (v, Outcome::Unknown),
        v.mode(sender, flags, width, height) == v,
        v.output_done(sender) is None,
{
    let key = Key::Output(sender);
    assert forall|j: int| 0 <= j < v.wallpapers.len() implies !(
    #[trigger] v.wallpapers[j]).matches_key(key) by {}
    crate::wallpaper::law_a_key_means_the_first(v.wallpapers, key);
}

/// A scale that a surface, or a fractional scale object, prefers reaches the first wallpaper it
/// belongs to, in whatever state that is, and nothing else. The scale of zero is rejected.
pub proof fn law_preferred_scales_are_kept(
    v: DaemonView,
    sender: u32,
    i: int,
    factor: i32,
    scale: Scale,
    key: Key,
)
    requires
        0 <= i < v.wallpapers.len(),
        ({
            ||| key == Key::Surface(sender) && v.wallpapers[i].handles.surface == sender && (
            forall|j: int| 0 <= j < i ==> (#[trigger] v.wallpapers[j]).handles.surface != sender)
            ||| key == Key::FractionalScale(sender) && v.wallpapers[i].handles.fractional_scale
                == Some(sender) && (forall|j: int|
                0 <= j < i ==> (#[trigger] v.wallpapers[j]).handles.fractional_scale != Some(
                    sender,
                ))
        }),
    ensures
        v.scaled(key, factor, scale) == if factor == 0 {
            (v, Outcome::Rejected)
        } else {
            (
                DaemonView {
                    wallpapers: v.wallpapers.update(
                        i,
                        WallpaperView { scale: Some(scale), ..v.wallpapers[i] },
                    ),
                    ..v
                },
                Outcome::Applied(v.wallpapers[i].id),
            )
        },
{
    assert(crate::wallpaper::is_first_match(v.wallpapers, key, i));
    crate::wallpaper::lemma_first_match(v.wallpapers, key, i);
}

/// A scale that is preferred for no wallpaper there is changes nothing.
pub proof fn law_strange_scales_go_nowhere(
    v: DaemonView,
    sender: u32,
    factor: i32,
    scale: Scale,
)
    ensures
        (forall|j: int|
            0 <= j < v.wallpapers.len() ==> (#[trigger] v.wallpapers[j]).handles.surface != sender)
            ==> v.scaled(Key::Surface(sender), factor, scale) == (v, Outcome::Unknown),
        (forall|j: int|
            0 <= j < v.wallpapers.len() ==> (#[trigger] v.wallpapers[j]).handles.fractional_scale
                != Some(sender)) ==> v.scaled(Key::FractionalScale(sender), factor, scale) == (
            v,
            Outcome::Unknown,
        ),
{
    let ws = v.wallpapers;
    crate::wallpaper::law_a_key_means_the_first(ws, Key::Surface(sender));
    crate::wallpaper::law_a_key_means_the_first(ws, Key::FractionalScale(sender));
    if forall|j: int| 0 <= j < ws.len() ==> (#[trigger] ws[j]).handles.surface != sender {
        assert forall|j: int| 0 <= j < ws.len() implies !(#[trigger] ws[j]).matches_key(
            Key::Surface(sender),
        ) by {}
    }
    if forall|j: int|
        0 <= j < ws.len() ==> (#[trigger] ws[j]).handles.fractional_scale != Some(sender) {
        assert forall|j: int| 0 <= j < ws.len() implies !(#[trigger] ws[j]).matches_key(
            Key::FractionalScale(sender),
        ) by {}
    }
}

/// A global gets a wallpaper, on the layer that the user has asked for, if and only if it is an
/// output of at least version four.
pub proof fn law_which_globals_get_a_wallpaper(
    v: DaemonView,
    name: u32,
    interface: Seq<char>,
    version: u32,
)
    ensures
        ({
            let r = v.global(name, interface, version);
            &&& r is NewOutput <==> interface == "wl_output"@ && version >= 4
            &&& r is NewOutput ==> r == (GlobalAction::NewOutput { name, layer: v.layer })
            &&& r is TooOld <==> interface == "wl_output"@ && version < 4
            &&& r is Ignore <==> interface != "wl_output"@
        }),
{
}

/// A configuration is acknowledged, by its serial, if and only if the surface is that of some
/// wallpaper.
pub proof fn law_which_configurations_are_acknowledged(v: DaemonView, sender: u32, serial: u32)
    ensures
        v.configure(sender, serial) is Some <==> exists|i: int|
            0 <= i < v.wallpapers.len() && (#[trigger] v.wallpapers[i]).handles.layer_surface
                == sender,
        v.configure(sender, serial) matches Some(ack) ==> ack.layer_surface == sender && ack.serial
            == serial,
{
    let key = Key::LayerSurface(sender);
    let ws = v.wallpapers;
    crate::wallpaper::law_a_key_means_the_first(ws, key);
    if exists|i: int| 0 <= i < ws.len() && (#[trigger] ws[i]).handles.layer_surface == sender {
        let i = choose|i: int|
            0 <= i < ws.len() && (#[trigger] ws[i]).handles.layer_surface == sender;
        assert(ws[i].matches_key(key));
    }
    if crate::wallpaper::first_match(ws, key) is Some {
        let i = crate::wallpaper::first_match(ws, key)->0;
        assert(ws[i].handles.layer_surface == sender);
    }
}

/// A commit stops the animation of its wallpaper if it has changed the surface, and changes nothing
/// otherwise; it never touches the animation of another wallpaper.
pub proof fn law_changed_surfaces_stop_animating(
    v: DaemonView,
    id: u64,
    changed: bool,
    other: u64,
)
    ensures
        ({
            let u = v.surface_committed(id, changed);
            &&& !changed ==> u == v
            &&& u == (DaemonView {
                transition_animators: u.transition_animators,
                image_animators: u.image_animators,
                ..v
            })
            &&& changed ==> u.driven(id) == 0
            &&& other != id ==> u.driven(other) == v.driven(other)
        }),
{
    if changed {
        assert(seq![id][0] == id);
        crate::laws::law_stopping_frees_what_was_asked(v, seq![id], id);
        crate::laws::law_stopping_frees_what_was_asked(v, seq![id], other);
    }
}

/// What a callback asks for. The one that tells that all formats are known has a wallpaper made, on
/// the layer the user has asked for, for every output that waits. Any other asks for nothing, but
/// tells which wallpaper, the first that waited for it, can draw.
pub proof fn law_what_a_callback_asks_for(v: DaemonView, sender: u32, i: int)
    requires
        v.wf(),
    ensures
        v.callback == Some(sender) ==> v.output_globals is Some && v.callback_action(sender) == (
        CallbackActionView::CreateOutputs { names: v.output_globals->0, layer: v.layer }),
        v.callback != Some(sender) && 0 <= i < v.wallpapers.len() && v.wallpapers[i].callback
            == Some(sender) && (forall|j: int|
            0 <= j < i ==> (#[trigger] v.wallpapers[j]).callback != Some(sender))
            ==> v.callback_action(sender) == CallbackActionView::FrameCompleted(
            v.wallpapers[i].id,
        ),
        v.callback != Some(sender) && (forall|j: int|
            0 <= j < v.wallpapers.len() ==> (#[trigger] v.wallpapers[j]).callback != Some(sender))
            ==> v.callback_action(sender) is Ignore,
{
    let key = Key::Callback(sender);
    crate::wallpaper::law_a_key_means_the_first(v.wallpapers, key);
    if crate::wallpaper::is_first_match(v.wallpapers, key, i) {
        crate::wallpaper::lemma_first_match(v.wallpapers, key, i);
    }
    if forall|j: int|
        0 <= j < v.wallpapers.len() ==> (#[trigger] v.wallpapers[j]).callback != Some(sender) {
        assert forall|j: int| 0 <= j < v.wallpapers.len() implies !(
        #[trigger] v.wallpapers[j]).matches_key(key) by {}
    }
}

/// The wallpaper on an output that is gone, or whose surface was closed, goes, and is handed out as
/// it was; where there is more than one it is the first. Where there is none nothing changes.
pub proof fn law_which_wallpaper_goes(v: DaemonView, n: u32, i: int)
    ensures
        0 <= i < v.wallpapers.len() && v.wallpapers[i].output_name == n && (forall|j: int|
            0 <= j < i ==> (#[trigger] v.wallpapers[j]).output_name != n) ==> {
            &&& v.removed(Key::OutputName(n)) == Some(v.wallpapers[i])
            &&& v.remove_first(Key::OutputName(n)).wallpapers == v.wallpapers.remove(i)
        },
        0 <= i < v.wallpapers.len() && v.wallpapers[i].handles.layer_surface == n && (forall|j: int|
            0 <= j < i ==> (#[trigger] v.wallpapers[j]).handles.layer_surface != n) ==> {
            &&& v.removed(Key::LayerSurface(n)) == Some(v.wallpapers[i])
            &&& v.remove_first(Key::LayerSurface(n)).wallpapers == v.wallpapers.remove(i)
        },
        (forall|j: int|
            0 <= j < v.wallpapers.len() ==> (#[trigger] v.wallpapers[j]).output_name != n) ==> {
            &&& v.removed(Key::OutputName(n)) is None
            &&& v.remove_first(Key::OutputName(n)) == v
        },
        (forall|j: int|
            0 <= j < v.wallpapers.len() ==> (#[trigger] v.wallpapers[j]).handles.layer_surface != n)
            ==> {
            &&& v.removed(Key::LayerSurface(n)) is None
            &&& v.remove_first(Key::LayerSurface(n)) == v
        },
{
    let ws = v.wallpapers;
    let name = Key::OutputName(n);
    let surface = Key::LayerSurface(n);
    crate::wallpaper::law_a_key_means_the_first(ws, name);
    crate::wallpaper::law_a_key_means_the_first(ws, surface);
    if crate::wallpaper::is_first_match(ws, name, i) {
        crate::wallpaper::lemma_first_match(ws, name, i);
    }
    if crate::wallpaper::is_first_match(ws, surface, i) {
        crate::wallpaper::lemma_first_match(ws, surface, i);
    }
    if forall|j: int| 0 <= j < ws.len() ==> (#[trigger] ws[j]).output_name != n {
        assert forall|j: int| 0 <= j < ws.len() implies !(#[trigger] ws[j]).matches_key(name) by {}
    }
    if forall|j: int| 0 <= j < ws.len() ==> (#[trigger] ws[j]).handles.layer_surface != n {
        assert forall|j: int| 0 <= j < ws.len() implies !(#[trigger] ws[j]).matches_key(
            surface,
        ) by {}
    }
}

/// What a callback asks for is what the action holds.
pub proof fn law_action_shows_its_fields(action: CallbackAction, w: Wallpaper)
    ensures
        action is Ignore <==> action@ is Ignore,
        action matches CallbackAction::FrameCompleted(id) ==> action@
            == CallbackActionView::FrameCompleted(id),
        action matches CallbackAction::CreateOutputs { names, layer } ==> action@
            == (CallbackActionView::CreateOutputs { names: names@, layer }),
        opt_wallpaper(Some(w)) == Some(w@),
        opt_wallpaper(None) is None,
{
}

} // verus!
