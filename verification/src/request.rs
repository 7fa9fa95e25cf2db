//! What clients ask of the daemon.

use vstd::prelude::*;
use crate::animator::{Animator, AnimatorView};
use crate::daemon::{BgInfo, Daemon, DaemonView};
use crate::event_loop::{Turn, TurnEvent};
use crate::format::PixelFormat;
use crate::objects::WaylandObject;
use crate::time::Timespec;
use crate::wallpaper::{BgImg, BgImgView, Mark, WallpaperView};

verus! {

/// Images to show. The last image goes to the last list of outputs, with the last animation, and
/// so on towards the front. What a transition, an image and an animation are is left open.
pub struct ImageReq<T, I, A> {
    pub transition: T,
    pub imgs: Vec<I>,
    /// For each image the names of the outputs to show it on; none means all.
    pub outputs: Vec<Vec<String>>,
    pub animations: Option<Vec<A>>,
}

/// A request of a client.
pub enum Request<T, I, A> {
    /// Fill the named outputs with a color; no name means all of them.
    Clear { color: [u8; 4], outputs: Vec<String> },
    /// Tell whether every wallpaper is up.
    Ping,
    /// Terminate.
    Kill,
    /// Describe the wallpapers.
    Query,
    /// Show images.
    Img(ImageReq<T, I, A>),
}

/// An answer to a client.
pub enum Answer {
    /// The request was carried out.
    Done,
    /// Whether every wallpaper is up.
    Ping(bool),
    Info(Vec<BgInfo>),
}

/// What is left to do about a request: work, and then to send the answer, if there is one.
pub struct Job<T, I, A> {
    pub work: Work<T, I, A>,
    pub answer: Option<Answer>,
}

/// Work that a request asks for.
pub enum Work<T, I, A> {
    Nothing,
    /// Fill these wallpapers with a color, attach and commit them. The daemon has recorded that
    /// they show the color.
    Clear { wallpapers: Vec<u64>, color: [u8; 4], pixel_format: PixelFormat },
    /// Take images off the request with [`Daemon::next_image`] until there are none.
    Images(ImageReq<T, I, A>),
}

/// The mathematical counterpart of [`Answer`].
#[verifier::ext_equal]
pub enum AnswerView {
    Done,
    Ping(bool),
    Info(Seq<BgInfo>),
}

impl View for Answer {
    type V = AnswerView;

    open spec fn view(&self) -> AnswerView {
        match *self {
            Answer::Done => AnswerView::Done,
            Answer::Ping(up) => AnswerView::Ping(up),
            Answer::Info(info) => AnswerView::Info(info@),
        }
    }
}

/// An answer, if there is one.
pub open spec fn opt_answer(answer: Option<Answer>) -> Option<AnswerView> {
    match answer {
        Some(answer) => Some(answer@),
        None => None,
    }
}

/// An image to show: start its transition and draw the first frame. Where a transition comes
/// about, tell the daemon with [`Daemon::transition_started`].
pub struct ImageJob<I, A> {
    pub wallpapers: Vec<u64>,
    pub img: I,
    pub animation: Option<A>,
    pub pixel_format: PixelFormat,
}

/// The mathematical counterpart of [`ImageJob`].
#[verifier::reject_recursive_types(I)]
#[verifier::reject_recursive_types(A)]
pub struct ImageJobView<I, A> {
    pub wallpapers: Seq<u64>,
    pub img: I,
    pub animation: Option<A>,
    pub pixel_format: PixelFormat,
}

impl<I, A> View for ImageJob<I, A> {
    type V = ImageJobView<I, A>;

    open spec fn view(&self) -> ImageJobView<I, A> {
        ImageJobView {
            wallpapers: self.wallpapers@,
            img: self.img,
            animation: self.animation,
            pixel_format: self.pixel_format,
        }
    }
}

/// A job, if there is one.
pub open spec fn opt_job<I, A>(job: Option<ImageJob<I, A>>) -> Option<ImageJobView<I, A>> {
    match job {
        Some(job) => Some(job@),
        None => None,
    }
}

/// The mathematical counterpart of [`Work`].
#[verifier::reject_recursive_types(T)]
#[verifier::reject_recursive_types(I)]
#[verifier::reject_recursive_types(A)]
pub enum WorkView<T, I, A> {
    Nothing,
    Clear { wallpapers: Seq<u64>, color: [u8; 4], pixel_format: PixelFormat },
    Images(ImageReqView<T, I, A>),
}

impl<T, I, A> View for Work<T, I, A> {
    type V = WorkView<T, I, A>;

    open spec fn view(&self) -> WorkView<T, I, A> {
        match *self {
            Work::Nothing => WorkView::Nothing,
            Work::Clear { wallpapers, color, pixel_format } => WorkView::Clear {
                wallpapers: wallpapers@,
                color,
                pixel_format,
            },
            Work::Images(req) => WorkView::Images(req@),
        }
    }
}

/// The mathematical counterpart of [`ImageReq`].
#[verifier::ext_equal]
#[verifier::reject_recursive_types(T)]
#[verifier::reject_recursive_types(I)]
#[verifier::reject_recursive_types(A)]
pub struct ImageReqView<T, I, A> {
    pub transition: T,
    pub imgs: Seq<I>,
    pub outputs: Seq<Seq<Seq<char>>>,
    pub animations: Option<Seq<A>>,
}

/// The elements of a vector that may be missing.
pub open spec fn opt_elements<A>(v: Option<Vec<A>>) -> Option<Seq<A>> {
    match v {
        Some(v) => Some(v@),
        None => None,
    }
}

impl<T, I, A> View for ImageReq<T, I, A> {
    type V = ImageReqView<T, I, A>;

    open spec fn view(&self) -> ImageReqView<T, I, A> {
        ImageReqView {
            transition: self.transition,
            imgs: self.imgs@,
            outputs: self.outputs@.map_values(
                |names: Vec<String>| crate::daemon::strings_view(names@),
            ),
            animations: opt_elements(self.animations),
        }
    }
}

/// `s` without its last element, if it has one.
pub open spec fn shortened<A>(s: Seq<A>) -> Seq<A> {
    if s.len() > 0 {
        s.drop_last()
    } else {
        s
    }
}

impl<T, I, A> ImageReqView<T, I, A> {
    /// Whether an image is left, and a list of outputs to show it on.
    pub open spec fn has_next(self) -> bool {
        self.imgs.len() > 0 && self.outputs.len() > 0
    }

    /// The animation that goes with the next image.
    pub open spec fn next_animation(self) -> Option<A> {
        match self.animations {
            Some(animations) => if animations.len() > 0 {
                Some(animations.last())
            } else {
                None
            },
            None => None,
        }
    }

    /// The request without its next image.
    pub open spec fn advanced(self) -> ImageReqView<T, I, A> {
        ImageReqView {
            transition: self.transition,
            imgs: self.imgs.drop_last(),
            outputs: self.outputs.drop_last(),
            animations: match self.animations {
                Some(animations) => Some(shortened(animations)),
                None => None,
            },
        }
    }

    /// The request without its next `k` images.
    pub open spec fn after(self, k: nat) -> ImageReqView<T, I, A>
        decreases k,
    {
        if k == 0 {
            self
        } else {
            self.after((k - 1) as nat).advanced()
        }
    }
}

impl DaemonView {
    /// Every wallpaper is configured.
    pub open spec fn all_configured(self) -> bool {
        forall|i: int| 0 <= i < self.wallpapers.len() ==> (#[trigger] self.wallpapers[i]).configured
    }

    /// What a query is answered.
    pub open spec fn wallpapers_info(self) -> Seq<BgInfo> {
        self.wallpapers.map_values(
            |w: WallpaperView| (BgInfo { wallpaper: w.id, pixel_format: self.pixel_format }),
        )
    }

    /// The daemon once a request was received, or could not be read. A color is recorded as what
    /// the wallpapers show; images are yet to be taken off their request.
    pub open spec fn recv_socket_msg<T, I, A, E>(
        self,
        received: Result<Request<T, I, A>, E>,
    ) -> DaemonView {
        match received {
            Err(_) => DaemonView { exit: true, ..self },
            Ok(Request::Clear { color, outputs }) => {
                let ids = self.find_wallpapers_by_names(crate::daemon::strings_view(outputs@));
                self.stop_animations(ids).mark(ids, Mark::Shows(BgImg::Color(color)))
            },
            Ok(Request::Kill) => DaemonView { exit: true, ..self },
            Ok(_) => self,
        }
    }

    /// What is answered: nothing where no request could be read, and something to every request.
    pub open spec fn answer<T, I, A, E>(
        self,
        received: Result<Request<T, I, A>, E>,
    ) -> Option<AnswerView> {
        match received {
            Err(_) => None,
            Ok(Request::Ping) => Some(AnswerView::Ping(self.all_configured())),
            Ok(Request::Query) => Some(AnswerView::Info(self.wallpapers_info())),
            Ok(_) => Some(AnswerView::Done),
        }
    }

    /// The work that a request asks for.
    pub open spec fn work<T, I, A, E>(
        self,
        received: Result<Request<T, I, A>, E>,
    ) -> WorkView<T, I, A> {
        match received {
            Ok(Request::Clear { color, outputs }) => WorkView::Clear {
                wallpapers: self.find_wallpapers_by_names(
                    crate::daemon::strings_view(outputs@),
                ),
                color,
                pixel_format: self.pixel_format,
            },
            Ok(Request::Img(req)) => WorkView::Images(req@),
            _ => WorkView::Nothing,
        }
    }

    /// The next image of a request: what to show, and where.
    pub open spec fn image_job<T, I, A>(self, req: ImageReqView<T, I, A>) -> Option<
        ImageJobView<I, A>,
    > {
        if req.has_next() {
            Some(
                ImageJobView {
                    wallpapers: self.find_wallpapers_by_names(req.outputs.last()),
                    img: req.imgs.last(),
                    animation: req.next_animation(),
                    pixel_format: self.pixel_format,
                },
            )
        } else {
            None
        }
    }

    /// The daemon once the next image was taken off a request, or there was none: then the next
    /// poll does not wait.
    pub open spec fn next_image<T, I, A>(self, req: ImageReqView<T, I, A>) -> DaemonView {
        if req.has_next() {
            self.stop_animations(self.find_wallpapers_by_names(req.outputs.last()))
        } else {
            self.set_poll_time(Timespec { tv_sec: 0, tv_nsec: 0 })
        }
    }

    /// The wallpapers `ids` are there, each once, and nothing animates them.
    pub open spec fn can_animate(self, ids: Seq<u64>) -> bool {
        &&& ids.no_duplicates()
        &&& forall|k: int|
            0 <= k < ids.len() ==> crate::daemon::known(self.wallpapers, #[trigger] ids[k])
                && self.driven(ids[k]) == 0
    }

    /// The daemon with another transition, which drives the wallpapers `ids`.
    pub open spec fn push_transition(self, ids: Seq<u64>) -> DaemonView {
        DaemonView {
            transition_animators: self.transition_animators.push(
                AnimatorView { id: self.next_id, wallpapers: ids },
            ),
            next_id: (self.next_id + 1) as u64,
            ..self
        }
    }
}

/// Wallpapers found by name can be animated once their animations are stopped.
pub proof fn lemma_found_can_be_animated(v: DaemonView, names: Seq<Seq<char>>)
    requires
        v.wf(),
    ensures
        v.stop_animations(v.find_wallpapers_by_names(names)).can_animate(
            v.find_wallpapers_by_names(names),
        ),
{
    let ids = v.find_wallpapers_by_names(names);
    let pred = crate::daemon::addressed(names);
    let u = v.stop_animations(ids);
    crate::daemon::lemma_named_distinct(v.wallpapers, pred);
    crate::daemon::lemma_stop_animations_wf(v, ids);
    assert forall|k: int| 0 <= k < ids.len() implies crate::daemon::known(
        u.wallpapers,
        #[trigger] ids[k],
    ) && u.driven(ids[k]) == 0 by {
        assert(ids.contains(ids[k]));
    }
}

/// A transition of wallpapers that nothing animates keeps what holds of the daemon.
pub proof fn lemma_push_transition_wf(v: DaemonView, ids: Seq<u64>)
    requires
        v.wf(),
        v.can_animate(ids),
        v.next_id < u64::MAX,
    ensures
        v.push_transition(ids).wf(),
{
    let u = v.push_transition(ids);
    let a = AnimatorView { id: v.next_id, wallpapers: ids };
    assert forall|id: u64| (#[trigger] u.driven(id)) == v.driven(id)
        + crate::animator::occurrences(ids, id) by {
        crate::animator::lemma_holders_push(v.transition_animators, a, id);
    }
    assert forall|id: u64| (#[trigger] u.driven(id)) <= 1 && (u.driven(id) > 0
        ==> crate::daemon::known(u.wallpapers, id)) by {
        crate::animator::lemma_occurrences_unique(ids, id);
        crate::animator::lemma_occurrences_contains(ids, id);
        assert(v.driven(id) <= 1);
        if ids.contains(id) {
            let k = choose|k: int| 0 <= k < ids.len() && ids[k] == id;
            assert(v.driven(ids[k]) == 0);
        }
    }
    assert forall|id: u64| (#[trigger] u.animators_named(id)) <= 1 && (u.animators_named(id) > 0
        ==> id < u.next_id) by {
        crate::animator::lemma_holders_push(v.transition_animators, a, id);
        assert(v.animators_named(id) <= 1);
    }
}

/// Each image goes to the list of outputs at the same distance from the end, with the animation
/// at that distance: after `k` images what is left of each list is all but its last `k`
/// elements. So a request shows as many images as the shorter one of its two lists holds.
pub proof fn law_images_pair_from_the_back<T, I, A>(req: ImageReqView<T, I, A>, k: nat)
    requires
        k <= req.imgs.len(),
        k <= req.outputs.len(),
    ensures
        req.after(k).transition == req.transition,
        req.after(k).imgs == req.imgs.take(req.imgs.len() - k),
        req.after(k).outputs == req.outputs.take(req.outputs.len() - k),
        req.animations is None ==> req.after(k).animations is None,
        req.animations matches Some(a) ==> req.after(k).animations == Some(
            a.take(
                if a.len() > k {
                    a.len() - k
                } else {
                    0
                },
            ),
        ),
        req.after(k).has_next() <==> k < req.imgs.len() && k < req.outputs.len(),
    decreases k,
{
    if k > 0 {
        law_images_pair_from_the_back(req, (k - 1) as nat);
        let before = req.after((k - 1) as nat);
        assert(before.imgs.drop_last() =~= req.imgs.take(req.imgs.len() - k));
        assert(before.outputs.drop_last() =~= req.outputs.take(req.outputs.len() - k));
        match req.animations {
            Some(a) => {
                let left = before.animations->0;
                if left.len() > 0 {
                    assert(left.drop_last() =~= a.take(a.len() - k));
                }
            },
            None => {},
        }
    } else {
        assert(req.imgs.take(req.imgs.len() as int) =~= req.imgs);
        assert(req.outputs.take(req.outputs.len() as int) =~= req.outputs);
        match req.animations {
            Some(a) => {
                assert(a.take(a.len() as int) =~= a);
            },
            None => {},
        }
    }
}

/// Every request that was read is answered, whatever it names, and nothing else is: a client that
/// asks for a color, an image or the end is told that this was done.
pub proof fn law_every_request_is_answered<T, I, A, E>(
    v: DaemonView,
    received: Result<Request<T, I, A>, E>,
)
    ensures
        v.answer(received) is Some <==> received is Ok,
        received matches Ok(request) ==> (v.answer(received) == Some(AnswerView::Done) <==> (
        request is Clear || request is Kill || request is Img)),
{
}

/// Once no image of a request is left to take the next poll does not wait, and the turn that
/// serves the client ends with a pass over the animators: the first frames are shown at once.
pub proof fn law_images_are_shown_at_once<T, I, A>(v: DaemonView, req: ImageReqView<T, I, A>)
    requires
        !req.has_next(),
    ensures
        v.next_image(req).poll_time matches Some(t) && !(Timespec {
            tv_sec: 0,
            tv_nsec: 0,
        }).before(t),
        v.next_image(req).turn_step(Turn::Accept, TurnEvent::Served) == Turn::Draw,
{
}

/// Naming no output means every wallpaper.
pub proof fn law_no_name_means_all(v: DaemonView)
    ensures
        v.find_wallpapers_by_names(Seq::empty()) == crate::daemon::ids_of(v.wallpapers),
{
    crate::animator::lemma_filter_all(
        v.wallpapers,
        crate::daemon::addressed(Seq::empty()),
    );
}

/// A name finds exactly the wallpapers of that name.
pub proof fn law_names_find_their_wallpapers(v: DaemonView, names: Seq<Seq<char>>, i: int)
    requires
        v.wf(),
        0 <= i < v.wallpapers.len(),
        names.len() > 0,
    ensures
        v.find_wallpapers_by_names(names).contains(v.wallpapers[i].id) <==> (
        v.wallpapers[i].name matches Some(name) && names.contains(name)),
{
    let ws = v.wallpapers;
    let pred = crate::daemon::addressed(names);
    crate::daemon::lemma_named_distinct(ws, pred);
    if v.find_wallpapers_by_names(names).contains(ws[i].id) {
        let j = choose|j: int|
            0 <= j < ws.len() && (#[trigger] ws[j]).id == ws[i].id && pred(ws[j]);
        assert(i == j);
        let k = choose|k: int| 0 <= k < names.len() && ws[i].has_name(#[trigger] names[k]);
        assert(names[k] == ws[i].name->0);
    }
    if ws[i].name matches Some(name) && names.contains(name) {
        let k = choose|k: int| 0 <= k < names.len() && names[k] == ws[i].name->0;
        assert(ws[i].has_name(names[k]));
        assert(pred(ws[i]));
    }
}

/// A transition that was started drives its wallpapers, and nothing else drives them; for any
/// other wallpaper nothing changes.
pub proof fn law_started_transition_drives_its_wallpapers(v: DaemonView, ids: Seq<u64>, id: u64)
    requires
        v.wf(),
        v.can_animate(ids),
        v.next_id < u64::MAX,
    ensures
        v.push_transition(ids).driven(id) == if ids.contains(id) {
            1
        } else {
            v.driven(id)
        },
{
    let a = AnimatorView { id: v.next_id, wallpapers: ids };
    crate::animator::lemma_holders_push(v.transition_animators, a, id);
    crate::animator::lemma_occurrences_unique(ids, id);
    crate::animator::lemma_occurrences_contains(ids, id);
    if ids.contains(id) {
        let k = choose|k: int| 0 <= k < ids.len() && ids[k] == id;
        assert(v.driven(ids[k]) == 0);
    }
}

/// What came of an image that was taken off a request: whether a transition came about, and what
/// is known of the objects and the wallpapers after its first frame was drawn.
pub struct ImageTaken {
    pub started: bool,
    pub objects: Seq<Option<WaylandObject>>,
    pub wallpapers: Seq<WallpaperView>,
}

/// The wallpapers `b` are the wallpapers `a`, of which other things may be known than their names.
pub open spec fn same_outputs(a: Seq<WallpaperView>, b: Seq<WallpaperView>) -> bool {
    &&& a.len() == b.len()
    &&& forall|i: int|
        0 <= i < b.len() ==> (#[trigger] b[i]).id == a[i].id && b[i].name == a[i].name && b[i].wf()
}

impl DaemonView {
    /// The daemon with what is known once an image was taken off a request, and with the
    /// transition that drives `ids` where one came about.
    pub open spec fn image_taken(self, ids: Seq<u64>, taken: ImageTaken) -> DaemonView {
        let observed = DaemonView { objects: taken.objects, wallpapers: taken.wallpapers, ..self };
        if taken.started {
            observed.push_transition(ids)
        } else {
            observed
        }
    }

    /// The daemon after the last `taken.len()` images of a request, whose lists of outputs are
    /// `outputs`.
    pub open spec fn show(
        self,
        outputs: Seq<Seq<Seq<char>>>,
        taken: Seq<ImageTaken>,
    ) -> DaemonView
        decreases taken.len(),
    {
        if taken.len() == 0 {
            self
        } else {
            let before = self.show(outputs, taken.drop_last());
            let ids = before.find_wallpapers_by_names(outputs[outputs.len() - taken.len()]);
            before.stop_animations(ids).image_taken(ids, taken.last())
        }
    }
}

/// Showing one more image is to take it off the request, and to start its transition where one
/// comes about.
pub proof fn law_showing_takes_images_off_the_request<T, I, A>(
    v: DaemonView,
    req: ImageReqView<T, I, A>,
    taken: Seq<ImageTaken>,
    last: ImageTaken,
)
    requires
        taken.len() < req.imgs.len(),
        taken.len() < req.outputs.len(),
    ensures
        ({
            let before = v.show(req.outputs, taken);
            let left = req.after(taken.len());
            let ids = before.find_wallpapers_by_names(left.outputs.last());
            &&& left.has_next()
            &&& v.show(req.outputs, taken.push(last)) == before.next_image(left).image_taken(
                ids,
                last,
            )
        }),
{
    law_images_pair_from_the_back(req, taken.len());
    assert(taken.push(last).drop_last() =~= taken);
}

/// Wallpapers that differ in neither their ids nor their names are found by the same names.
proof fn lemma_same_outputs_found(
    a: Seq<WallpaperView>,
    b: Seq<WallpaperView>,
    names: Seq<Seq<char>>,
)
    requires
        same_outputs(a, b),
    ensures
        crate::daemon::ids_of(a.filter(crate::daemon::addressed(names))) == crate::daemon::ids_of(
            b.filter(crate::daemon::addressed(names)),
        ),
    decreases a.len(),
{
    reveal(Seq::filter);
    let pred = crate::daemon::addressed(names);
    if a.len() > 0 {
        let ra = a.drop_last();
        let rb = b.drop_last();
        assert forall|i: int| 0 <= i < rb.len() implies (#[trigger] rb[i]).id == ra[i].id
            && rb[i].name == ra[i].name && rb[i].wf() by {
            assert(b[i].id == a[i].id);
        }
        lemma_same_outputs_found(ra, rb, names);
        let la = a.last();
        let lb = b[b.len() - 1];
        assert(lb.id == la.id && lb.name == la.name);
        assert forall|name: Seq<char>| la.has_name(name) == #[trigger] lb.has_name(name) by {}
        assert(pred(la) == pred(lb)) by {
            if pred(la) && names.len() > 0 {
                let k = choose|k: int| 0 <= k < names.len() && la.has_name(#[trigger] names[k]);
                assert(lb.has_name(names[k]));
            }
            if pred(lb) && names.len() > 0 {
                let k = choose|k: int| 0 <= k < names.len() && lb.has_name(#[trigger] names[k]);
                assert(la.has_name(names[k]));
            }
        }
        if pred(la) {
            assert(crate::daemon::ids_of(a.filter(pred)) =~= crate::daemon::ids_of(
                ra.filter(pred),
            ).push(la.id));
            assert(crate::daemon::ids_of(b.filter(pred)) =~= crate::daemon::ids_of(
                rb.filter(pred),
            ).push(lb.id));
        }
    } else {
        assert(a =~= b);
    }
}

/// What is known after an image was taken keeps what holds of the daemon.
proof fn lemma_image_taken(v: DaemonView, ids: Seq<u64>, taken: ImageTaken, id: u64)
    requires
        v.wf(),
        v.can_animate(ids),
        v.next_id < u64::MAX,
        same_outputs(v.wallpapers, taken.wallpapers),
    ensures
        v.image_taken(ids, taken).wf(),
        v.image_taken(ids, taken).driven(id) == if ids.contains(id) && taken.started {
            1
        } else {
            v.driven(id)
        },
{
    let known = DaemonView { wallpapers: taken.wallpapers, ..v };
    let observed = DaemonView { objects: taken.objects, wallpapers: taken.wallpapers, ..v };
    crate::daemon::lemma_same_ids_wf(v, known);
    crate::daemon::lemma_rest_wf(known, observed);
    assert(observed.driven(id) == v.driven(id));
    assert forall|k: int| 0 <= k < ids.len() implies crate::daemon::known(
        observed.wallpapers,
        #[trigger] ids[k],
    ) && observed.driven(ids[k]) == 0 by {
        assert(crate::daemon::known(v.wallpapers, ids[k]) && v.driven(ids[k]) == 0);
        let j = choose|j: int|
            0 <= j < v.wallpapers.len() && (#[trigger] v.wallpapers[j]).id == ids[k];
        assert(observed.wallpapers[j].id == ids[k]);
    }
    if taken.started {
        lemma_push_transition_wf(observed, ids);
        law_started_transition_drives_its_wallpapers(observed, ids, id);
    }
}

/// Showing images keeps what holds of the daemon, and every name finds what it found before.
proof fn lemma_show_wf(
    v: DaemonView,
    outputs: Seq<Seq<Seq<char>>>,
    taken: Seq<ImageTaken>,
    names: Seq<Seq<char>>,
)
    requires
        v.wf(),
        v.next_id + taken.len() <= u64::MAX,
        forall|k: int|
            0 <= k < taken.len() ==> same_outputs(v.wallpapers, (#[trigger] taken[k]).wallpapers),
    ensures
        v.show(outputs, taken).wf(),
        same_outputs(v.wallpapers, v.show(outputs, taken).wallpapers),
        v.show(outputs, taken).next_id <= v.next_id + taken.len(),
        v.show(outputs, taken).find_wallpapers_by_names(names) == v.find_wallpapers_by_names(names),
    decreases taken.len(),
{
    if taken.len() > 0 {
        let rest = taken.drop_last();
        assert forall|k: int| 0 <= k < rest.len() implies same_outputs(
            v.wallpapers,
            (#[trigger] rest[k]).wallpapers,
        ) by {
            assert(rest[k] == taken[k]);
        }
        lemma_show_wf(v, outputs, rest, names);
        let before = v.show(outputs, rest);
        let last = taken[taken.len() - 1];
        let ids = before.find_wallpapers_by_names(outputs[outputs.len() - taken.len()]);
        crate::daemon::lemma_stop_animations_wf(before, ids);
        lemma_found_can_be_animated(before, outputs[outputs.len() - taken.len()]);
        assert(same_outputs(v.wallpapers, last.wallpapers));
        assert forall|i: int| 0 <= i < last.wallpapers.len() implies (
        #[trigger] last.wallpapers[i]).id == before.wallpapers[i].id && last.wallpapers[i].name
            == before.wallpapers[i].name && last.wallpapers[i].wf() by {
            assert(before.wallpapers[i].id == v.wallpapers[i].id);
        }
        lemma_image_taken(before.stop_animations(ids), ids, last, 0);
        lemma_same_outputs_found(v.wallpapers, last.wallpapers, names);
    }
}

/// Of all the images of a request that go to a wallpaper the one nearest to the front, which is
/// taken last, is shown on it: its transition drives the wallpaper, or nothing does where no
/// transition came about. Image `k` is the one before which `k` others were taken.
pub proof fn law_last_image_taken_is_shown(
    v: DaemonView,
    outputs: Seq<Seq<Seq<char>>>,
    taken: Seq<ImageTaken>,
    k: int,
    id: u64,
)
    requires
        v.wf(),
        v.next_id + taken.len() <= u64::MAX,
        forall|m: int|
            0 <= m < taken.len() ==> same_outputs(v.wallpapers, (#[trigger] taken[m]).wallpapers),
        0 <= k < taken.len(),
        v.find_wallpapers_by_names(outputs[outputs.len() - 1 - k]).contains(id),
        forall|m: int|
            k < m < taken.len() ==> !v.find_wallpapers_by_names(
                #[trigger] outputs[outputs.len() - 1 - m],
            ).contains(id),
    ensures
        v.show(outputs, taken).driven(id) == if taken[k].started {
            1nat
        } else {
            0nat
        },
    decreases taken.len(),
{
    let last = taken.len() - 1;
    let rest = taken.drop_last();
    let before = v.show(outputs, rest);
    let names = outputs[outputs.len() - 1 - last];
    let ids = before.find_wallpapers_by_names(names);
    assert forall|m: int| 0 <= m < rest.len() implies same_outputs(
        v.wallpapers,
        (#[trigger] rest[m]).wallpapers,
    ) by {
        assert(rest[m] == taken[m]);
    }
    lemma_show_wf(v, outputs, rest, names);
    crate::daemon::lemma_stop_animations_wf(before, ids);
    lemma_found_can_be_animated(before, names);
    assert(same_outputs(v.wallpapers, taken[last].wallpapers));
    let ws = taken[last].wallpapers;
    assert forall|i: int| 0 <= i < ws.len() implies (#[trigger] ws[i]).id == before.wallpapers[i].id
        && ws[i].name == before.wallpapers[i].name && ws[i].wf() by {
        assert(before.wallpapers[i].id == v.wallpapers[i].id);
    }
    lemma_image_taken(before.stop_animations(ids), ids, taken[last], id);
    if k < last {
        assert(!ids.contains(id));
        law_last_image_taken_is_shown(v, outputs, rest, k, id);
    }
}

/// A cleared wallpaper shows the color it was cleared to, and nothing animates it; whatever was
/// not addressed is as it was.
pub proof fn law_cleared_wallpapers_show_the_color<T, I, A, E>(
    v: DaemonView,
    color: [u8; 4],
    outputs: Vec<String>,
    i: int,
)
    requires
        v.wf(),
        0 <= i < v.wallpapers.len(),
    ensures
        ({
            let u = v.recv_socket_msg(
                Ok::<Request<T, I, A>, E>(Request::Clear { color, outputs }),
            );
            let w = v.wallpapers[i];
            let addressed = crate::daemon::addressed(crate::daemon::strings_view(outputs@));
            &&& u.wallpapers.len() == v.wallpapers.len()
            &&& addressed(w) ==> u.wallpapers[i] == w.marked(Mark::Shows(BgImg::Color(color)))
                && u.driven(w.id) == 0
            &&& !addressed(w) ==> u.wallpapers[i] == w && u.driven(w.id) == v.driven(w.id)
        }),
{
    let names = crate::daemon::strings_view(outputs@);
    let ids = v.find_wallpapers_by_names(names);
    let pred = crate::daemon::addressed(names);
    let w = v.wallpapers[i];
    let stopped = v.stop_animations(ids);
    let u = stopped.mark(ids, Mark::Shows(BgImg::Color(color)));
    crate::daemon::lemma_named_distinct(v.wallpapers, pred);
    crate::daemon::lemma_stop_animations_wf(v, ids);
    assert(u.driven(w.id) == stopped.driven(w.id));
    if ids.contains(w.id) {
        let j = choose|j: int|
            0 <= j < v.wallpapers.len() && (#[trigger] v.wallpapers[j]).id == w.id && pred(
                v.wallpapers[j],
            );
        assert(i == j);
    }
    if pred(w) {
        assert(v.wallpapers[i].id == w.id && pred(v.wallpapers[i]));
    }
}

impl Daemon {
    /// Takes a request, or the failure to read one, which ends the daemon. What cannot be done
    /// here is returned, with the answer.
    pub fn recv_socket_msg<T, I, A, E>(
        &mut self,
        received: Result<Request<T, I, A>, E>,
    ) -> (job: Job<T, I, A>)
        requires
            old(self).wf(),
        ensures
            final(self).wf(),
            final(self)@ == old(self)@.recv_socket_msg(received),
            opt_answer(job.answer) == old(self)@.answer(received),
            job.work@ == old(self)@.work(received),
            match received {
                Ok(Request::Clear { color, outputs }) => {
                    &&& job.work matches Work::Clear { wallpapers, color: c, pixel_format }
                    &&& wallpapers@ == old(self)@.find_wallpapers_by_names(
                        crate::daemon::strings_view(outputs@),
                    )
                    &&& c == color
                    &&& pixel_format == old(self).pixel_format
                },
                Ok(Request::Img(req)) => job.work == Work::<T, I, A>::Images(req),
                _ => job.work is Nothing,
            },
    {
        match received {
            Err(_) => {
                self.raise_exit();
                Job { work: Work::Nothing, answer: None }
            },
            Ok(Request::Clear { color, outputs }) => {
                let wallpapers = self.find_wallpapers_by_names(&outputs);
                self.stop_animations(&wallpapers);
                self.mark(&wallpapers, &Mark::Shows(BgImg::Color(color)));
                Job {
                    work: Work::Clear { wallpapers, color, pixel_format: self.pixel_format },
                    answer: Some(Answer::Done),
                }
            },
            Ok(Request::Ping) => Job {
                work: Work::Nothing,
                answer: Some(Answer::Ping(self.all_configured())),
            },
            Ok(Request::Kill) => {
                self.raise_exit();
                Job { work: Work::Nothing, answer: Some(Answer::Done) }
            },
            Ok(Request::Query) => Job {
                work: Work::Nothing,
                answer: Some(Answer::Info(self.wallpapers_info())),
            },
            Ok(Request::Img(req)) => Job {
                work: Work::Images(req),
                answer: Some(Answer::Done),
            },
        }
    }

    /// Whether every wallpaper is configured.
    fn all_configured(&self) -> (r: bool)
        ensures
            r == self@.all_configured(),
    {
        let ghost ws = self@.wallpapers;
        let mut i: usize = 0;
        while i < self.wallpapers.len()
            invariant
                i <= self.wallpapers.len(),
                ws == self@.wallpapers,
                forall|j: int| 0 <= j < i ==> (#[trigger] ws[j]).configured,
            decreases self.wallpapers.len() - i,
        {
            if !self.wallpapers[i].configured {
                assert(!ws[i as int].configured);
                return false;
            }
            i += 1;
        }
        true
    }

    /// Takes the next image off a request and stops the animations on the wallpapers it goes to.
    /// When no image or no list of outputs is left the next poll is made not to wait, so that
    /// the first frames are shown at once.
    pub fn next_image<T, I, A>(&mut self, req: &mut ImageReq<T, I, A>) -> (r: Option<
        ImageJob<I, A>,
    >)
        requires
            old(self).wf(),
        ensures
            final(self).wf(),
            final(self)@ == old(self)@.next_image(old(req)@),
            opt_job(r) == old(self)@.image_job(old(req)@),
            r is Some <==> old(req)@.has_next(),
            r matches Some(job) ==> {
                &&& job.wallpapers@ == old(self)@.find_wallpapers_by_names(
                    old(req)@.outputs.last(),
                )
                &&& job.img == old(req)@.imgs.last()
                &&& job.animation == old(req)@.next_animation()
                &&& job.pixel_format == old(self).pixel_format
                &&& final(req)@ == old(req)@.advanced()
                &&& final(self)@.can_animate(job.wallpapers@)
            },
            r is None ==> *final(req) == *old(req),
    {
        if req.imgs.len() > 0 && req.outputs.len() > 0 {
            let names = req.outputs.pop().unwrap();
            let img = req.imgs.pop().unwrap();
            let animation = match &mut req.animations {
                Some(animations) => animations.pop(),
                None => None,
            };
            let wallpapers = self.find_wallpapers_by_names(&names);
            self.stop_animations(&wallpapers);
            proof {
                let last = old(req).outputs@[old(req).outputs@.len() - 1];
                assert(last == names);
                assert(req@ =~= old(req)@.advanced());
                lemma_found_can_be_animated(old(self)@, crate::daemon::strings_view(names@));
            }
            Some(ImageJob { wallpapers, img, animation, pixel_format: self.pixel_format })
        } else {
            self.set_poll_time(Timespec { tv_sec: 0, tv_nsec: 0 });
            None
        }
    }

    /// A transition was started on `wallpapers`. Returns the id of its animator.
    pub fn transition_started(&mut self, wallpapers: Vec<u64>) -> (id: u64)
        requires
            old(self).wf(),
            old(self).next_id < u64::MAX,
            old(self)@.can_animate(wallpapers@),
        ensures
            final(self).wf(),
            id == old(self).next_id,
            final(self)@ == old(self)@.push_transition(wallpapers@),
    {
        let id: u64 = self.next_id;
        let ghost ids = wallpapers@;
        self.transition_animators.push(Animator { id, wallpapers });
        self.next_id = id + 1;
        proof {
            assert(self@.transition_animators =~= old(self)@.push_transition(
                ids,
            ).transition_animators);
            lemma_push_transition_wf(old(self)@, ids);
        }
        id
    }
}

/// The `k`th image that is taken, counted from zero, is the one at distance `k` from the end. It
/// goes to the list of outputs and has the animation at the same distance from the end. It has no
/// animation only where the request has none at all, or no more than were taken before it.
pub proof fn law_images_keep_their_animations<T, I, A>(req: ImageReqView<T, I, A>, k: nat)
    requires
        k < req.imgs.len(),
        k < req.outputs.len(),
    ensures
        req.after(k).has_next(),
        req.after(k).imgs.last() == req.imgs[req.imgs.len() - 1 - k],
        req.after(k).outputs.last() == req.outputs[req.outputs.len() - 1 - k],
        req.after(k).transition == req.transition,
        req.animations is None ==> req.after(k).next_animation() is None,
        req.animations matches Some(animations) ==> req.after(k).next_animation() == if k
            < animations.len() {
            Some(animations[animations.len() - 1 - k])
        } else {
            None
        },
{
    law_images_pair_from_the_back(req, k);
}

/// Taking an image takes the last one, the last list of outputs and the last animation there is,
/// and nothing else. There is an image to take exactly as long as both an image and a list of
/// outputs are left.
pub proof fn law_what_taking_an_image_leaves<T, I, A>(req: ImageReqView<T, I, A>)
    ensures
        req.has_next() <==> req.imgs.len() > 0 && req.outputs.len() > 0,
        req.after(0) == req,
        req.after(1) == req.advanced(),
        req.has_next() ==> {
            let left = req.advanced();
            &&& left.transition == req.transition
            &&& left.imgs == req.imgs.subrange(0, req.imgs.len() - 1)
            &&& left.outputs == req.outputs.subrange(0, req.outputs.len() - 1)
            &&& left.animations is None <==> req.animations is None
            &&& req.animations matches Some(animations) ==> left.animations == Some(
                if animations.len() == 0 {
                    animations
                } else {
                    animations.subrange(0, animations.len() - 1)
                },
            )
        },
{
    reveal_with_fuel(ImageReqView::after, 2);
}

/// What is known of a request for images is what its fields hold.
pub proof fn law_image_request_shows_its_fields<T, I, A>(req: ImageReq<T, I, A>)
    ensures
        req@.transition == req.transition,
        req@.imgs == req.imgs@,
        req@.outputs.len() == req.outputs@.len(),
        forall|i: int|
            0 <= i < req.outputs@.len() ==> (#[trigger] req@.outputs[i])
                == crate::daemon::strings_view(req.outputs@[i]@),
        req.animations is None <==> req@.animations is None,
        req.animations matches Some(animations) ==> req@.animations == Some(animations@),
{
}

/// A ping is answered that all is up if and only if every single wallpaper is configured: one that
/// is not is enough for the answer to be no.
pub proof fn law_ping_speaks_for_every_wallpaper<T, I, A, E>(v: DaemonView, i: int)
    ensures
        ({
            let answer = v.answer(Ok::<Request<T, I, A>, E>(Request::Ping));
            &&& 0 <= i < v.wallpapers.len() && !v.wallpapers[i].configured ==> answer == Some(
                AnswerView::Ping(false),
            )
            &&& (forall|j: int|
                0 <= j < v.wallpapers.len() ==> (#[trigger] v.wallpapers[j]).configured)
                ==> answer == Some(AnswerView::Ping(true))
            &&& answer == Some(AnswerView::Ping(true)) || answer == Some(AnswerView::Ping(false))
        }),
{
}

/// A query is answered with one entry for each wallpaper, in order, each in the format that the
/// daemon draws in.
pub proof fn law_query_describes_every_wallpaper<T, I, A, E>(v: DaemonView)
    ensures
        v.answer(Ok::<Request<T, I, A>, E>(Request::Query)) matches Some(AnswerView::Info(info)) && {
            &&& info.len() == v.wallpapers.len()
            &&& forall|i: int|
                0 <= i < info.len() ==> (#[trigger] info[i]).wallpaper == v.wallpapers[i].id
                    && info[i].pixel_format == v.pixel_format
        },
{
}

/// An answer is what its fields hold.
pub proof fn law_answer_shows_its_fields(answer: Answer)
    ensures
        answer is Done <==> answer@ is Done,
        answer matches Answer::Ping(up) ==> answer@ == AnswerView::Ping(up),
        answer matches Answer::Info(info) ==> answer@ == AnswerView::Info(info@),
        opt_answer(None) is None,
        opt_answer(Some(answer)) == Some(answer@),
{
}

/// What a request changes by itself. A failure to read one and a request to terminate ask the
/// daemon to terminate, and change nothing else. Asking whether all is up, asking for a
/// description and asking for images change nothing.
pub proof fn law_what_a_request_changes<T, I, A, E>(
    v: DaemonView,
    error: E,
    req: ImageReq<T, I, A>,
)
    ensures
        v.recv_socket_msg(Err::<Request<T, I, A>, E>(error)) == (DaemonView { exit: true, ..v }),
        v.recv_socket_msg(Ok::<Request<T, I, A>, E>(Request::Kill)) == (DaemonView {
            exit: true,
            ..v
        }),
        v.recv_socket_msg(Ok::<Request<T, I, A>, E>(Request::Ping)) == v,
        v.recv_socket_msg(Ok::<Request<T, I, A>, E>(Request::Query)) == v,
        v.recv_socket_msg(Ok::<Request<T, I, A>, E>(Request::Img(req))) == v,
{
}

/// Clearing outputs changes what is shown on the wallpapers whose names are given, or on all where
/// no name is, and takes them from the animators. Nothing else changes.
pub proof fn law_what_clearing_changes<T, I, A, E>(
    v: DaemonView,
    color: [u8; 4],
    outputs: Vec<String>,
)
    requires
        v.wf(),
    ensures
        ({
            let u = v.recv_socket_msg(
                Ok::<Request<T, I, A>, E>(Request::Clear { color, outputs }),
            );
            let names = crate::daemon::strings_view(outputs@);
            let stopped = v.stop_animations(v.find_wallpapers_by_names(names));
            &&& u == (DaemonView {
                wallpapers: u.wallpapers,
                transition_animators: stopped.transition_animators,
                image_animators: stopped.image_animators,
                ..v
            })
            &&& u.wallpapers.len() == v.wallpapers.len()
            &&& forall|i: int|
                0 <= i < v.wallpapers.len() ==> (#[trigger] u.wallpapers[i]) == if names.len() == 0
                    || (v.wallpapers[i].name is Some && names.contains(v.wallpapers[i].name->0)) {
                    WallpaperView { img: Some(BgImgView::Color(color)), ..v.wallpapers[i] }
                } else {
                    v.wallpapers[i]
                }
        }),
{
    let names = crate::daemon::strings_view(outputs@);
    let u = v.recv_socket_msg(Ok::<Request<T, I, A>, E>(Request::Clear { color, outputs }));
    let ids = v.find_wallpapers_by_names(names);
    assert forall|i: int| 0 <= i < v.wallpapers.len() implies (#[trigger] u.wallpapers[i])
        == if names.len() == 0 || (v.wallpapers[i].name is Some && names.contains(
        v.wallpapers[i].name->0,
    )) {
        WallpaperView { img: Some(BgImgView::Color(color)), ..v.wallpapers[i] }
    } else {
        v.wallpapers[i]
    } by {
        if names.len() == 0 {
            assert(names =~= Seq::empty());
            law_no_name_means_all(v);
            assert(crate::daemon::ids_of(v.wallpapers)[i] == v.wallpapers[i].id);
            assert(ids.contains(v.wallpapers[i].id));
        } else {
            law_names_find_their_wallpapers(v, names, i);
        }
    }
}

/// What taking an image changes of the daemon: where there is one, nothing animates the wallpapers
/// of its outputs any more; where there is none, the next poll does not wait. Nothing else changes.
pub proof fn law_what_the_next_image_changes<T, I, A>(
    v: DaemonView,
    req: ImageReqView<T, I, A>,
    id: u64,
)
    ensures
        ({
            let u = v.next_image(req);
            &&& req.imgs.len() > 0 && req.outputs.len() > 0 ==> {
                &&& u == (DaemonView {
                    transition_animators: u.transition_animators,
                    image_animators: u.image_animators,
                    ..v
                })
                &&& u == v.stop_animations(
                    v.find_wallpapers_by_names(req.outputs[req.outputs.len() - 1]),
                )
                &&& u.driven(id) == if v.find_wallpapers_by_names(
                    req.outputs[req.outputs.len() - 1],
                ).contains(id) {
                    0
                } else {
                    v.driven(id)
                }
            }
            &&& req.imgs.len() == 0 || req.outputs.len() == 0 ==> {
                &&& u == (DaemonView { poll_time: u.poll_time, ..v })
                &&& v.poll_time is None ==> u.poll_time == Some(Timespec { tv_sec: 0, tv_nsec: 0 })
                &&& v.poll_time matches Some(set) ==> (set.tv_sec >= 0 && set.tv_nsec >= 0
                    ==> u.poll_time == Some(Timespec { tv_sec: 0, tv_nsec: 0 }))
            }
        }),
{
    if req.has_next() {
        crate::laws::law_stopping_frees_what_was_asked(
            v,
            v.find_wallpapers_by_names(req.outputs.last()),
            id,
        );
    }
}

/// A transition that was started is the last one, has an id that none had before it, and drives
/// the wallpapers it was started on. Nothing else changes.
pub proof fn law_a_started_transition_is_the_last(v: DaemonView, ids: Seq<u64>)
    requires
        v.next_id < u64::MAX,
    ensures
        ({
            let u = v.push_transition(ids);
            let n = v.transition_animators.len() as int;
            &&& u == (DaemonView {
                transition_animators: u.transition_animators,
                next_id: u.next_id,
                ..v
            })
            &&& u.next_id == v.next_id + 1
            &&& u.transition_animators.len() == n + 1
            &&& u.transition_animators[n].id == v.next_id
            &&& u.transition_animators[n].wallpapers == ids
            &&& forall|i: int|
                0 <= i < n ==> (#[trigger] u.transition_animators[i]) == v.transition_animators[i]
        }),
{
}

/// A transition can be started on wallpapers that are there, are given once each, and are in no
/// animator; on any such wallpapers, be they none.
pub proof fn law_on_what_a_transition_can_start(v: DaemonView, ids: Seq<u64>)
    ensures
        v.can_animate(ids) <==> {
            &&& ids.no_duplicates()
            &&& forall|k: int|
                0 <= k < ids.len() ==> v.driven(#[trigger] ids[k]) == 0 && crate::daemon::known(
                    v.wallpapers,
                    ids[k],
                )
        },
        forall|id: u64| #[trigger]
            crate::daemon::known(v.wallpapers, id) <==> exists|i: int|
                0 <= i < v.wallpapers.len() && (#[trigger] v.wallpapers[i]).id == id,
{
}

/// The `k`th image of a request that is taken, counted from zero: it is shown on the wallpapers
/// that the list of outputs at distance `k` from the end finds, in the format that the daemon draws
/// in, with the animation at that distance. It comes without an animation only where the request
/// has none at all, or no more than were taken before it. There is a `k`th image exactly where
/// there are more than `k` images and more than `k` lists of outputs.
pub proof fn law_the_job_of_every_image<T, I, A>(
    v: DaemonView,
    req: ImageReqView<T, I, A>,
    k: nat,
)
    requires
        k <= req.imgs.len(),
        k <= req.outputs.len(),
    ensures
        v.image_job(req.after(k)) is Some <==> k < req.imgs.len() && k < req.outputs.len(),
        v.image_job(req.after(k)) matches Some(job) ==> {
            &&& job.img == req.imgs[req.imgs.len() - 1 - k]
            &&& job.wallpapers == v.find_wallpapers_by_names(
                req.outputs[req.outputs.len() - 1 - k],
            )
            &&& job.pixel_format == v.pixel_format
            &&& req.animations is None ==> job.animation is None
            &&& req.animations matches Some(animations) ==> job.animation == if k
                < animations.len() {
                Some(animations[animations.len() - 1 - k])
            } else {
                None
            }
        },
{
    law_images_pair_from_the_back(req, k);
    if k < req.imgs.len() && k < req.outputs.len() {
        law_images_keep_their_animations(req, k);
    }
}

/// Work is what its fields hold, and so is a job.
pub proof fn law_work_shows_its_fields<T, I, A>(work: Work<T, I, A>, job: ImageJob<I, A>)
    ensures
        work is Nothing <==> work@ is Nothing,
        work matches Work::Clear { wallpapers, color, pixel_format } ==> work@
            == (WorkView::<T, I, A>::Clear { wallpapers: wallpapers@, color, pixel_format }),
        work matches Work::Images(req) ==> work@ == WorkView::<T, I, A>::Images(req@),
        job@.wallpapers == job.wallpapers@ && job@.img == job.img,
        job@.animation == job.animation && job@.pixel_format == job.pixel_format,
        opt_job(Some(job)) == Some(job@),
        opt_job(None::<ImageJob<I, A>>) is None,
{
}

/// What a request leaves to be done: to fill with its color the wallpapers that its names find, in
/// the format that the daemon draws in; to take the images off a request for images, of which none
/// is taken yet; and nothing for any other.
pub proof fn law_what_a_request_leaves_to_do<T, I, A, E>(
    v: DaemonView,
    received: Result<Request<T, I, A>, E>,
)
    ensures
        received matches Ok(Request::Clear { color, outputs }) ==> v.work(received)
            == (WorkView::<T, I, A>::Clear {
            wallpapers: v.find_wallpapers_by_names(crate::daemon::strings_view(outputs@)),
            color,
            pixel_format: v.pixel_format,
        }),
        received matches Ok(Request::Img(req)) ==> v.work(received) == WorkView::<T, I, A>::Images(
            req@,
        ),
        v.work(received) is Nothing <==> received is Err || received == Ok::<Request<T, I, A>, E>(
            Request::Ping,
        ) || received == Ok::<Request<T, I, A>, E>(Request::Kill) || received == Ok::<
            Request<T, I, A>,
            E,
        >(Request::Query),
{
}

} // verus!
