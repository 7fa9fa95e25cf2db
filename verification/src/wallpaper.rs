//! What the daemon knows of the wallpaper on one output.

use vstd::prelude::*;

verus! {

/// How an output turns and mirrors what is shown on it.
#[derive(Clone, Copy, Debug, PartialEq, Eq, Structural)]
pub enum Transform {
    Normal,
    Rotated90,
    Rotated180,
    Rotated270,
    Flipped,
    Flipped90,
    Flipped180,
    Flipped270,
}

/// A scale factor, and which protocol it came by. The factor is never zero.
#[derive(Clone, Copy, Debug, PartialEq, Eq, Structural)]
pub enum Scale {
    Output(i32),
    Preferred(i32),
    Fractional(i32),
}

/// What a wallpaper shows.
#[derive(Debug, PartialEq, Eq)]
pub enum BgImg {
    Color([u8; 4]),
    /// An image, by its name.
    Img(String),
}

/// The mathematical counterpart of [`BgImg`].
pub enum BgImgView {
    Color([u8; 4]),
    Img(Seq<char>),
}

impl View for BgImg {
    type V = BgImgView;

    open spec fn view(&self) -> BgImgView {
        match *self {
            BgImg::Color(color) => BgImgView::Color(color),
            BgImg::Img(name) => BgImgView::Img(name@),
        }
    }
}

impl BgImg {
    /// The same once more.
    pub fn copied(&self) -> (r: BgImg)
        ensures
            r@ == self@,
    {
        match self {
            BgImg::Color(color) => BgImg::Color(*color),
            BgImg::Img(name) => BgImg::Img(name.clone()),
        }
    }
}

/// Something that the compositor tells of an output or a surface.
pub enum Detail {
    Name(String),
    Description(String),
    Transform(Transform),
    Dimensions(i32, i32),
    Scale(Scale),
}

/// Something that has happened to a wallpaper.
#[derive(Debug, PartialEq, Eq)]
pub enum Mark {
    /// It was made to show this.
    Shows(BgImg),
    /// Its layer surface was configured.
    Configured,
    /// A frame was committed, and this callback will tell when the next one can be drawn.
    FrameRequested(u32),
    /// The callback has come.
    FrameCompleted,
}

/// One thing by which an event names a wallpaper.
#[derive(Clone, Copy, Debug, PartialEq, Eq, Structural)]
pub enum Key {
    /// The id of its `wl_output`.
    Output(u32),
    /// The registry name of its output.
    OutputName(u32),
    /// The id of its `wl_surface`.
    Surface(u32),
    /// The id of its `zwlr_layer_surface_v1`.
    LayerSurface(u32),
    /// The id of its `wp_fractional_scale_v1`.
    FractionalScale(u32),
    /// The id of the frame callback it waits for.
    Callback(u32),
}

/// The Wayland objects that were made for a wallpaper.
#[derive(Clone, Copy, Debug, PartialEq, Eq, Structural)]
pub struct Handles {
    pub output: u32,
    pub surface: u32,
    pub layer_surface: u32,
    pub fractional_scale: Option<u32>,
}

/// The wallpaper on one output.
pub struct Wallpaper {
    /// Tells this wallpaper from every other one the daemon ever had.
    pub id: u64,
    /// The registry name of the output.
    pub output_name: u32,
    pub handles: Handles,
    /// The frame callback that is outstanding.
    pub callback: Option<u32>,
    /// Whether its layer surface is configured.
    pub configured: bool,
    /// Whether a new frame can be attached to its surface: whether the surface is configured and
    /// no frame callback is outstanding.
    pub draw_ready: bool,
    /// The name of the output, once it was announced.
    pub name: Option<String>,
    /// The description of the output, once it was announced.
    pub description: Option<String>,
    /// The transform last announced.
    pub transform: Option<Transform>,
    /// The width and height last announced.
    pub dimensions: Option<(i32, i32)>,
    /// The scale last announced.
    pub scale: Option<Scale>,
    /// What it shows, as far as that was recorded.
    pub img: Option<BgImg>,
}

/// The mathematical counterpart of [`Wallpaper`].
#[verifier::ext_equal]
pub struct WallpaperView {
    pub id: u64,
    pub output_name: u32,
    pub handles: Handles,
    pub callback: Option<u32>,
    pub configured: bool,
    pub draw_ready: bool,
    pub name: Option<Seq<char>>,
    pub description: Option<Seq<char>>,
    pub transform: Option<Transform>,
    pub dimensions: Option<(i32, i32)>,
    pub scale: Option<Scale>,
    pub img: Option<BgImgView>,
}

/// The characters of a string that may be missing.
pub open spec fn opt_chars(s: Option<String>) -> Option<Seq<char>> {
    match s {
        Some(s) => Some(s@),
        None => None,
    }
}

/// What a wallpaper shows, where that was recorded.
pub open spec fn opt_img(img: Option<BgImg>) -> Option<BgImgView> {
    match img {
        Some(img) => Some(img@),
        None => None,
    }
}

impl View for Wallpaper {
    type V = WallpaperView;

    open spec fn view(&self) -> WallpaperView {
        WallpaperView {
            id: self.id,
            output_name: self.output_name,
            handles: self.handles,
            callback: self.callback,
            configured: self.configured,
            draw_ready: self.draw_ready,
            name: opt_chars(self.name),
            description: opt_chars(self.description),
            transform: self.transform,
            dimensions: self.dimensions,
            scale: self.scale,
            img: opt_img(self.img),
        }
    }
}

impl WallpaperView {
    /// A wallpaper of which nothing has been announced yet.
    pub open spec fn fresh(id: u64, output_name: u32, handles: Handles) -> WallpaperView {
        WallpaperView {
            id,
            output_name,
            handles,
            callback: None,
            configured: false,
            draw_ready: false,
            name: None,
            description: None,
            transform: None,
            dimensions: None,
            scale: None,
            img: None,
        }
    }

    /// The wallpaper once `detail` was told of it.
    pub open spec fn told(self, detail: Detail) -> WallpaperView {
        match detail {
            Detail::Name(name) => WallpaperView { name: Some(name@), ..self },
            Detail::Description(description) => WallpaperView {
                description: Some(description@),
                ..self
            },
            Detail::Transform(transform) => WallpaperView { transform: Some(transform), ..self },
            Detail::Dimensions(width, height) => WallpaperView {
                dimensions: Some((width, height)),
                ..self
            },
            Detail::Scale(scale) => WallpaperView { scale: Some(scale), ..self },
        }
    }

    /// A wallpaper can take a new frame when it is configured and waits for no callback, and at
    /// no other time.
    pub open spec fn wf(self) -> bool {
        self.draw_ready <==> self.configured && self.callback is None
    }

    /// The wallpaper once `mark` has happened to it.
    pub open spec fn marked(self, mark: Mark) -> WallpaperView {
        match mark {
            Mark::Shows(img) => WallpaperView { img: Some(img@), ..self },
            Mark::Configured => WallpaperView {
                configured: true,
                draw_ready: self.callback is None,
                ..self
            },
            Mark::FrameRequested(callback) => WallpaperView {
                callback: Some(callback),
                draw_ready: false,
                ..self
            },
            Mark::FrameCompleted => WallpaperView {
                callback: None,
                draw_ready: self.configured,
                ..self
            },
        }
    }

    /// Whether `key` names this wallpaper.
    pub open spec fn matches_key(self, key: Key) -> bool {
        match key {
            Key::Output(id) => self.handles.output == id,
            Key::OutputName(name) => self.output_name == name,
            Key::Surface(id) => self.handles.surface == id,
            Key::LayerSurface(id) => self.handles.layer_surface == id,
            Key::FractionalScale(id) => self.handles.fractional_scale == Some(id),
            Key::Callback(id) => self.callback == Some(id),
        }
    }

    /// Whether the output is known by this name.
    pub open spec fn has_name(self, name: Seq<char>) -> bool {
        self.name == Some(name)
    }
}

impl Wallpaper {
    /// A wallpaper of which nothing has been announced yet.
    pub fn new(id: u64, output_name: u32, handles: Handles) -> (w: Wallpaper)
        ensures
            w@ == WallpaperView::fresh(id, output_name, handles),
    {
        Wallpaper {
            id,
            output_name,
            handles,
            callback: None,
            configured: false,
            draw_ready: false,
            name: None,
            description: None,
            transform: None,
            dimensions: None,
            scale: None,
            img: None,
        }
    }

    /// Notes what was told of the wallpaper.
    pub fn tell(&mut self, detail: Detail)
        ensures
            final(self)@ == old(self)@.told(detail),
    {
        match detail {
            Detail::Name(name) => {
                self.name = Some(name);
            },
            Detail::Description(description) => {
                self.description = Some(description);
            },
            Detail::Transform(transform) => {
                self.transform = Some(transform);
            },
            Detail::Dimensions(width, height) => {
                self.dimensions = Some((width, height));
            },
            Detail::Scale(scale) => {
                self.scale = Some(scale);
            },
        }
    }

    /// Notes what has happened to the wallpaper.
    pub fn mark(&mut self, mark: &Mark)
        ensures
            final(self)@ == old(self)@.marked(*mark),
    {
        match mark {
            Mark::Shows(img) => {
                self.img = Some(img.copied());
            },
            Mark::Configured => {
                self.configured = true;
                self.draw_ready = self.callback.is_none();
            },
            Mark::FrameRequested(callback) => {
                self.callback = Some(*callback);
                self.draw_ready = false;
            },
            Mark::FrameCompleted => {
                self.callback = None;
                self.draw_ready = self.configured;
            },
        }
    }

    /// Whether `key` names this wallpaper.
    pub fn matches_key(&self, key: Key) -> (r: bool)
        ensures
            r == self@.matches_key(key),
    {
        match key {
            Key::Output(id) => self.handles.output == id,
            Key::OutputName(name) => self.output_name == name,
            Key::Surface(id) => self.handles.surface == id,
            Key::LayerSurface(id) => self.handles.layer_surface == id,
            Key::FractionalScale(id) => match self.handles.fractional_scale {
                Some(own) => own == id,
                None => false,
            },
            Key::Callback(id) => match self.callback {
                Some(own) => own == id,
                None => false,
            },
        }
    }

    /// Whether the output is known by this name.
    pub fn has_name(&self, name: &String) -> (r: bool)
        ensures
            r == self@.has_name(name@),
    {
        match &self.name {
            Some(own) => *own == *name,
            None => false,
        }
    }
}

/// A wallpaper that waits for a frame callback, or is not configured yet, never counts as ready for
/// a frame: a new one does not, and whatever is told of it or happens to it keeps this so.
pub proof fn law_waiting_wallpapers_are_not_ready(
    id: u64,
    output_name: u32,
    handles: Handles,
    w: WallpaperView,
    detail: Detail,
    mark: Mark,
)
    requires
        w.wf(),
    ensures
        w.callback is Some || !w.configured ==> !w.draw_ready,
        WallpaperView::fresh(id, output_name, handles).wf(),
        w.told(detail).wf(),
        w.marked(mark).wf(),
{
}

/// The wallpapers of a list, each by its view.
pub open spec fn wallpapers_view(v: Seq<Wallpaper>) -> Seq<WallpaperView> {
    v.map_values(|w: Wallpaper| w@)
}

/// `i` is the position of the first wallpaper that `key` names.
pub open spec fn is_first_match(ws: Seq<WallpaperView>, key: Key, i: int) -> bool {
    &&& 0 <= i < ws.len()
    &&& ws[i].matches_key(key)
    &&& forall|j: int| 0 <= j < i ==> !(#[trigger] ws[j]).matches_key(key)
}

/// The position of the first wallpaper that `key` names, if it names any.
pub open spec fn first_match(ws: Seq<WallpaperView>, key: Key) -> Option<int> {
    if exists|i: int| is_first_match(ws, key, i) {
        Some(choose|i: int| is_first_match(ws, key, i))
    } else {
        None
    }
}

/// There is at most one first match.
pub proof fn lemma_first_match(ws: Seq<WallpaperView>, key: Key, i: int)
    requires
        is_first_match(ws, key, i),
    ensures
        first_match(ws, key) == Some(i),
{
    let k = choose|k: int| is_first_match(ws, key, k);
    if k < i {
        assert(!ws[k].matches_key(key));
    } else if i < k {
        assert(!ws[i].matches_key(key));
    }
}

/// The position of the first wallpaper of `wallpapers` that `key` names.
pub fn find_first(wallpapers: &Vec<Wallpaper>, key: Key) -> (r: Option<usize>)
    ensures
        match r {
            Some(i) => is_first_match(wallpapers_view(wallpapers@), key, i as int) && first_match(
                wallpapers_view(wallpapers@),
                key,
            ) == Some(i as int),
            None => first_match(wallpapers_view(wallpapers@), key) is None && forall|j: int|
                0 <= j < wallpapers@.len() ==> !(#[trigger] wallpapers_view(
                    wallpapers@,
                )[j]).matches_key(key),
        },
{
    let ghost ws = wallpapers_view(wallpapers@);
    let mut i: usize = 0;
    while i < wallpapers.len()
        invariant
            i <= wallpapers.len(),
            ws == wallpapers_view(wallpapers@),
            forall|j: int| 0 <= j < i ==> !(#[trigger] ws[j]).matches_key(key),
        decreases wallpapers.len() - i,
    {
        if wallpapers[i].matches_key(key) {
            proof {
                assert(is_first_match(ws, key, i as int));
                lemma_first_match(ws, key, i as int);
            }
            return Some(i);
        }
        i += 1;
    }
    None
}

/// What is known of a wallpaper is what its fields hold.
pub proof fn law_wallpaper_shows_its_fields(w: Wallpaper)
    ensures
        w@.id == w.id && w@.output_name == w.output_name && w@.handles == w.handles,
        w@.callback == w.callback && w@.configured == w.configured,
        w@.draw_ready == w.draw_ready,
        w@.transform == w.transform && w@.dimensions == w.dimensions && w@.scale == w.scale,
        w.name is None <==> w@.name is None,
        w.name matches Some(name) ==> w@.name == Some(name@),
        w.description is None <==> w@.description is None,
        w.description matches Some(description) ==> w@.description == Some(description@),
        w.img is None <==> w@.img is None,
        w.img matches Some(BgImg::Color(color)) ==> w@.img == Some(BgImgView::Color(color)),
        w.img matches Some(BgImg::Img(name)) ==> w@.img == Some(BgImgView::Img(name@)),
{
}

/// Of a new wallpaper nothing is known but where it is.
pub proof fn law_new_wallpapers_are_blank(id: u64, output_name: u32, handles: Handles)
    ensures
        ({
            let w = WallpaperView::fresh(id, output_name, handles);
            &&& w.id == id && w.output_name == output_name && w.handles == handles
            &&& !w.configured && !w.draw_ready && w.callback is None
            &&& w.name is None && w.description is None && w.img is None
            &&& w.transform is None && w.dimensions is None && w.scale is None
        }),
{
}

/// What is told of a wallpaper, in whatever state it is, becomes what is known of it, and nothing
/// else changes.
pub proof fn law_what_is_told_is_known(
    w: WallpaperView,
    text: String,
    transform: Transform,
    width: i32,
    height: i32,
    scale: Scale,
)
    ensures
        w.told(Detail::Name(text)) == (WallpaperView { name: Some(text@), ..w }),
        w.told(Detail::Description(text)) == (WallpaperView { description: Some(text@), ..w }),
        w.told(Detail::Transform(transform)) == (WallpaperView { transform: Some(transform), ..w }),
        w.told(Detail::Dimensions(width, height)) == (WallpaperView {
            dimensions: Some((width, height)),
            ..w
        }),
        w.told(Detail::Scale(scale)) == (WallpaperView { scale: Some(scale), ..w }),
{
}

/// What happens to a wallpaper is known of it, and changes nothing that it is not about.
pub proof fn law_what_happens_is_known(w: WallpaperView, img: BgImg, callback: u32)
    ensures
        w.marked(Mark::Shows(img)) == (WallpaperView { img: Some(img@), ..w }),
        img matches BgImg::Color(color) ==> img@ == BgImgView::Color(color),
        img matches BgImg::Img(name) ==> img@ == BgImgView::Img(name@),
        w.marked(Mark::Configured) == (WallpaperView {
            configured: true,
            draw_ready: w.callback is None,
            ..w
        }),
        w.marked(Mark::FrameRequested(callback)) == (WallpaperView {
            callback: Some(callback),
            draw_ready: false,
            ..w
        }),
        w.marked(Mark::FrameCompleted) == (WallpaperView {
            callback: None,
            draw_ready: w.configured,
            ..w
        }),
{
}

/// A frame can be drawn exactly when the wallpaper is configured and no callback is outstanding.
pub proof fn law_when_a_wallpaper_is_ready(w: WallpaperView)
    ensures
        w.wf() <==> (w.draw_ready <==> w.configured && w.callback is None),
{
}

/// By which of its parts each key names a wallpaper.
pub proof fn law_what_a_key_names(w: WallpaperView, n: u32, name: Seq<char>)
    ensures
        w.matches_key(Key::Output(n)) <==> w.handles.output == n,
        w.matches_key(Key::OutputName(n)) <==> w.output_name == n,
        w.matches_key(Key::Surface(n)) <==> w.handles.surface == n,
        w.matches_key(Key::LayerSurface(n)) <==> w.handles.layer_surface == n,
        w.matches_key(Key::FractionalScale(n)) <==> w.handles.fractional_scale == Some(n),
        w.matches_key(Key::Callback(n)) <==> w.callback == Some(n),
        w.has_name(name) <==> w.name == Some(name),
{
}

/// A key means the first wallpaper that it names, if it names any.
pub proof fn law_a_key_means_the_first(ws: Seq<WallpaperView>, key: Key)
    ensures
        first_match(ws, key) is None <==> forall|j: int|
            0 <= j < ws.len() ==> !(#[trigger] ws[j]).matches_key(key),
        first_match(ws, key) matches Some(i) ==> {
            &&& 0 <= i < ws.len()
            &&& ws[i].matches_key(key)
            &&& forall|j: int| 0 <= j < i ==> !(#[trigger] ws[j]).matches_key(key)
        },
    decreases ws.len(),
{
    if first_match(ws, key) is None {
        assert forall|j: int| 0 <= j < ws.len() implies !(#[trigger] ws[j]).matches_key(key) by {
            if ws[j].matches_key(key) {
                lemma_some_first_match(ws, key, j);
            }
        }
    } else {
        let i = first_match(ws, key)->0;
        assert(is_first_match(ws, key, i));
    }
}

/// What a key names, it names for the first time somewhere.
proof fn lemma_some_first_match(ws: Seq<WallpaperView>, key: Key, j: int)
    requires
        0 <= j < ws.len(),
        ws[j].matches_key(key),
    ensures
        exists|i: int| is_first_match(ws, key, i),
    decreases j,
{
    if exists|k: int| 0 <= k < j && (#[trigger] ws[k]).matches_key(key) {
        let k = choose|k: int| 0 <= k < j && (#[trigger] ws[k]).matches_key(key);
        lemma_some_first_match(ws, key, k);
    } else {
        assert(is_first_match(ws, key, j));
    }
}

} // verus!
