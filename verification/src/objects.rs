//! The Wayland objects the daemon knows, and the interface that each of them speaks.

use vstd::prelude::*;
use vstd::string::*;
use waybackend::objman::ObjectManager;
use waybackend::types::ObjectId;

verus! {

/// What a Wayland object is to the daemon.
#[derive(Clone, Copy, Debug, PartialEq, Eq, Structural)]
pub enum WaylandObject {
    Display,
    Registry,
    Callback,
    Compositor,
    Shm,
    ShmPool,
    Buffer,
    Surface,
    Region,
    Output,
    LayerShell,
    LayerSurface,
    Viewporter,
    Viewport,
    FractionalScaler,
    FractionalScale,
}

/// The interfaces whose events the daemon handles.
#[derive(Clone, Copy, Debug, PartialEq, Eq, Structural)]
pub enum Interface {
    WlDisplay,
    WlRegistry,
    WlCallback,
    WlCompositor,
    WlShm,
    WlShmPool,
    WlBuffer,
    WlSurface,
    WlRegion,
    WlOutput,
    ZwlrLayerShellV1,
    ZwlrLayerSurfaceV1,
    WpViewporter,
    WpViewport,
    WpFractionalScaleManagerV1,
    WpFractionalScaleV1,
}

/// The id that the display has on every connection.
pub const WL_DISPLAY: u32 = 1;

/// The registry of Wayland objects that `waybackend` keeps.
#[verifier::external_type_specification]
#[verifier::external_body]
#[verifier::reject_recursive_types(T)]
pub struct ExObjectManager<T: Copy + PartialEq>(ObjectManager<T>);

/// What an `ObjectManager` holds: at position `i` the object whose id is `i + 1`, or `None` where
/// that id is free.
pub uninterp spec fn registered(manager: ObjectManager<WaylandObject>) -> Seq<
    Option<WaylandObject>,
>;

/// `i` is the lowest free position of `s`, or its length where no position is free.
pub open spec fn is_first_free(s: Seq<Option<WaylandObject>>, i: int) -> bool {
    &&& 0 <= i <= s.len()
    &&& forall|j: int| 0 <= j < i ==> (#[trigger] s[j]) is Some
    &&& i < s.len() ==> s[i] is None
}

/// The objects of `s` that are alive, in the order of their ids.
pub open spec fn alive(s: Seq<Option<WaylandObject>>) -> Seq<WaylandObject> {
    s.filter(|o: Option<WaylandObject>| o is Some).map_values(|o: Option<WaylandObject>| o->0)
}

/// `r` is the first of `objects` that is `object`, counted from one.
pub open spec fn is_first_of(
    objects: Seq<WaylandObject>,
    object: WaylandObject,
    r: Option<u32>,
) -> bool {
    match r {
        None => !objects.contains(object),
        Some(id) => {
            &&& 1 <= id <= objects.len()
            &&& objects[id - 1] == object
            &&& forall|j: int| 0 <= j < id - 1 ==> (#[trigger] objects[j]) != object
        },
    }
}

/// Every id up to the highest is in use.
pub open spec fn gapless(s: Seq<Option<WaylandObject>>) -> bool {
    forall|j: int| 0 <= j < s.len() ==> (#[trigger] s[j]) is Some
}

/// `ObjectManager::new`: only the display is registered, under id 1.
#[verifier::external_body]
fn manager_new(display: WaylandObject) -> (manager: ObjectManager<WaylandObject>)
    ensures
        registered(manager) == seq![Some(display)],
{
    ObjectManager::new(display)
}

/// `ObjectManager::create`: registers the object under the lowest free id, or under a new one
/// past the highest, and returns that id. Ids are 32 bits wide, so a new one must be left.
#[verifier::external_body]
fn manager_create(
    manager: &mut ObjectManager<WaylandObject>,
    object: WaylandObject,
) -> (id: u32)
    requires
        registered(*old(manager)).len() < u32::MAX,
    ensures
        id >= 1,
        is_first_free(registered(*old(manager)), id - 1),
        registered(*final(manager)) == if id - 1 == registered(*old(manager)).len() {
            registered(*old(manager)).push(Some(object))
        } else {
            registered(*old(manager)).update(id - 1, Some(object))
        },
{
    manager.create(object).get().get()
}

/// `ObjectManager::remove`: frees the id. It indexes by the id, so the id must have been
/// registered at some time.
#[verifier::external_body]
fn manager_remove(manager: &mut ObjectManager<WaylandObject>, id: u32)
    requires
        1 <= id <= registered(*old(manager)).len(),
    ensures
        registered(*final(manager)) == registered(*old(manager)).update(id - 1, None),
{
    manager.remove(ObjectId::try_new(id).unwrap())
}

/// `ObjectManager::get`: the object under the id, `None` where it was removed. It indexes by the
/// id, so the id must have been registered at some time.
#[verifier::external_body]
fn manager_get(manager: &ObjectManager<WaylandObject>, id: u32) -> (r: Option<WaylandObject>)
    requires
        1 <= id <= registered(*manager).len(),
    ensures
        r == registered(*manager)[id - 1],
{
    manager.get(ObjectId::try_new(id).unwrap())
}

/// `ObjectManager::get_first`: one more than the position of the first object of the kind among
/// the objects that are alive. Free ids are skipped without being counted, so the result is the
/// id of that object only where no id before it is free.
#[verifier::external_body]
fn manager_get_first(
    manager: &ObjectManager<WaylandObject>,
    object: WaylandObject,
) -> (r: Option<u32>)
    requires
        registered(*manager).len() <= u32::MAX,
    ensures
        is_first_of(alive(registered(*manager)), object, r),
{
    match manager.get_first(object) {
        Some(id) => Some(id.get().get()),
        None => None,
    }
}

/// The Wayland objects of one connection, by id.
pub struct Objects {
    manager: ObjectManager<WaylandObject>,
    highest: u32,
}

impl View for Objects {
    type V = Seq<Option<WaylandObject>>;

    closed spec fn view(&self) -> Seq<Option<WaylandObject>> {
        registered(self.manager)
    }
}

impl Objects {
    /// The highest id that was ever registered is known.
    pub closed spec fn wf(&self) -> bool {
        registered(self.manager).len() == self.highest
    }

    /// A connection on which only the display exists.
    pub fn new() -> (objects: Objects)
        ensures
            objects.wf(),
            objects@ == seq![Some(WaylandObject::Display)],
    {
        Objects { manager: manager_new(WaylandObject::Display), highest: 1 }
    }

    /// The highest id that was ever registered.
    pub fn highest(&self) -> (r: u32)
        requires
            self.wf(),
        ensures
            r == self@.len(),
    {
        self.highest
    }

    /// Registers an object and returns its id: the lowest one that is free.
    pub fn create(&mut self, object: WaylandObject) -> (id: u32)
        requires
            old(self).wf(),
            old(self)@.len() < u32::MAX,
        ensures
            final(self).wf(),
            id >= 1,
            is_first_free(old(self)@, id - 1),
            final(self)@ == spec_create(old(self)@, id, object),
    {
        let id = manager_create(&mut self.manager, object);
        if id > self.highest {
            self.highest = id;
        }
        id
    }

    /// The object under `id`, if there is one.
    pub fn get(&self, id: u32) -> (r: Option<WaylandObject>)
        requires
            self.wf(),
        ensures
            r == lookup(self@, id),
    {
        if id == 0 || id > self.highest {
            None
        } else {
            manager_get(&self.manager, id)
        }
    }

    /// Frees `id`.
    pub fn remove(&mut self, id: u32)
        requires
            old(self).wf(),
            1 <= id <= old(self)@.len(),
        ensures
            final(self).wf(),
            final(self)@ == old(self)@.update(id - 1, None),
    {
        manager_remove(&mut self.manager, id);
    }

    /// The first object of a kind, counted among the objects that are alive. Where no id is free
    /// that count is the id of the object.
    pub fn get_first(&self, object: WaylandObject) -> (r: Option<u32>)
        requires
            self.wf(),
        ensures
            is_first_of(alive(self@), object, r),
            gapless(self@) ==> (r matches Some(id) ==> lookup(self@, id) == Some(object)),
    {
        let r = manager_get_first(&self.manager, object);
        proof {
            if gapless(self@) {
                lemma_gapless_alive(self@);
            }
        }
        r
    }
}

/// The object under `id`: none under the null id, nor under an id that was never registered.
pub open spec fn lookup(s: Seq<Option<WaylandObject>>, id: u32) -> Option<WaylandObject> {
    if 1 <= id <= s.len() {
        s[id - 1]
    } else {
        None
    }
}

/// `s` with `object` under `id`, which is either free or one past the highest.
pub open spec fn spec_create(
    s: Seq<Option<WaylandObject>>,
    id: u32,
    object: WaylandObject,
) -> Seq<Option<WaylandObject>> {
    if id - 1 == s.len() {
        s.push(Some(object))
    } else {
        s.update(id - 1, Some(object))
    }
}

/// Where no id is free, the objects that are alive stand at their own positions.
pub proof fn lemma_gapless_alive(s: Seq<Option<WaylandObject>>)
    requires
        gapless(s),
    ensures
        alive(s).len() == s.len(),
        forall|i: int| 0 <= i < s.len() ==> s[i] == Some(#[trigger] alive(s)[i]),
    decreases s.len(),
{
    reveal(Seq::filter);
    let is_alive = |o: Option<WaylandObject>| o is Some;
    if s.len() > 0 {
        assert(s.last() is Some);
        assert(gapless(s.drop_last())) by {
            assert forall|j: int| 0 <= j < s.drop_last().len() implies (
            #[trigger] s.drop_last()[j]) is Some by {
                assert(s[j] is Some);
            }
        }
        lemma_gapless_alive(s.drop_last());
        assert(alive(s) =~= alive(s.drop_last()).push(s.last()->0));
    }
}

/// What is registered is alive.
pub proof fn lemma_registered_is_alive(s: Seq<Option<WaylandObject>>, i: int)
    requires
        0 <= i < s.len(),
        s[i] is Some,
    ensures
        alive(s).contains(s[i]->0),
    decreases s.len(),
{
    reveal(Seq::filter);
    let rest = s.drop_last();
    if s.last() is Some {
        assert(alive(s) =~= alive(rest).push(s.last()->0));
    } else {
        assert(alive(s) =~= alive(rest));
    }
    if i < rest.len() {
        lemma_registered_is_alive(rest, i);
        let k = choose|k: int| 0 <= k < alive(rest).len() && alive(rest)[k] == s[i]->0;
        assert(alive(s)[k] == s[i]->0);
    } else {
        assert(alive(s)[alive(rest).len() as int] == s[i]->0);
    }
}

/// An object that was just created is found under the id it was given, and every other id means
/// what it meant before.
pub proof fn law_created_object_is_found(
    s: Seq<Option<WaylandObject>>,
    id: u32,
    object: WaylandObject,
    other: u32,
)
    requires
        id >= 1,
        is_first_free(s, id - 1),
    ensures
        lookup(s, id) is None,
        lookup(spec_create(s, id, object), id) == Some(object),
        other != id ==> lookup(spec_create(s, id, object), other) == lookup(s, other),
{
}

/// Where one id alone is free the next object gets it, and then none is free.
pub proof fn law_freed_id_is_reused(
    s: Seq<Option<WaylandObject>>,
    freed: u32,
    id: u32,
    object: WaylandObject,
)
    requires
        gapless(s),
        1 <= freed <= s.len(),
        id >= 1,
        is_first_free(s.update(freed - 1, None), id - 1),
    ensures
        id == freed,
        gapless(spec_create(s.update(freed - 1, None), id, object)),
{
    let t = s.update(freed - 1, None);
    assert(t[freed - 1] is None);
    if id - 1 < t.len() {
        assert(s[id - 1] is Some);
    }
}

/// Where no id is free the next object gets a new one, and then none is free either.
pub proof fn law_new_ids_follow_the_highest(
    s: Seq<Option<WaylandObject>>,
    id: u32,
    object: WaylandObject,
)
    requires
        gapless(s),
        id >= 1,
        is_first_free(s, id - 1),
    ensures
        id == s.len() + 1,
        gapless(spec_create(s, id, object)),
{
    if id - 1 < s.len() {
        assert(s[id - 1] is Some);
    }
}

/// Where no id is free, the first object of a kind is found under its id.
pub proof fn law_first_of_a_kind_is_its_id(
    s: Seq<Option<WaylandObject>>,
    object: WaylandObject,
    id: u32,
)
    requires
        gapless(s),
        is_first_of(alive(s), object, Some(id)),
    ensures
        lookup(s, id) == Some(object),
{
    lemma_gapless_alive(s);
}

impl Interface {
    /// The name by which the protocol knows an interface.
    pub open spec fn name(self) -> Seq<char> {
        match self {
            Interface::WlDisplay => "wl_display"@,
            Interface::WlRegistry => "wl_registry"@,
            Interface::WlCallback => "wl_callback"@,
            Interface::WlCompositor => "wl_compositor"@,
            Interface::WlShm => "wl_shm"@,
            Interface::WlShmPool => "wl_shm_pool"@,
            Interface::WlBuffer => "wl_buffer"@,
            Interface::WlSurface => "wl_surface"@,
            Interface::WlRegion => "wl_region"@,
            Interface::WlOutput => "wl_output"@,
            Interface::ZwlrLayerShellV1 => "zwlr_layer_shell_v1"@,
            Interface::ZwlrLayerSurfaceV1 => "zwlr_layer_surface_v1"@,
            Interface::WpViewporter => "wp_viewporter"@,
            Interface::WpViewport => "wp_viewport"@,
            Interface::WpFractionalScaleManagerV1 => "wp_fractional_scale_manager_v1"@,
            Interface::WpFractionalScaleV1 => "wp_fractional_scale_v1"@,
        }
    }
}

impl WaylandObject {
    /// The interface an object of this kind speaks.
    pub open spec fn spec_interface(self) -> Interface {
        match self {
            WaylandObject::Display => Interface::WlDisplay,
            WaylandObject::Registry => Interface::WlRegistry,
            WaylandObject::Callback => Interface::WlCallback,
            WaylandObject::Compositor => Interface::WlCompositor,
            WaylandObject::Shm => Interface::WlShm,
            WaylandObject::ShmPool => Interface::WlShmPool,
            WaylandObject::Buffer => Interface::WlBuffer,
            WaylandObject::Surface => Interface::WlSurface,
            WaylandObject::Region => Interface::WlRegion,
            WaylandObject::Output => Interface::WlOutput,
            WaylandObject::LayerShell => Interface::ZwlrLayerShellV1,
            WaylandObject::LayerSurface => Interface::ZwlrLayerSurfaceV1,
            WaylandObject::Viewporter => Interface::WpViewporter,
            WaylandObject::Viewport => Interface::WpViewport,
            WaylandObject::FractionalScaler => Interface::WpFractionalScaleManagerV1,
            WaylandObject::FractionalScale => Interface::WpFractionalScaleV1,
        }
    }

    /// The interface whose events an object of this kind sends.
    pub fn interface(&self) -> (r: Interface)
        ensures
            r == self.spec_interface(),
    {
        match self {
            WaylandObject::Display => Interface::WlDisplay,
            WaylandObject::Registry => Interface::WlRegistry,
            WaylandObject::Callback => Interface::WlCallback,
            WaylandObject::Compositor => Interface::WlCompositor,
            WaylandObject::Shm => Interface::WlShm,
            WaylandObject::ShmPool => Interface::WlShmPool,
            WaylandObject::Buffer => Interface::WlBuffer,
            WaylandObject::Surface => Interface::WlSurface,
            WaylandObject::Region => Interface::WlRegion,
            WaylandObject::Output => Interface::WlOutput,
            WaylandObject::LayerShell => Interface::ZwlrLayerShellV1,
            WaylandObject::LayerSurface => Interface::ZwlrLayerSurfaceV1,
            WaylandObject::Viewporter => Interface::WpViewporter,
            WaylandObject::Viewport => Interface::WpViewport,
            WaylandObject::FractionalScaler => Interface::WpFractionalScaleManagerV1,
            WaylandObject::FractionalScale => Interface::WpFractionalScaleV1,
        }
    }
}

/// Whether two strings are equal.
pub(crate) fn str_eq(a: &str, b: &str) -> (r: bool)
    ensures
        r == (a@ == b@),
{
    a.to_owned() == b.to_owned()
}

/// The object as which a global of the named interface is bound; `None` where the daemon leaves
/// the global alone.
pub open spec fn spec_bound_as(interface: Seq<char>) -> Option<WaylandObject> {
    if interface == "wl_compositor"@ {
        Some(WaylandObject::Compositor)
    } else if interface == "wl_shm"@ {
        Some(WaylandObject::Shm)
    } else if interface == "zwlr_layer_shell_v1"@ {
        Some(WaylandObject::LayerShell)
    } else if interface == "wp_viewporter"@ {
        Some(WaylandObject::Viewporter)
    } else if interface == "wp_fractional_scale_manager_v1"@ {
        Some(WaylandObject::FractionalScaler)
    } else {
        None
    }
}

/// The object as which to bind a global of the named interface.
pub fn bound_as(interface: &str) -> (r: Option<WaylandObject>)
    ensures
        r == spec_bound_as(interface@),
{
    if str_eq(interface, "wl_compositor") {
        Some(WaylandObject::Compositor)
    } else if str_eq(interface, "wl_shm") {
        Some(WaylandObject::Shm)
    } else if str_eq(interface, "zwlr_layer_shell_v1") {
        Some(WaylandObject::LayerShell)
    } else if str_eq(interface, "wp_viewporter") {
        Some(WaylandObject::Viewporter)
    } else if str_eq(interface, "wp_fractional_scale_manager_v1") {
        Some(WaylandObject::FractionalScaler)
    } else {
        None
    }
}

/// An id means what is registered at its place, counted from one; no other id means anything.
pub proof fn law_what_an_id_means(s: Seq<Option<WaylandObject>>, id: u32)
    ensures
        1 <= id <= s.len() ==> lookup(s, id) == s[id - 1],
        id == 0 || id > s.len() ==> lookup(s, id) is None,
{
}

/// Registering an object touches no other place, and adds one only past the highest id.
pub proof fn law_where_an_object_is_registered(
    s: Seq<Option<WaylandObject>>,
    id: u32,
    object: WaylandObject,
)
    requires
        1 <= id <= s.len() + 1,
    ensures
        ({
            let t = spec_create(s, id, object);
            &&& t.len() == if id <= s.len() {
                s.len()
            } else {
                s.len() + 1
            }
            &&& t[id - 1] == Some(object)
            &&& forall|j: int| 0 <= j < s.len() && j != id - 1 ==> (#[trigger] t[j]) == s[j]
        }),
{
}

/// Five kinds of globals are bound, each as the object that speaks its interface, and no others.
pub proof fn law_which_globals_are_bound(interface: Seq<char>)
    ensures
        spec_bound_as(interface) is Some <==> (interface == "wl_compositor"@ || interface
            == "wl_shm"@ || interface == "zwlr_layer_shell_v1"@ || interface == "wp_viewporter"@
            || interface == "wp_fractional_scale_manager_v1"@),
        spec_bound_as(interface) matches Some(object) ==> object.spec_interface().name()
            == interface,
        spec_bound_as("wl_compositor"@) == Some(WaylandObject::Compositor),
        spec_bound_as("wl_shm"@) == Some(WaylandObject::Shm),
        spec_bound_as("zwlr_layer_shell_v1"@) == Some(WaylandObject::LayerShell),
        spec_bound_as("wp_viewporter"@) == Some(WaylandObject::Viewporter),
        spec_bound_as("wp_fractional_scale_manager_v1"@) == Some(WaylandObject::FractionalScaler),
{
    reveal_strlit("wl_compositor");
    reveal_strlit("wl_shm");
    reveal_strlit("zwlr_layer_shell_v1");
    reveal_strlit("wp_viewporter");
    reveal_strlit("wp_fractional_scale_manager_v1");
    assert("wl_compositor"@.len() == 13);
    assert("wl_shm"@.len() == 6);
    assert("zwlr_layer_shell_v1"@.len() == 19);
    assert("wp_viewporter"@.len() == 13);
    assert("wp_fractional_scale_manager_v1"@.len() == 30);
    assert("wl_compositor"@[1] != "wp_viewporter"@[1]);
}

/// Every kind of object speaks an interface of its own, so that no two kinds are handled alike, and
/// under the name that the protocol gives it.
pub proof fn law_every_kind_has_its_interface(a: WaylandObject, b: WaylandObject)
    ensures
        a.spec_interface() == b.spec_interface() <==> a == b,
        WaylandObject::Display.spec_interface().name() == "wl_display"@,
        WaylandObject::Registry.spec_interface().name() == "wl_registry"@,
        WaylandObject::Callback.spec_interface().name() == "wl_callback"@,
        WaylandObject::Compositor.spec_interface().name() == "wl_compositor"@,
        WaylandObject::Shm.spec_interface().name() == "wl_shm"@,
        WaylandObject::ShmPool.spec_interface().name() == "wl_shm_pool"@,
        WaylandObject::Buffer.spec_interface().name() == "wl_buffer"@,
        WaylandObject::Surface.spec_interface().name() == "wl_surface"@,
        WaylandObject::Region.spec_interface().name() == "wl_region"@,
        WaylandObject::Output.spec_interface().name() == "wl_output"@,
        WaylandObject::LayerShell.spec_interface().name() == "zwlr_layer_shell_v1"@,
        WaylandObject::LayerSurface.spec_interface().name() == "zwlr_layer_surface_v1"@,
        WaylandObject::Viewporter.spec_interface().name() == "wp_viewporter"@,
        WaylandObject::Viewport.spec_interface().name() == "wp_viewport"@,
        WaylandObject::FractionalScaler.spec_interface().name()
            == "wp_fractional_scale_manager_v1"@,
        WaylandObject::FractionalScale.spec_interface().name() == "wp_fractional_scale_v1"@,
        Interface::WlDisplay.name() == "wl_display"@,
        Interface::WlRegistry.name() == "wl_registry"@,
        Interface::WlCallback.name() == "wl_callback"@,
        Interface::WlCompositor.name() == "wl_compositor"@,
        Interface::WlShm.name() == "wl_shm"@,
        Interface::WlShmPool.name() == "wl_shm_pool"@,
        Interface::WlBuffer.name() == "wl_buffer"@,
        Interface::WlSurface.name() == "wl_surface"@,
        Interface::WlRegion.name() == "wl_region"@,
        Interface::WlOutput.name() == "wl_output"@,
        Interface::ZwlrLayerShellV1.name() == "zwlr_layer_shell_v1"@,
        Interface::ZwlrLayerSurfaceV1.name() == "zwlr_layer_surface_v1"@,
        Interface::WpViewporter.name() == "wp_viewporter"@,
        Interface::WpViewport.name() == "wp_viewport"@,
        Interface::WpFractionalScaleManagerV1.name() == "wp_fractional_scale_manager_v1"@,
        Interface::WpFractionalScaleV1.name() == "wp_fractional_scale_v1"@,
{
}

} // verus!
