use swww_daemon::objects::{bound_as, Interface, Objects, WaylandObject};

#[test]
fn display_is_the_first_object() {
    let objects = Objects::new();
    assert_eq!(objects.highest(), 1);
    assert_eq!(objects.get(1), Some(WaylandObject::Display));
    assert_eq!(objects.get(0), None);
    assert_eq!(objects.get(2), None);
}

#[test]
fn created_objects_are_found() {
    let mut objects = Objects::new();
    assert_eq!(objects.create(WaylandObject::Registry), 2);
    assert_eq!(objects.create(WaylandObject::Callback), 3);
    assert_eq!(objects.get(2), Some(WaylandObject::Registry));
    assert_eq!(objects.get(3), Some(WaylandObject::Callback));
    assert_eq!(objects.highest(), 3);
}

#[test]
fn freed_ids_are_reused_lowest_first() {
    let mut objects = Objects::new();
    for _ in 0..4 {
        let _ = objects.create(WaylandObject::Region);
    }
    objects.remove(4);
    objects.remove(2);
    assert_eq!(objects.get(2), None);
    assert_eq!(objects.get(4), None);
    assert_eq!(objects.highest(), 5);
    assert_eq!(objects.create(WaylandObject::Shm), 2);
    assert_eq!(objects.create(WaylandObject::Surface), 4);
    assert_eq!(objects.create(WaylandObject::Output), 6);
    assert_eq!(objects.get(2), Some(WaylandObject::Shm));
}

#[test]
fn removing_twice_is_harmless() {
    let mut objects = Objects::new();
    let id = objects.create(WaylandObject::Buffer);
    objects.remove(id);
    objects.remove(id);
    assert_eq!(objects.get(id), None);
}

#[test]
fn first_of_a_kind() {
    let mut objects = Objects::new();
    let registry = objects.create(WaylandObject::Registry);
    let shm = objects.create(WaylandObject::Shm);
    let _ = objects.create(WaylandObject::Shm);
    assert_eq!(objects.get_first(WaylandObject::Registry), Some(registry));
    assert_eq!(objects.get_first(WaylandObject::Shm), Some(shm));
    assert_eq!(objects.get_first(WaylandObject::LayerShell), None);
}

#[test]
fn first_of_a_kind_counts_only_what_is_alive() {
    let mut objects = Objects::new();
    let registry = objects.create(WaylandObject::Registry);
    let shm = objects.create(WaylandObject::Shm);
    objects.remove(registry);
    assert_eq!(shm, 3);
    assert_eq!(objects.get_first(WaylandObject::Shm), Some(2));
}

#[test]
fn globals_are_bound_by_interface() {
    assert_eq!(bound_as("wl_compositor"), Some(WaylandObject::Compositor));
    assert_eq!(bound_as("wl_shm"), Some(WaylandObject::Shm));
    assert_eq!(bound_as("zwlr_layer_shell_v1"), Some(WaylandObject::LayerShell));
    assert_eq!(bound_as("wp_viewporter"), Some(WaylandObject::Viewporter));
    assert_eq!(
        bound_as("wp_fractional_scale_manager_v1"),
        Some(WaylandObject::FractionalScaler)
    );
    assert_eq!(bound_as("wl_output"), None);
    assert_eq!(bound_as("wl_shm_pool"), None);
    assert_eq!(bound_as(""), None);
}

#[test]
fn every_object_has_its_interface() {
    let table = [
        (WaylandObject::Display, Interface::WlDisplay),
        (WaylandObject::Registry, Interface::WlRegistry),
        (WaylandObject::Callback, Interface::WlCallback),
        (WaylandObject::Compositor, Interface::WlCompositor),
        (WaylandObject::Shm, Interface::WlShm),
        (WaylandObject::ShmPool, Interface::WlShmPool),
        (WaylandObject::Buffer, Interface::WlBuffer),
        (WaylandObject::Surface, Interface::WlSurface),
        (WaylandObject::Region, Interface::WlRegion),
        (WaylandObject::Output, Interface::WlOutput),
        (WaylandObject::LayerShell, Interface::ZwlrLayerShellV1),
        (WaylandObject::LayerSurface, Interface::ZwlrLayerSurfaceV1),
        (WaylandObject::Viewporter, Interface::WpViewporter),
        (WaylandObject::Viewport, Interface::WpViewport),
        (WaylandObject::FractionalScaler, Interface::WpFractionalScaleManagerV1),
        (WaylandObject::FractionalScale, Interface::WpFractionalScaleV1),
    ];
    for (object, interface) in table {
        assert_eq!(object.interface(), interface);
    }
}
