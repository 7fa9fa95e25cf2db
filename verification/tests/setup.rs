use swww_daemon::objects::{Objects, WaylandObject};
use swww_daemon::setup::{bind_globals, output_names, Binding, Global};

fn global(name: u32, interface: &str, version: u32) -> Global {
    Global { name, interface: interface.to_string(), version }
}

fn globals() -> Vec<Global> {
    vec![
        global(1, "wl_compositor", 6),
        global(2, "wl_output", 4),
        global(3, "wl_shm", 1),
        global(4, "wl_seat", 9),
        global(5, "wp_viewporter", 1),
        global(6, "wl_output", 3),
    ]
}

#[test]
fn outputs_are_told_from_other_globals() {
    assert_eq!(output_names(&globals()), vec![2, 6]);
    assert!(output_names(&vec![]).is_empty());
}

#[test]
fn known_globals_are_bound_in_order() {
    let mut objects = Objects::new();
    let _ = objects.create(WaylandObject::Registry);
    let callback = objects.create(WaylandObject::Callback);
    objects.remove(callback);
    assert_eq!(
        bind_globals(&mut objects, &globals()),
        vec![
            Binding { global: 0, id: 3 },
            Binding { global: 2, id: 4 },
            Binding { global: 4, id: 5 },
        ]
    );
    assert_eq!(objects.get(3), Some(WaylandObject::Compositor));
    assert_eq!(objects.get(4), Some(WaylandObject::Shm));
    assert_eq!(objects.get(5), Some(WaylandObject::Viewporter));
    assert_eq!(objects.highest(), 5);
}

#[test]
fn bound_globals_are_found_under_their_ids() {
    for delete_callback in [false, true] {
        let mut objects = Objects::new();
        let _ = objects.create(WaylandObject::Registry);
        let callback = objects.create(WaylandObject::Callback);
        if delete_callback {
            objects.remove(callback);
        }
        let bindings = bind_globals(&mut objects, &globals());
        assert_eq!(objects.get_first(WaylandObject::Registry), Some(2));
        assert_eq!(objects.get_first(WaylandObject::Compositor), Some(bindings[0].id));
        assert_eq!(objects.get_first(WaylandObject::Shm), Some(bindings[1].id));
        assert_eq!(objects.get_first(WaylandObject::Viewporter), Some(bindings[2].id));
        assert_eq!(objects.get_first(WaylandObject::LayerShell), None);
    }
}

#[test]
fn nothing_to_bind_changes_nothing() {
    let mut objects = Objects::new();
    assert!(bind_globals(&mut objects, &vec![global(7, "wl_output", 4)]).is_empty());
    assert_eq!(objects.highest(), 1);
}
