use swww_daemon::animator::Animator;
use swww_daemon::daemon::{BgInfo, Cli, Daemon, Layer};
use swww_daemon::events::Outcome;
use swww_daemon::format::PixelFormat;
use swww_daemon::objects::{Objects, WaylandObject};
use swww_daemon::time::Timespec;
use swww_daemon::wallpaper::{find_first, Handles, Key, Mark};

fn objects() -> Objects {
    let mut objects = Objects::new();
    let _ = objects.create(WaylandObject::Registry);
    let callback = objects.create(WaylandObject::Callback);
    objects.remove(callback);
    for object in [
        WaylandObject::Compositor,
        WaylandObject::Shm,
        WaylandObject::LayerShell,
        WaylandObject::Viewporter,
    ] {
        let _ = objects.create(object);
    }
    objects
}

fn cli() -> Cli {
    Cli {
        format: None,
        layer: Layer::Background,
        namespace: String::new(),
        no_cache: false,
        quiet: false,
    }
}

fn handles(n: u32) -> Handles {
    Handles {
        output: 100 + n,
        surface: 200 + n,
        layer_surface: 300 + n,
        fractional_scale: Some(400 + n),
    }
}

/// A daemon with wallpapers on the outputs `out0`, `out1` and so on.
fn daemon_with(outputs: u32) -> Daemon {
    let mut daemon = Daemon::new(objects(), cli(), vec![]);
    for n in 0..outputs {
        let id = daemon.new_output(10 + n, handles(n));
        assert_eq!(id, u64::from(n));
        assert_eq!(daemon.name(100 + n, format!("out{n}")), Outcome::Applied(id));
    }
    daemon
}

fn wallpapers_of(animators: &[Animator]) -> Vec<Vec<u64>> {
    animators.iter().map(|a| a.wallpapers.clone()).collect()
}

#[test]
fn new_daemon_finds_its_globals() {
    let daemon = Daemon::new(objects(), cli(), vec![7, 9]);
    assert_eq!(daemon.registry, 2);
    assert_eq!(daemon.compositor, 3);
    assert_eq!(daemon.shm, 4);
    assert_eq!(daemon.layer_shell, 5);
    assert_eq!(daemon.viewporter, 6);
    assert_eq!(daemon.fractional_scale_manager, None);
    assert_eq!(daemon.callback, Some(7));
    assert_eq!(daemon.objects.get(7), Some(WaylandObject::Callback));
    assert_eq!(daemon.output_globals, Some(vec![7, 9]));
    assert!(daemon.wallpapers.is_empty());
    assert!(daemon.transition_animators.is_empty());
    assert!(daemon.image_animators.is_empty());
    assert_eq!(daemon.poll_time, None);
    assert!(!daemon.exit.raised);
}

#[test]
fn new_daemon_uses_the_fractional_scaler_if_bound() {
    let mut objects = objects();
    let scaler = objects.create(WaylandObject::FractionalScaler);
    let daemon = Daemon::new(objects, cli(), vec![]);
    assert_eq!(daemon.fractional_scale_manager, Some(scaler));
}

#[test]
fn new_daemon_does_what_the_user_asked_for() {
    let default = Daemon::new(objects(), cli(), vec![]);
    assert_eq!(default.pixel_format, PixelFormat::Xrgb);
    assert!(!default.forced_shm_format);
    assert!(default.use_cache);
    assert_eq!(default.layer, Layer::Background);
    let chosen = Daemon::new(
        objects(),
        Cli {
            format: Some(PixelFormat::Rgb),
            layer: Layer::Bottom,
            namespace: "second".to_string(),
            no_cache: true,
            quiet: true,
        },
        vec![],
    );
    assert_eq!(chosen.pixel_format, PixelFormat::Rgb);
    assert!(chosen.forced_shm_format);
    assert!(!chosen.use_cache);
    assert_eq!(chosen.layer, Layer::Bottom);
    assert_eq!(chosen.namespace, "second");
}

#[test]
fn poll_time_is_only_lowered() {
    let mut daemon = daemon_with(0);
    let long = Timespec { tv_sec: 1, tv_nsec: 0 };
    let short = Timespec { tv_sec: 0, tv_nsec: 999 };
    daemon.set_poll_time(long);
    assert_eq!(daemon.poll_time, Some(long));
    daemon.set_poll_time(short);
    assert_eq!(daemon.poll_time, Some(short));
    daemon.set_poll_time(long);
    assert_eq!(daemon.poll_time, Some(short));
    daemon.set_poll_time(Timespec { tv_sec: 0, tv_nsec: 998 });
    assert_eq!(daemon.poll_time, Some(Timespec { tv_sec: 0, tv_nsec: 998 }));
}

#[test]
fn new_outputs_get_fresh_wallpapers() {
    let mut daemon = Daemon::new(objects(), cli(), vec![]);
    assert_eq!(daemon.new_output(10, handles(0)), 0);
    assert_eq!(daemon.new_output(11, handles(1)), 1);
    assert_eq!(daemon.wallpapers.len(), 2);
    let w = &daemon.wallpapers[1];
    assert_eq!((w.id, w.output_name), (1, 11));
    assert_eq!(w.handles, handles(1));
    assert!(!w.configured && !w.draw_ready);
    assert!(w.name.is_none() && w.description.is_none() && w.callback.is_none());
    assert!(w.transform.is_none() && w.dimensions.is_none() && w.scale.is_none());
}

#[test]
fn ids_are_never_given_twice() {
    let mut daemon = daemon_with(2);
    let gone = daemon.remove_wallpaper(1);
    assert_eq!(gone.id, 1);
    assert_eq!(daemon.new_output(11, handles(1)), 2);
}

#[test]
fn info_lists_every_wallpaper() {
    let daemon = daemon_with(2);
    let format = PixelFormat::Xrgb;
    assert_eq!(
        daemon.wallpapers_info(),
        vec![
            BgInfo { wallpaper: 0, pixel_format: format },
            BgInfo { wallpaper: 1, pixel_format: format },
        ]
    );
    assert!(daemon_with(0).wallpapers_info().is_empty());
}

#[test]
fn wallpapers_are_found_by_name() {
    let daemon = daemon_with(3);
    let find = |names: &[&str]| {
        daemon.find_wallpapers_by_names(&names.iter().map(|n| n.to_string()).collect())
    };
    assert_eq!(find(&["out1"]), vec![1]);
    assert_eq!(find(&["out2", "out0"]), vec![0, 2]);
    assert_eq!(find(&["out1", "out1"]), vec![1]);
    assert!(find(&["out3"]).is_empty());
    assert!(find(&["out"]).is_empty());
}

#[test]
fn no_name_finds_every_wallpaper() {
    assert_eq!(daemon_with(3).find_wallpapers_by_names(&vec![]), vec![0, 1, 2]);
}

#[test]
fn nameless_wallpapers_are_only_found_without_names() {
    let mut daemon = daemon_with(0);
    let id = daemon.new_output(10, handles(0));
    assert!(daemon.find_wallpapers_by_names(&vec![String::new()]).is_empty());
    assert_eq!(daemon.find_wallpapers_by_names(&vec![]), vec![id]);
}

#[test]
fn stopping_takes_wallpapers_from_their_animators() {
    let mut daemon = daemon_with(5);
    daemon.transition_animators = vec![
        Animator { id: 10, wallpapers: vec![0, 1] },
        Animator { id: 11, wallpapers: vec![2] },
    ];
    daemon.image_animators = vec![
        Animator { id: 12, wallpapers: vec![3] },
        Animator { id: 13, wallpapers: vec![4] },
    ];
    daemon.stop_animations(&vec![1, 2, 4]);
    assert_eq!(wallpapers_of(&daemon.transition_animators), vec![vec![0]]);
    assert_eq!(wallpapers_of(&daemon.image_animators), vec![vec![3]]);
    assert_eq!(daemon.transition_animators[0].id, 10);
    assert_eq!(daemon.image_animators[0].id, 12);
    assert_eq!(daemon.wallpapers.len(), 5);
}

#[test]
fn stopping_nothing_drops_idle_animators() {
    let mut daemon = daemon_with(1);
    daemon.transition_animators = vec![Animator { id: 10, wallpapers: vec![] }];
    daemon.image_animators = vec![Animator { id: 11, wallpapers: vec![0] }];
    daemon.stop_animations(&vec![]);
    assert!(daemon.transition_animators.is_empty());
    assert_eq!(wallpapers_of(&daemon.image_animators), vec![vec![0]]);
}

#[test]
fn stops_compose() {
    let animate = || {
        let mut daemon = daemon_with(4);
        daemon.transition_animators = vec![
            Animator { id: 10, wallpapers: vec![0, 1, 2] },
            Animator { id: 11, wallpapers: vec![3] },
        ];
        daemon
    };
    let mut one_by_one = animate();
    one_by_one.stop_animations(&vec![0]);
    one_by_one.stop_animations(&vec![3, 1]);
    let mut at_once = animate();
    at_once.stop_animations(&vec![0, 3, 1]);
    assert_eq!(wallpapers_of(&one_by_one.transition_animators), vec![vec![2]]);
    assert_eq!(wallpapers_of(&at_once.transition_animators), vec![vec![2]]);
}

#[test]
fn removed_wallpapers_are_not_animated() {
    let mut daemon = daemon_with(3);
    daemon.transition_animators = vec![Animator { id: 10, wallpapers: vec![0, 1] }];
    daemon.image_animators = vec![Animator { id: 11, wallpapers: vec![2] }];
    let gone = daemon.remove_wallpaper(0);
    assert_eq!((gone.id, gone.output_name), (0, 10));
    assert_eq!(gone.name.as_deref(), Some("out0"));
    let left: Vec<u64> = daemon.wallpapers.iter().map(|w| w.id).collect();
    assert_eq!(left, vec![1, 2]);
    assert_eq!(wallpapers_of(&daemon.transition_animators), vec![vec![1]]);
    assert_eq!(wallpapers_of(&daemon.image_animators), vec![vec![2]]);
}

#[test]
fn keys_find_the_first_wallpaper() {
    let mut daemon = daemon_with(2);
    daemon.mark(&vec![1], &Mark::FrameRequested(77));
    let find = |key| find_first(&daemon.wallpapers, key);
    assert_eq!(find(Key::Output(101)), Some(1));
    assert_eq!(find(Key::OutputName(10)), Some(0));
    assert_eq!(find(Key::Surface(201)), Some(1));
    assert_eq!(find(Key::LayerSurface(300)), Some(0));
    assert_eq!(find(Key::FractionalScale(401)), Some(1));
    assert_eq!(find(Key::Callback(77)), Some(1));
    assert_eq!(find(Key::Callback(78)), None);
    assert_eq!(find(Key::Output(201)), None);
}
