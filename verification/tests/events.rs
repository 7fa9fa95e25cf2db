use swww_daemon::animator::Animator;
use swww_daemon::daemon::{Cli, Daemon, Layer};
use swww_daemon::events::{
    AckConfigure, CallbackAction, GlobalAction, Outcome, ReleaseStage, ScaleOutcome,
};
use swww_daemon::format::{PixelFormat, ShmFormat};
use swww_daemon::objects::{Objects, WaylandObject};
use swww_daemon::wallpaper::{BgImg, Handles, Mark, Scale, Transform};

fn objects() -> Objects {
    let mut objects = Objects::new();
    let _ = objects.create(WaylandObject::Registry);
    let callback = objects.create(WaylandObject::Callback);
    objects.remove(callback);
    for object in [
        WaylandObject::Compositor,
        WaylandObject::Shm,
        WaylandObject::LayerShell,
        WaylandObject::Viewporter,
    ] {
        let _ = objects.create(object);
    }
    objects
}

fn cli() -> Cli {
    Cli {
        format: None,
        layer: Layer::Background,
        namespace: String::new(),
        no_cache: false,
        quiet: false,
    }
}

fn handles(n: u32) -> Handles {
    Handles {
        output: 100 + n,
        surface: 200 + n,
        layer_surface: 300 + n,
        fractional_scale: Some(400 + n),
    }
}

/// A daemon with wallpapers on the outputs `out0`, `out1` and so on.
fn daemon_with(outputs: u32) -> Daemon {
    let mut daemon = Daemon::new(objects(), cli(), vec![]);
    for n in 0..outputs {
        let id = daemon.new_output(10 + n, handles(n));
        assert_eq!(id, u64::from(n));
        assert_eq!(daemon.name(100 + n, format!("out{n}")), Outcome::Applied(id));
    }
    daemon
}

#[test]
fn deleted_ids_are_freed() {
    let mut daemon = daemon_with(0);
    let callback = daemon.callback.unwrap();
    daemon.delete_id(callback);
    assert_eq!(daemon.objects.get(callback), None);
    assert_eq!(daemon.objects.create(WaylandObject::Surface), callback);
}

#[test]
fn the_null_id_is_not_deleted() {
    let mut daemon = daemon_with(0);
    daemon.delete_id(0);
    assert_eq!(daemon.objects.get(1), Some(WaylandObject::Display));
    assert_eq!(daemon.objects.highest(), 7);
}

#[test]
fn a_protocol_error_ends_the_daemon() {
    let mut daemon = daemon_with(1);
    daemon.error();
    assert!(daemon.exit.raised);
    assert_eq!(daemon.wallpapers.len(), 1);
}

#[test]
fn recent_outputs_get_wallpapers() {
    let daemon = daemon_with(0);
    let new_output = GlobalAction::NewOutput { name: 21, layer: Layer::Background };
    assert_eq!(daemon.global(21, "wl_output", 4), new_output);
    assert_eq!(daemon.global(21, "wl_output", 5), new_output);
    assert_eq!(daemon.global(21, "wl_output", 3), GlobalAction::TooOld);
    assert_eq!(daemon.global(21, "wl_seat", 3), GlobalAction::Ignore);
    assert_eq!(daemon.global(21, "wl_outputs", 9), GlobalAction::Ignore);
}

#[test]
fn wallpapers_of_removed_outputs_go() {
    let mut daemon = daemon_with(2);
    daemon.next_id = 20;
    daemon.transition_animators = vec![Animator { id: 5, wallpapers: vec![0, 1] }];
    assert!(daemon.global_remove(99).is_none());
    assert_eq!(daemon.wallpapers.len(), 2);
    let gone = daemon.global_remove(10).unwrap();
    assert_eq!(gone.id, 0);
    assert_eq!(daemon.wallpapers.len(), 1);
    assert_eq!(daemon.transition_animators[0].wallpapers, vec![1]);
    assert!(daemon.global_remove(10).is_none());
}

#[test]
fn wallpapers_of_closed_surfaces_go() {
    let mut daemon = daemon_with(2);
    daemon.next_id = 20;
    daemon.image_animators = vec![Animator { id: 5, wallpapers: vec![1] }];
    assert!(daemon.closed(201).is_none());
    let gone = daemon.closed(301).unwrap();
    assert_eq!((gone.id, gone.output_name), (1, 11));
    assert!(daemon.image_animators.is_empty());
    assert_eq!(daemon.wallpapers[0].id, 0);
}

#[test]
fn announced_formats_are_selected() {
    let mut daemon = daemon_with(0);
    daemon.format(ShmFormat::Rgb888);
    assert_eq!(daemon.pixel_format, PixelFormat::Rgb);
    daemon.format(ShmFormat::Xbgr8888);
    assert_eq!(daemon.pixel_format, PixelFormat::Rgb);
    daemon.format(ShmFormat::Bgr888);
    assert_eq!(daemon.pixel_format, PixelFormat::Bgr);
    daemon.format(ShmFormat::Rgb888);
    assert_eq!(daemon.pixel_format, PixelFormat::Bgr);
}

#[test]
fn a_format_the_user_chose_stays() {
    let mut args = cli();
    args.format = Some(PixelFormat::Xrgb);
    let mut daemon = Daemon::new(objects(), args, vec![]);
    daemon.format(ShmFormat::Bgr888);
    assert_eq!(daemon.pixel_format, PixelFormat::Xrgb);
}

#[test]
fn transforms_are_taken_but_one() {
    let mut daemon = daemon_with(2);
    assert_eq!(daemon.geometry(101, Transform::Rotated90), Outcome::Applied(1));
    assert_eq!(daemon.wallpapers[1].transform, Some(Transform::Rotated90));
    assert_eq!(daemon.wallpapers[0].transform, None);
    assert_eq!(daemon.geometry(101, Transform::Flipped270), Outcome::Rejected);
    assert_eq!(daemon.wallpapers[1].transform, Some(Transform::Rotated90));
    assert_eq!(daemon.geometry(105, Transform::Normal), Outcome::Unknown);
    assert_eq!(daemon.geometry(105, Transform::Flipped270), Outcome::Unknown);
}

#[test]
fn outputs_are_named_and_described() {
    let mut daemon = daemon_with(2);
    assert_eq!(daemon.name(100, "DP-1".to_string()), Outcome::Applied(0));
    assert_eq!(daemon.description(101, "the left one".to_string()), Outcome::Applied(1));
    assert_eq!(daemon.wallpapers[0].name.as_deref(), Some("DP-1"));
    assert_eq!(daemon.wallpapers[0].description, None);
    assert_eq!(daemon.wallpapers[1].description.as_deref(), Some("the left one"));
    assert_eq!(daemon.wallpapers[1].name.as_deref(), Some("out1"));
    assert_eq!(daemon.name(1, String::new()), Outcome::Unknown);
    assert_eq!(daemon.description(1, String::new()), Outcome::Unknown);
    assert_eq!(daemon.find_wallpapers_by_names(&vec!["DP-1".to_string()]), vec![0]);
}

#[test]
fn output_scales_are_taken_unless_zero() {
    let mut daemon = daemon_with(1);
    assert_eq!(daemon.scale(100, 2), Outcome::Applied(0));
    assert_eq!(daemon.wallpapers[0].scale, Some(Scale::Output(2)));
    assert_eq!(daemon.scale(100, 0), Outcome::Rejected);
    assert_eq!(daemon.wallpapers[0].scale, Some(Scale::Output(2)));
    assert_eq!(daemon.scale(200, 3), Outcome::Unknown);
}

#[test]
fn buffer_scales_are_taken_unless_zero() {
    let mut daemon = daemon_with(1);
    assert_eq!(daemon.preferred_buffer_scale(200, 3), Outcome::Applied(0));
    assert_eq!(daemon.wallpapers[0].scale, Some(Scale::Preferred(3)));
    assert_eq!(daemon.preferred_buffer_scale(200, 0), Outcome::Rejected);
    assert_eq!(daemon.wallpapers[0].scale, Some(Scale::Preferred(3)));
    assert_eq!(daemon.preferred_buffer_scale(100, 3), Outcome::Unknown);
}

#[test]
fn fractional_scales_are_taken_unless_zero() {
    let mut daemon = daemon_with(1);
    assert!(matches!(daemon.preferred_scale(400, 180), ScaleOutcome::Commit(c)
        if c.wallpaper == 0));
    assert_eq!(daemon.wallpapers[0].scale, Some(Scale::Fractional(180)));
    assert!(matches!(daemon.preferred_scale(400, 0), ScaleOutcome::Rejected));
    assert_eq!(daemon.wallpapers[0].scale, Some(Scale::Fractional(180)));
    assert!(matches!(daemon.preferred_scale(100, 180), ScaleOutcome::Unknown));
    assert!(matches!(daemon.preferred_scale(400, u32::MAX), ScaleOutcome::Commit(_)));
    assert_eq!(daemon.wallpapers[0].scale, Some(Scale::Fractional(-1)));
}

#[test]
fn only_the_current_mode_counts() {
    let mut daemon = daemon_with(2);
    daemon.mode(101, 0, 640, 480);
    daemon.mode(101, 2, 640, 480);
    assert_eq!(daemon.wallpapers[1].dimensions, None);
    daemon.mode(101, 3, 1920, 1080);
    assert_eq!(daemon.wallpapers[1].dimensions, Some((1920, 1080)));
    assert_eq!(daemon.wallpapers[0].dimensions, None);
    daemon.mode(999, 1, 1, 1);
    assert_eq!(daemon.wallpapers[1].dimensions, Some((1920, 1080)));
}

#[test]
fn done_outputs_are_committed() {
    let daemon = daemon_with(2);
    assert_eq!(daemon.output_done(101).unwrap().wallpaper, 1);
    assert!(daemon.output_done(201).is_none());
}

#[test]
fn surfaces_are_committed_as_the_user_asked() {
    let mut args = cli();
    args.namespace = "second".to_string();
    args.no_cache = true;
    let mut daemon = Daemon::new(objects(), args, vec![]);
    let id = daemon.new_output(10, handles(0));
    let commit = daemon.output_done(100).unwrap();
    assert_eq!((commit.wallpaper, commit.use_cache), (id, false));
    assert_eq!(commit.namespace, "second");
    match daemon.preferred_scale(400, 150) {
        ScaleOutcome::Commit(commit) => {
            assert_eq!((commit.wallpaper, commit.use_cache), (id, false));
            assert_eq!(commit.namespace, "second");
        }
        _ => panic!("no commit"),
    }
    assert!(daemon_with(1).output_done(100).unwrap().use_cache);
}

#[test]
fn marks_are_noted_of_the_wallpapers_meant() {
    let mut daemon = daemon_with(3);
    daemon.mark(&vec![0, 2], &Mark::Configured);
    daemon.mark(&vec![2], &Mark::FrameRequested(77));
    daemon.mark(&vec![0], &Mark::Shows(BgImg::Img("a.png".to_string())));
    let state = |i: usize| {
        let w = &daemon.wallpapers[i];
        (w.configured, w.draw_ready, w.callback)
    };
    assert_eq!(state(0), (true, true, None));
    assert_eq!(state(1), (false, false, None));
    assert_eq!(state(2), (true, false, Some(77)));
    assert_eq!(daemon.wallpapers[0].img, Some(BgImg::Img("a.png".to_string())));
    assert_eq!(daemon.wallpapers[1].img, None);
    daemon.mark(&vec![2], &Mark::Configured);
    assert!(!daemon.wallpapers[2].draw_ready);
    daemon.mark(&vec![2], &Mark::FrameCompleted);
    assert!(daemon.wallpapers[2].draw_ready);
    assert_eq!(daemon.wallpapers[2].callback, None);
    daemon.mark(&vec![1], &Mark::FrameRequested(78));
    daemon.mark(&vec![1], &Mark::FrameCompleted);
    assert!(!daemon.wallpapers[1].draw_ready);
}

#[test]
fn waiting_outputs_get_wallpapers_in_order() {
    let mut daemon = Daemon::new(objects(), cli(), vec![31, 30]);
    let early = daemon.new_output(5, handles(9));
    let callback = daemon.callback.unwrap();
    if let CallbackAction::CreateOutputs { names, .. } = daemon.callback_done(callback) {
        for (n, name) in names.into_iter().enumerate() {
            let _ = daemon.new_output(name, handles(n as u32));
        }
    }
    let made: Vec<(u64, u32)> = daemon.wallpapers.iter().map(|w| (w.id, w.output_name)).collect();
    assert_eq!(made, vec![(early, 5), (early + 1, 31), (early + 2, 30)]);
}

#[test]
fn changed_surfaces_stop_animating() {
    let mut daemon = daemon_with(2);
    daemon.next_id = 20;
    daemon.transition_animators = vec![Animator { id: 5, wallpapers: vec![0, 1] }];
    daemon.surface_committed(0, false);
    assert_eq!(daemon.transition_animators[0].wallpapers, vec![0, 1]);
    daemon.surface_committed(0, true);
    assert_eq!(daemon.transition_animators[0].wallpapers, vec![1]);
    daemon.surface_committed(1, true);
    assert!(daemon.transition_animators.is_empty());
}

#[test]
fn outputs_wait_for_the_formats() {
    let mut daemon = Daemon::new(objects(), cli(), vec![31, 30]);
    let callback = daemon.callback.unwrap();
    assert!(matches!(daemon.callback_done(callback + 1), CallbackAction::Ignore));
    assert_eq!(daemon.callback, Some(callback));
    match daemon.callback_done(callback) {
        CallbackAction::CreateOutputs { names, layer } => {
            assert_eq!(names, vec![31, 30]);
            assert_eq!(layer, Layer::Background);
        }
        _ => panic!("the outputs were not released"),
    }
    assert_eq!(daemon.callback, None);
    assert_eq!(daemon.output_globals, None);
    assert!(matches!(daemon.callback_done(callback), CallbackAction::Ignore));
}

#[test]
fn frame_callbacks_are_told_to_their_wallpapers() {
    let mut daemon = daemon_with(2);
    daemon.mark(&vec![0, 1], &Mark::Configured);
    daemon.mark(&vec![0], &Mark::FrameRequested(54));
    daemon.mark(&vec![1], &Mark::FrameRequested(55));
    assert!(!daemon.wallpapers[1].draw_ready);
    assert!(matches!(daemon.callback_done(55), CallbackAction::FrameCompleted(1)));
    assert!(daemon.wallpapers[1].draw_ready);
    assert_eq!(daemon.wallpapers[1].callback, None);
    assert!(!daemon.wallpapers[0].draw_ready);
    assert_eq!(daemon.wallpapers[0].callback, Some(54));
    assert!(matches!(daemon.callback_done(56), CallbackAction::Ignore));
    assert!(daemon.callback.is_some());
}

#[test]
fn known_surfaces_are_acknowledged() {
    let daemon = daemon_with(1);
    assert_eq!(
        daemon.configure(300, 9),
        Some(AckConfigure { layer_surface: 300, serial: 9 })
    );
    assert_eq!(daemon.configure(301, 9), None);
}

#[test]
fn animated_wallpapers_are_held_twice() {
    let mut daemon = daemon_with(3);
    daemon.next_id = 20;
    daemon.transition_animators = vec![Animator { id: 5, wallpapers: vec![1] }];
    daemon.image_animators = vec![Animator { id: 6, wallpapers: vec![2] }];
    assert_eq!(daemon.strong_count(0), 1);
    assert_eq!(daemon.strong_count(1), 2);
    assert_eq!(daemon.strong_count(2), 2);
}

#[test]
fn released_buffers_are_offered_in_turn() {
    let mut daemon = daemon_with(2);
    daemon.next_id = 20;
    daemon.image_animators = vec![Animator { id: 6, wallpapers: vec![1] }];
    let first = daemon.release(70);
    assert_eq!(first, ReleaseStage::Offer { buffer: 70, index: 0, wallpaper: 0, strong_count: 1 });
    let second = daemon.release_step(first, false);
    assert_eq!(second, ReleaseStage::Offer { buffer: 70, index: 1, wallpaper: 1, strong_count: 2 });
    assert_eq!(daemon.release_step(second, true), ReleaseStage::Taken);
    assert_eq!(daemon.release_step(second, false), ReleaseStage::NotFound);
    assert_eq!(daemon.release_step(ReleaseStage::Taken, false), ReleaseStage::Taken);
    assert_eq!(daemon_with(0).release(70), ReleaseStage::NotFound);
}

#[test]
fn all_wallpapers_are_destroyed_in_the_end() {
    let mut daemon = daemon_with(3);
    let _ = daemon.remove_wallpaper(1);
    assert_eq!(daemon.wallpapers_to_destroy(), vec![0, 2]);
}

#[test]
fn what_is_told_of_one_wallpaper_changes_no_other() {
    let mut daemon = daemon_with(3);
    let _ = daemon.scale(101, 2);
    let _ = daemon.geometry(101, Transform::Flipped);
    daemon.mode(101, 1, 800, 600);
    for i in [0, 2] {
        assert_eq!(daemon.wallpapers[i].scale, None);
        assert_eq!(daemon.wallpapers[i].transform, None);
        assert_eq!(daemon.wallpapers[i].dimensions, None);
    }
}
