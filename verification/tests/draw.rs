use swww_daemon::animator::Animator;
use swww_daemon::daemon::{Cli, Daemon, Layer};
use swww_daemon::draw::{DrawEvent, DrawStage, Lane};
use swww_daemon::events::Outcome;
use swww_daemon::format::PixelFormat;
use swww_daemon::objects::{Objects, WaylandObject};
use swww_daemon::time::{Span, Timespec};
use swww_daemon::wallpaper::{Handles, Mark};

fn objects() -> Objects {
    let mut objects = Objects::new();
    let _ = objects.create(WaylandObject::Registry);
    let callback = objects.create(WaylandObject::Callback);
    objects.remove(callback);
    for object in [
        WaylandObject::Compositor,
        WaylandObject::Shm,
        WaylandObject::LayerShell,
        WaylandObject::Viewporter,
    ] {
        let _ = objects.create(object);
    }
    objects
}

fn cli() -> Cli {
    Cli {
        format: None,
        layer: Layer::Background,
        namespace: String::new(),
        no_cache: false,
        quiet: false,
    }
}

fn handles(n: u32) -> Handles {
    Handles {
        output: 100 + n,
        surface: 200 + n,
        layer_surface: 300 + n,
        fractional_scale: Some(400 + n),
    }
}

/// A daemon with wallpapers on the outputs `out0`, `out1` and so on.
fn daemon_with(outputs: u32) -> Daemon {
    let mut daemon = Daemon::new(objects(), cli(), vec![]);
    for n in 0..outputs {
        let id = daemon.new_output(10 + n, handles(n));
        assert_eq!(id, u64::from(n));
        assert_eq!(daemon.name(100 + n, format!("out{n}")), Outcome::Applied(id));
    }
    daemon
}

/// A daemon whose wallpapers can all take a frame.
fn ready_daemon(outputs: u32) -> Daemon {
    let mut daemon = daemon_with(outputs);
    let all = daemon.find_wallpapers_by_names(&vec![]);
    daemon.mark(&all, &Mark::Configured);
    daemon.next_id = 20;
    daemon
}

fn micros(n: u32) -> DrawEvent {
    DrawEvent::Time(Span { secs: 0, nanos: n * 1000 })
}

fn nanos(tv_nsec: i64) -> Option<Timespec> {
    Some(Timespec { tv_sec: 0, tv_nsec })
}

fn is_ask(stage: &DrawStage, lane: Lane, index: usize, due: bool) -> bool {
    matches!(stage, DrawStage::AskTime { lane: l, index: i, due: d }
        if *l == lane && *i == index && *d == due)
}

fn is_frame(stage: &DrawStage, lane: Lane, index: usize, wait: Option<Span>) -> bool {
    matches!(stage, DrawStage::Frame { lane: l, index: i, wait: w, pixel_format: PixelFormat::Xrgb }
        if *l == lane && *i == index && *w == wait)
}

#[test]
fn nothing_to_animate_ends_the_pass() {
    let mut daemon = ready_daemon(1);
    daemon.set_poll_time(Timespec { tv_sec: 0, tv_nsec: 0 });
    assert!(matches!(daemon.draw(), DrawStage::Done));
    assert_eq!(daemon.poll_time, None);
}

#[test]
fn frames_due_later_are_left() {
    let mut daemon = ready_daemon(1);
    daemon.transition_animators = vec![Animator { id: 5, wallpapers: vec![0] }];
    let stage = daemon.draw();
    assert!(is_ask(&stage, Lane::Transitions, 0, true));
    let stage = daemon.draw_step(stage, micros(1001));
    assert!(matches!(stage, DrawStage::Done));
    assert_eq!(daemon.poll_time, nanos(501_000));
    assert_eq!(daemon.transition_animators.len(), 1);
}

#[test]
fn frames_due_within_a_millisecond_are_waited_for() {
    let mut daemon = ready_daemon(1);
    daemon.transition_animators = vec![Animator { id: 5, wallpapers: vec![0] }];
    let stage = daemon.draw();
    let stage = daemon.draw_step(stage, micros(1000));
    let wait = Some(Span { secs: 0, nanos: 1_000_000 });
    assert!(is_frame(&stage, Lane::Transitions, 0, wait));
    assert_eq!(daemon.poll_time, None);
}

#[test]
fn frames_due_now_are_not_waited_for() {
    let mut daemon = ready_daemon(1);
    daemon.transition_animators = vec![Animator { id: 5, wallpapers: vec![0] }];
    let stage = daemon.draw();
    let stage = daemon.draw_step(stage, micros(0));
    assert!(is_frame(&stage, Lane::Transitions, 0, None));
    let stage = daemon.draw_step(stage, DrawEvent::Framed(false));
    assert!(is_ask(&stage, Lane::Transitions, 0, false));
    let stage = daemon.draw_step(stage, micros(16_000));
    assert!(matches!(stage, DrawStage::Done));
    assert_eq!(daemon.poll_time, nanos(15_500_000));
}

#[test]
fn a_frame_past_due_again_is_left_for_the_next_pass() {
    let mut daemon = ready_daemon(1);
    daemon.image_animators = vec![Animator { id: 5, wallpapers: vec![0] }];
    let stage = daemon.draw();
    let stage = daemon.draw_step(stage, micros(0));
    let stage = daemon.draw_step(stage, DrawEvent::Framed(false));
    let stage = daemon.draw_step(stage, micros(0));
    assert!(matches!(stage, DrawStage::Done));
    assert_eq!(daemon.poll_time, nanos(0));
}

#[test]
fn long_delays_keep_their_seconds() {
    let mut daemon = ready_daemon(1);
    daemon.transition_animators = vec![Animator { id: 5, wallpapers: vec![0] }];
    let stage = daemon.draw();
    let _ = daemon.draw_step(stage, DrawEvent::Time(Span { secs: 3, nanos: 400_000 }));
    assert_eq!(daemon.poll_time, Some(Timespec { tv_sec: 3, tv_nsec: 0 }));
}

#[test]
fn an_animator_waits_for_all_of_its_wallpapers() {
    let mut daemon = ready_daemon(2);
    daemon.mark(&vec![1], &Mark::FrameRequested(30));
    daemon.transition_animators = vec![Animator { id: 5, wallpapers: vec![0, 1] }];
    let stage = daemon.draw();
    assert!(is_ask(&stage, Lane::Transitions, 0, false));
    let stage = daemon.draw_step(stage, micros(0));
    assert!(matches!(stage, DrawStage::Done));
    assert_eq!(daemon.poll_time, nanos(0));
}

#[test]
fn an_ended_transition_becomes_an_animated_image() {
    let mut daemon = ready_daemon(1);
    daemon.transition_animators = vec![Animator { id: 5, wallpapers: vec![0] }];
    let stage = daemon.draw();
    let stage = daemon.draw_step(stage, micros(0));
    let stage = daemon.draw_step(stage, DrawEvent::Framed(true));
    assert!(matches!(&stage, DrawStage::Promote { index: 0, animator }
        if animator.id == 5 && animator.wallpapers == [0]));
    assert!(daemon.transition_animators.is_empty());
    let stage = daemon.draw_step(stage, DrawEvent::Promoted(true));
    assert!(is_ask(&stage, Lane::Images, 0, true));
    assert_eq!(daemon.image_animators.len(), 1);
    assert_eq!(daemon.image_animators[0].id, 5);
}

#[test]
fn an_ended_transition_without_animation_is_gone() {
    let mut daemon = ready_daemon(1);
    daemon.transition_animators = vec![Animator { id: 5, wallpapers: vec![0] }];
    let stage = daemon.draw();
    let stage = daemon.draw_step(stage, micros(0));
    let stage = daemon.draw_step(stage, DrawEvent::Framed(true));
    let stage = daemon.draw_step(stage, DrawEvent::Promoted(false));
    assert!(matches!(stage, DrawStage::Done));
    assert!(daemon.image_animators.is_empty());
    assert_eq!(daemon.poll_time, None);
}

#[test]
fn the_last_transition_takes_the_place_of_an_ended_one() {
    let mut daemon = ready_daemon(3);
    daemon.transition_animators = (0..3)
        .map(|n| Animator { id: 5 + n, wallpapers: vec![n] })
        .collect();
    let stage = daemon.draw();
    let stage = daemon.draw_step(stage, micros(0));
    let stage = daemon.draw_step(stage, DrawEvent::Framed(true));
    let stage = daemon.draw_step(stage, DrawEvent::Promoted(false));
    let ids: Vec<u64> = daemon.transition_animators.iter().map(|a| a.id).collect();
    assert_eq!(ids, vec![7, 6]);
    assert!(is_ask(&stage, Lane::Transitions, 0, true));
}

#[test]
fn the_end_of_an_animated_image_does_not_count() {
    let mut daemon = ready_daemon(1);
    daemon.image_animators = vec![Animator { id: 5, wallpapers: vec![0] }];
    let stage = daemon.draw();
    let stage = daemon.draw_step(stage, micros(0));
    let stage = daemon.draw_step(stage, DrawEvent::Framed(true));
    assert!(is_ask(&stage, Lane::Images, 0, false));
    assert_eq!(daemon.image_animators.len(), 1);
}

#[test]
fn idle_animated_images_are_dropped() {
    let mut daemon = ready_daemon(1);
    daemon.image_animators = vec![
        Animator { id: 5, wallpapers: vec![] },
        Animator { id: 6, wallpapers: vec![0] },
        Animator { id: 7, wallpapers: vec![] },
    ];
    let stage = daemon.draw();
    assert!(is_ask(&stage, Lane::Images, 0, true));
    let ids: Vec<u64> = daemon.image_animators.iter().map(|a| a.id).collect();
    assert_eq!(ids, vec![6]);
}

#[test]
fn the_poll_time_is_that_of_the_next_frame() {
    let mut daemon = ready_daemon(3);
    daemon.transition_animators = vec![
        Animator { id: 5, wallpapers: vec![0] },
        Animator { id: 6, wallpapers: vec![1] },
    ];
    daemon.image_animators = vec![Animator { id: 7, wallpapers: vec![2] }];
    let stage = daemon.draw();
    let stage = daemon.draw_step(stage, micros(30_000));
    assert!(is_ask(&stage, Lane::Transitions, 1, true));
    let stage = daemon.draw_step(stage, micros(20_000));
    assert!(is_ask(&stage, Lane::Images, 0, true));
    let stage = daemon.draw_step(stage, micros(40_000));
    assert!(matches!(stage, DrawStage::Done));
    assert_eq!(daemon.poll_time, nanos(19_500_000));
}

#[test]
fn a_pass_ends_within_its_bound() {
    let mut daemon = ready_daemon(5);
    daemon.transition_animators = (0..3)
        .map(|n| Animator { id: 10 + n, wallpapers: vec![n] })
        .collect();
    daemon.image_animators = (3..5)
        .map(|n| Animator { id: 10 + n, wallpapers: vec![n] })
        .collect();
    let mut stage = daemon.draw();
    let mut answers = 0;
    loop {
        let event = match &stage {
            DrawStage::AskTime { .. } => micros(0),
            DrawStage::Frame { .. } => DrawEvent::Framed(true),
            DrawStage::Promote { .. } => DrawEvent::Promoted(true),
            DrawStage::Done => break,
        };
        stage = daemon.draw_step(stage, event);
        answers += 1;
    }
    assert_eq!(answers, 3 * 6 + 2 * 3);
    assert!(daemon.transition_animators.is_empty());
    assert_eq!(daemon.image_animators.len(), 5);
    assert_eq!(daemon.poll_time, nanos(0));
    assert_eq!(daemon.wallpapers.len(), 5);
}

#[test]
fn a_pass_accounts_for_every_animator() {
    let mut daemon = ready_daemon(4);
    daemon.transition_animators = (0..3)
        .map(|n| Animator { id: 5 + n, wallpapers: vec![n] })
        .collect();
    daemon.image_animators = vec![Animator { id: 8, wallpapers: vec![3] }];
    let stage = daemon.draw();
    // the first transition ends and goes on as an animated image
    let stage = daemon.draw_step(stage, micros(0));
    let stage = daemon.draw_step(stage, DrawEvent::Framed(true));
    let stage = daemon.draw_step(stage, DrawEvent::Promoted(true));
    // the last one is in its place, and is left
    let stage = daemon.draw_step(stage, micros(30_000));
    // the second one ends for good
    let stage = daemon.draw_step(stage, micros(0));
    let stage = daemon.draw_step(stage, DrawEvent::Framed(true));
    let stage = daemon.draw_step(stage, DrawEvent::Promoted(false));
    // the animated images are left
    assert!(is_ask(&stage, Lane::Images, 0, true));
    let stage = daemon.draw_step(stage, micros(20_000));
    assert!(is_ask(&stage, Lane::Images, 1, true));
    let stage = daemon.draw_step(stage, micros(10_000));
    assert!(matches!(stage, DrawStage::Done));
    let ids = |animators: &[Animator]| -> Vec<u64> { animators.iter().map(|a| a.id).collect() };
    assert_eq!(ids(&daemon.transition_animators), vec![7]);
    assert_eq!(ids(&daemon.image_animators), vec![8, 5]);
    assert_eq!(daemon.poll_time, nanos(9_500_000));
}
