use swww_daemon::daemon::{Cli, Daemon, Layer};
use swww_daemon::event_loop::{IoFailure, Turn, TurnEvent};
use swww_daemon::events::Outcome;
use swww_daemon::exit::exit_daemon;
use swww_daemon::objects::{bound_as, Interface, Objects, WaylandObject};
use swww_daemon::time::Timespec;
use swww_daemon::wallpaper::Handles;

fn objects() -> Objects {
    let mut objects = Objects::new();
    let _ = objects.create(WaylandObject::Registry);
    let callback = objects.create(WaylandObject::Callback);
    objects.remove(callback);
    for object in [
        WaylandObject::Compositor,
        WaylandObject::Shm,
        WaylandObject::LayerShell,
        WaylandObject::Viewporter,
    ] {
        let _ = objects.create(object);
    }
    objects
}

fn cli() -> Cli {
    Cli {
        format: None,
        layer: Layer::Background,
        namespace: String::new(),
        no_cache: false,
        quiet: false,
    }
}

fn handles(n: u32) -> Handles {
    Handles {
        output: 100 + n,
        surface: 200 + n,
        layer_surface: 300 + n,
        fractional_scale: Some(400 + n),
    }
}

/// A daemon with wallpapers on the outputs `out0`, `out1` and so on.
fn daemon_with(outputs: u32) -> Daemon {
    let mut daemon = Daemon::new(objects(), cli(), vec![]);
    for n in 0..outputs {
        let id = daemon.new_output(10 + n, handles(n));
        assert_eq!(id, u64::from(n));
        assert_eq!(daemon.name(100 + n, format!("out{n}")), Outcome::Applied(id));
    }
    daemon
}

const NOW: Timespec = Timespec { tv_sec: 0, tv_nsec: 0 };

#[test]
fn a_turn_serves_the_compositor_then_a_client_then_draws() {
    let mut daemon = daemon_with(0);
    daemon.set_poll_time(NOW);
    let turn = daemon.turn();
    assert_eq!(turn, Turn::Flush);
    let turn = daemon.turn_step(turn, TurnEvent::Flushed(true));
    assert_eq!(turn, Turn::Poll(Some(NOW)));
    let turn = daemon.turn_step(turn, TurnEvent::Ready { compositor: true, client: true });
    assert_eq!(turn, Turn::Messages { client: true });
    let turn = daemon.turn_step(turn, TurnEvent::Handled(true));
    assert_eq!(turn, Turn::Accept);
    let turn = daemon.turn_step(turn, TurnEvent::Served);
    assert_eq!(turn, Turn::Draw);
    let turn = daemon.turn_step(turn, TurnEvent::Drawn);
    assert_eq!(turn, Turn::Flush);
}

#[test]
fn nothing_is_drawn_without_a_poll_time() {
    let daemon = daemon_with(0);
    let poll = daemon.turn_step(Turn::Flush, TurnEvent::Flushed(true));
    assert_eq!(poll, Turn::Poll(None));
    let nothing = TurnEvent::Ready { compositor: false, client: false };
    assert_eq!(daemon.turn_step(poll, nothing), Turn::Flush);
    let messages = Turn::Messages { client: false };
    assert_eq!(daemon.turn_step(messages, TurnEvent::Handled(true)), Turn::Flush);
    assert_eq!(daemon.turn_step(Turn::Accept, TurnEvent::Served), Turn::Flush);
}

#[test]
fn an_expired_wait_draws() {
    let mut daemon = daemon_with(0);
    daemon.set_poll_time(NOW);
    let nothing = TurnEvent::Ready { compositor: false, client: false };
    assert_eq!(daemon.turn_step(Turn::Poll(Some(NOW)), nothing), Turn::Draw);
    let messages = Turn::Messages { client: false };
    assert_eq!(daemon.turn_step(messages, TurnEvent::Handled(true)), Turn::Draw);
    let client = TurnEvent::Ready { compositor: false, client: true };
    assert_eq!(daemon.turn_step(Turn::Poll(Some(NOW)), client), Turn::Accept);
}

#[test]
fn interruptions_start_another_turn() {
    let mut daemon = daemon_with(0);
    daemon.set_poll_time(NOW);
    for failure in [IoFailure::Interrupted, IoFailure::WouldBlock] {
        let poll = Turn::Poll(Some(NOW));
        assert_eq!(daemon.turn_step(poll, TurnEvent::PollFailed(failure)), Turn::Flush);
        assert_eq!(
            daemon.turn_step(Turn::Accept, TurnEvent::AcceptFailed(failure)),
            Turn::Flush
        );
    }
}

#[test]
fn other_failures_end_the_loop() {
    let daemon = daemon_with(0);
    let other = IoFailure::Other;
    assert_eq!(daemon.turn_step(Turn::Poll(None), TurnEvent::PollFailed(other)), Turn::Fail);
    assert_eq!(daemon.turn_step(Turn::Accept, TurnEvent::AcceptFailed(other)), Turn::Fail);
    assert_eq!(daemon.turn_step(Turn::Flush, TurnEvent::Flushed(false)), Turn::Fail);
    let messages = Turn::Messages { client: true };
    assert_eq!(daemon.turn_step(messages, TurnEvent::Handled(false)), Turn::Fail);
}

#[test]
fn no_turn_begins_after_exit() {
    let mut daemon = daemon_with(0);
    exit_daemon(&mut daemon.exit);
    assert_eq!(daemon.turn(), Turn::Exit);
    assert_eq!(daemon.turn_step(Turn::Draw, TurnEvent::Drawn), Turn::Exit);
    assert_eq!(daemon.turn_step(Turn::Accept, TurnEvent::Served), Turn::Exit);
    let interrupted = TurnEvent::PollFailed(IoFailure::Interrupted);
    assert_eq!(daemon.turn_step(Turn::Poll(None), interrupted), Turn::Exit);
}

#[test]
fn a_turn_that_was_begun_still_draws_after_exit() {
    let mut daemon = daemon_with(0);
    daemon.set_poll_time(NOW);
    exit_daemon(&mut daemon.exit);
    assert_eq!(daemon.turn_step(Turn::Accept, TurnEvent::Served), Turn::Draw);
}

#[test]
fn events_that_do_not_fit_lead_nowhere() {
    let daemon = daemon_with(0);
    assert_eq!(daemon.turn_step(Turn::Flush, TurnEvent::Drawn), Turn::Flush);
    assert_eq!(daemon.turn_step(Turn::Exit, TurnEvent::Flushed(true)), Turn::Exit);
    assert_eq!(daemon.turn_step(Turn::Fail, TurnEvent::Served), Turn::Fail);
}

#[test]
fn messages_are_routed_by_their_sender() {
    let daemon = daemon_with(0);
    assert_eq!(daemon.route(1), Some(Interface::WlDisplay));
    assert_eq!(daemon.route(2), Some(Interface::WlRegistry));
    assert_eq!(daemon.route(3), Some(Interface::WlCompositor));
    assert_eq!(daemon.route(7), Some(Interface::WlCallback));
    assert_eq!(daemon.route(8), None);
    assert_eq!(daemon.route(0), None);
}

#[test]
fn bound_globals_are_routed() {
    let mut daemon = daemon_with(0);
    let object = bound_as("wp_fractional_scale_manager_v1").unwrap();
    let id = daemon.objects.create(object);
    assert_eq!(daemon.route(id), Some(Interface::WpFractionalScaleManagerV1));
    daemon.delete_id(id);
    assert_eq!(daemon.route(id), None);
}
