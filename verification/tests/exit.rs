use swww_daemon::daemon::{Cli, Daemon, Layer};
use swww_daemon::exit::{exit_daemon, should_daemon_exit, ExitFlag};
use swww_daemon::format::ShmFormat;
use swww_daemon::objects::{Objects, WaylandObject};
use swww_daemon::request::{ImageReq, Request};

#[test]
fn exit_is_asked_for_once() {
    let mut exit = ExitFlag::new();
    assert!(!should_daemon_exit(&exit));
    exit_daemon(&mut exit);
    assert!(should_daemon_exit(&exit));
    exit_daemon(&mut exit);
    assert!(should_daemon_exit(&exit));
}

#[test]
fn exit_outlives_every_message() {
    let mut objects = Objects::new();
    for object in [
        WaylandObject::Registry,
        WaylandObject::Compositor,
        WaylandObject::Shm,
        WaylandObject::LayerShell,
        WaylandObject::Viewporter,
    ] {
        let _ = objects.create(object);
    }
    let args = Cli {
        format: None,
        layer: Layer::Background,
        namespace: String::new(),
        no_cache: false,
        quiet: false,
    };
    let mut daemon = Daemon::new(objects, args, vec![1]);
    daemon.raise_exit();
    daemon.format(ShmFormat::Bgr888);
    let callback = daemon.callback.unwrap();
    let _ = daemon.callback_done(callback);
    daemon.delete_id(callback);
    let _ = daemon.recv_socket_msg(Ok::<Request<(), u8, u8>, ()>(Request::Ping));
    let mut req: ImageReq<(), u8, u8> = ImageReq {
        transition: (),
        imgs: vec![],
        outputs: vec![],
        animations: None,
    };
    let _ = daemon.next_image(&mut req);
    assert!(should_daemon_exit(&daemon.exit));
}
