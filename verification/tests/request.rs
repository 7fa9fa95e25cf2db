use swww_daemon::animator::Animator;
use swww_daemon::daemon::{BgInfo, Cli, Daemon, Layer};
use swww_daemon::events::Outcome;
use swww_daemon::format::PixelFormat;
use swww_daemon::objects::{Objects, WaylandObject};
use swww_daemon::request::{Answer, ImageReq, Request, Work};
use swww_daemon::time::Timespec;
use swww_daemon::wallpaper::{BgImg, Handles, Mark};

fn objects() -> Objects {
    let mut objects = Objects::new();
    let _ = objects.create(WaylandObject::Registry);
    let callback = objects.create(WaylandObject::Callback);
    objects.remove(callback);
    for object in [
        WaylandObject::Compositor,
        WaylandObject::Shm,
        WaylandObject::LayerShell,
        WaylandObject::Viewporter,
    ] {
        let _ = objects.create(object);
    }
    objects
}

fn cli() -> Cli {
    Cli {
        format: None,
        layer: Layer::Background,
        namespace: String::new(),
        no_cache: false,
        quiet: false,
    }
}

fn handles(n: u32) -> Handles {
    Handles {
        output: 100 + n,
        surface: 200 + n,
        layer_surface: 300 + n,
        fractional_scale: Some(400 + n),
    }
}

/// A daemon with wallpapers on the outputs `out0`, `out1` and so on.
fn daemon_with(outputs: u32) -> Daemon {
    let mut daemon = Daemon::new(objects(), cli(), vec![]);
    for n in 0..outputs {
        let id = daemon.new_output(10 + n, handles(n));
        assert_eq!(id, u64::from(n));
        assert_eq!(daemon.name(100 + n, format!("out{n}")), Outcome::Applied(id));
    }
    daemon
}

type Req = Request<&'static str, &'static str, u8>;
type Received = Result<Req, String>;

fn names(names: &[&str]) -> Vec<String> {
    names.iter().map(|n| n.to_string()).collect()
}

#[test]
fn an_unreadable_request_ends_the_daemon() {
    let mut daemon = daemon_with(1);
    let received: Received = Err("broken pipe".to_string());
    let job = daemon.recv_socket_msg(received);
    assert!(matches!(job.work, Work::Nothing));
    assert!(job.answer.is_none());
    assert!(daemon.exit.raised);
}

#[test]
fn clearing_stops_the_animations_of_the_named_outputs() {
    let mut daemon = daemon_with(2);
    daemon.next_id = 20;
    daemon.pixel_format = PixelFormat::Bgr;
    daemon.transition_animators = vec![Animator { id: 5, wallpapers: vec![0, 1] }];
    let request: Received = Ok(Request::Clear {
        color: [1, 2, 3, 4],
        outputs: names(&["out1"]),
    });
    let job = daemon.recv_socket_msg(request);
    assert!(matches!(job.answer, Some(Answer::Done)));
    match job.work {
        Work::Clear { wallpapers, color, pixel_format } => {
            assert_eq!(wallpapers, vec![1]);
            assert_eq!(color, [1, 2, 3, 4]);
            assert_eq!(pixel_format, PixelFormat::Bgr);
        }
        _ => panic!("not cleared"),
    }
    assert_eq!(daemon.transition_animators[0].wallpapers, vec![0]);
    assert_eq!(daemon.wallpapers[1].img, Some(BgImg::Color([1, 2, 3, 4])));
    assert_eq!(daemon.wallpapers[0].img, None);
    assert!(!daemon.exit.raised);
}

#[test]
fn clearing_without_names_clears_everything() {
    let mut daemon = daemon_with(3);
    let request: Received = Ok(Request::Clear { color: [0, 0, 0, 0], outputs: vec![] });
    assert!(matches!(daemon.recv_socket_msg(request).work, Work::Clear { wallpapers, .. }
        if wallpapers == [0, 1, 2]));
}

#[test]
fn ping_tells_whether_every_wallpaper_is_configured() {
    let mut daemon = daemon_with(2);
    let ping = |daemon: &mut Daemon| {
        let request: Received = Ok(Request::Ping);
        match daemon.recv_socket_msg(request).answer {
            Some(Answer::Ping(up)) => up,
            _ => panic!("not a pong"),
        }
    };
    daemon.mark(&vec![0], &Mark::Configured);
    assert!(!ping(&mut daemon));
    daemon.mark(&vec![1], &Mark::Configured);
    assert!(ping(&mut daemon));
    assert!(ping(&mut daemon_with(0)));
}

#[test]
fn kill_is_answered_and_ends_the_daemon() {
    let mut daemon = daemon_with(1);
    let request: Received = Ok(Request::Kill);
    assert!(matches!(daemon.recv_socket_msg(request).answer, Some(Answer::Done)));
    assert!(daemon.exit.raised);
}

#[test]
fn query_describes_every_wallpaper() {
    let mut daemon = daemon_with(2);
    daemon.pixel_format = PixelFormat::Rgb;
    let request: Received = Ok(Request::Query);
    match daemon.recv_socket_msg(request).answer {
        Some(Answer::Info(info)) => assert_eq!(
            info,
            vec![
                BgInfo { wallpaper: 0, pixel_format: PixelFormat::Rgb },
                BgInfo { wallpaper: 1, pixel_format: PixelFormat::Rgb },
            ]
        ),
        _ => panic!("no description"),
    }
}

#[test]
fn images_pair_from_the_back() {
    let mut daemon = daemon_with(3);
    let request: Received = Ok(Request::Img(ImageReq {
        transition: "fade",
        imgs: vec!["a", "b", "c"],
        outputs: vec![names(&["out2"]), names(&["out0", "out1"])],
        animations: Some(vec![9]),
    }));
    let job = daemon.recv_socket_msg(request);
    assert!(matches!(job.answer, Some(Answer::Done)));
    let mut req = match job.work {
        Work::Images(req) => req,
        _ => panic!("no images"),
    };
    assert_eq!(daemon.poll_time, None);

    let job = daemon.next_image(&mut req).unwrap();
    assert_eq!((job.img, job.animation), ("c", Some(9)));
    assert_eq!(job.wallpapers, vec![0, 1]);
    assert_eq!(job.pixel_format, PixelFormat::Xrgb);
    assert_eq!(daemon.poll_time, None);

    let job = daemon.next_image(&mut req).unwrap();
    assert_eq!((job.img, job.animation), ("b", None));
    assert_eq!(job.wallpapers, vec![2]);

    assert!(daemon.next_image(&mut req).is_none());
    assert_eq!(req.imgs, vec!["a"]);
    assert_eq!(req.transition, "fade");
    assert!(req.outputs.is_empty());
    assert_eq!(req.animations, Some(vec![]));
}

#[test]
fn images_are_shown_at_once() {
    let mut daemon = daemon_with(1);
    daemon.set_poll_time(Timespec { tv_sec: 5, tv_nsec: 0 });
    let mut req: ImageReq<(), u8, u8> = ImageReq {
        transition: (),
        imgs: vec![],
        outputs: vec![vec![]],
        animations: None,
    };
    assert!(daemon.next_image(&mut req).is_none());
    assert_eq!(daemon.poll_time, Some(Timespec { tv_sec: 0, tv_nsec: 0 }));
}

#[test]
fn images_replace_what_was_animated() {
    let mut daemon = daemon_with(2);
    daemon.image_animators = vec![Animator { id: 5, wallpapers: vec![0, 1] }];
    daemon.next_id = 6;
    let mut req = ImageReq {
        transition: (),
        imgs: vec!["a"],
        outputs: vec![names(&["out1"])],
        animations: None::<Vec<u8>>,
    };
    let job = daemon.next_image(&mut req).unwrap();
    assert_eq!(daemon.image_animators[0].wallpapers, vec![0]);
    let id = daemon.transition_started(job.wallpapers);
    assert_eq!(id, 6);
    assert_eq!(daemon.transition_animators.len(), 1);
    assert_eq!(daemon.transition_animators[0].id, 6);
    assert_eq!(daemon.transition_animators[0].wallpapers, vec![1]);
    assert_eq!(daemon.strong_count(0), 2);
    assert_eq!(daemon.strong_count(1), 2);
}

#[test]
fn the_image_taken_last_is_shown() {
    let mut daemon = daemon_with(2);
    let mut req = ImageReq {
        transition: (),
        imgs: vec!["front", "back"],
        outputs: vec![names(&["out0"]), vec![]],
        animations: None::<Vec<u8>>,
    };
    let mut shown = vec![];
    while let Some(job) = daemon.next_image(&mut req) {
        shown.push((job.img, job.wallpapers.clone()));
        let _ = daemon.transition_started(job.wallpapers);
    }
    assert_eq!(shown, vec![("back", vec![0, 1]), ("front", vec![0])]);
    let driven: Vec<Vec<u64>> = daemon
        .transition_animators
        .iter()
        .map(|a| a.wallpapers.clone())
        .collect();
    assert_eq!(driven, vec![vec![1], vec![0]]);
}

#[test]
fn requests_that_name_nothing_are_answered_too() {
    let mut daemon = daemon_with(1);
    let clear: Received = Ok(Request::Clear { color: [9; 4], outputs: names(&["nowhere"]) });
    let job = daemon.recv_socket_msg(clear);
    assert!(matches!(job.work, Work::Clear { wallpapers, .. } if wallpapers.is_empty()));
    assert!(matches!(job.answer, Some(Answer::Done)));
    let img: Received = Ok(Request::Img(ImageReq {
        transition: "none",
        imgs: vec!["a"],
        outputs: vec![names(&["nowhere"])],
        animations: None,
    }));
    let job = daemon.recv_socket_msg(img);
    assert!(matches!(job.answer, Some(Answer::Done)));
    match job.work {
        Work::Images(mut req) => {
            assert!(daemon.next_image(&mut req).unwrap().wallpapers.is_empty());
            assert!(daemon.next_image(&mut req).is_none());
        }
        _ => panic!("no images"),
    }
}
