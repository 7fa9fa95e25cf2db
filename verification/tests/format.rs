use swww_daemon::format::{select, PixelFormat, ShmFormat};

const ALL: [ShmFormat; 5] = [
    ShmFormat::Xrgb8888,
    ShmFormat::Xbgr8888,
    ShmFormat::Rgb888,
    ShmFormat::Bgr888,
    ShmFormat::Other,
];

const FORMATS: [PixelFormat; 4] =
    [PixelFormat::Xrgb, PixelFormat::Xbgr, PixelFormat::Rgb, PixelFormat::Bgr];

#[test]
fn better_formats_are_taken() {
    assert_eq!(select(false, PixelFormat::Xrgb, ShmFormat::Xbgr8888), PixelFormat::Xbgr);
    assert_eq!(select(false, PixelFormat::Xrgb, ShmFormat::Rgb888), PixelFormat::Rgb);
    assert_eq!(select(false, PixelFormat::Xbgr, ShmFormat::Rgb888), PixelFormat::Rgb);
    assert_eq!(select(false, PixelFormat::Rgb, ShmFormat::Bgr888), PixelFormat::Bgr);
}

#[test]
fn worse_formats_are_not() {
    assert_eq!(select(false, PixelFormat::Rgb, ShmFormat::Xbgr8888), PixelFormat::Rgb);
    assert_eq!(select(false, PixelFormat::Bgr, ShmFormat::Rgb888), PixelFormat::Bgr);
    assert_eq!(select(false, PixelFormat::Xbgr, ShmFormat::Xrgb8888), PixelFormat::Xbgr);
    assert_eq!(select(false, PixelFormat::Xrgb, ShmFormat::Other), PixelFormat::Xrgb);
}

#[test]
fn forced_formats_stay() {
    for current in FORMATS {
        for announced in ALL {
            assert_eq!(select(true, current, announced), current);
        }
    }
}

#[test]
fn announcements_commute() {
    for current in FORMATS {
        for a in ALL {
            for b in ALL {
                assert_eq!(
                    select(false, select(false, current, a), b),
                    select(false, select(false, current, b), a)
                );
            }
        }
    }
}

#[test]
fn best_format_wins() {
    let mut format = PixelFormat::Xrgb;
    for announced in [ShmFormat::Bgr888, ShmFormat::Xbgr8888, ShmFormat::Rgb888] {
        format = select(false, format, announced);
    }
    assert_eq!(format, PixelFormat::Bgr);
}
