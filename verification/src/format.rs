//! Which pixel format the daemon draws in.

use vstd::prelude::*;

verus! {

/// The pixel formats the daemon can draw in.
#[derive(Clone, Copy, Debug, PartialEq, Eq, Structural)]
pub enum PixelFormat {
    Xrgb,
    Xbgr,
    Rgb,
    Bgr,
}

/// A shared memory format the compositor announces.
#[derive(Clone, Copy, Debug, PartialEq, Eq, Structural)]
pub enum ShmFormat {
    Xrgb8888,
    Xbgr8888,
    Rgb888,
    Bgr888,
    Other,
}

impl PixelFormat {
    /// How much the daemon prefers a format: three bytes a pixel before four, and blue first.
    pub open spec fn rank(self) -> int {
        match self {
            PixelFormat::Xrgb => 0,
            PixelFormat::Xbgr => 1,
            PixelFormat::Rgb => 2,
            PixelFormat::Bgr => 3,
        }
    }
}

impl ShmFormat {
    /// The pixel format that an announced format stands for, where the daemon can draw in it.
    pub open spec fn offers(self) -> Option<PixelFormat> {
        match self {
            ShmFormat::Xrgb8888 => Some(PixelFormat::Xrgb),
            ShmFormat::Xbgr8888 => Some(PixelFormat::Xbgr),
            ShmFormat::Rgb888 => Some(PixelFormat::Rgb),
            ShmFormat::Bgr888 => Some(PixelFormat::Bgr),
            ShmFormat::Other => None,
        }
    }
}

/// The format to draw in once `announced` is known to be available: the better one of it and
/// the current format, unless the user has chosen one.
pub open spec fn spec_select(
    forced: bool,
    current: PixelFormat,
    announced: ShmFormat,
) -> PixelFormat {
    match announced.offers() {
        Some(offered) => if !forced && offered.rank() > current.rank() {
            offered
        } else {
            current
        },
        None => current,
    }
}

/// The format to draw in once `announced` is known to be available.
pub fn select(forced: bool, current: PixelFormat, announced: ShmFormat) -> (r: PixelFormat)
    ensures
        r == spec_select(forced, current, announced),
{
    match announced {
        ShmFormat::Xrgb8888 => current,
        ShmFormat::Xbgr8888 => {
            if !forced && current == PixelFormat::Xrgb {
                PixelFormat::Xbgr
            } else {
                current
            }
        },
        ShmFormat::Rgb888 => {
            if !forced && current != PixelFormat::Bgr {
                PixelFormat::Rgb
            } else {
                current
            }
        },
        ShmFormat::Bgr888 => {
            if !forced {
                PixelFormat::Bgr
            } else {
                current
            }
        },
        ShmFormat::Other => current,
    }
}

/// The format after a series of announcements.
pub open spec fn select_all(
    forced: bool,
    current: PixelFormat,
    announced: Seq<ShmFormat>,
) -> PixelFormat
    decreases announced.len(),
{
    if announced.len() == 0 {
        current
    } else {
        spec_select(forced, select_all(forced, current, announced.drop_last()), announced.last())
    }
}

/// A format that the user has chosen is never given up.
pub proof fn law_forced_format_stays(current: PixelFormat, announced: Seq<ShmFormat>)
    ensures
        select_all(true, current, announced) == current,
    decreases announced.len(),
{
    if announced.len() > 0 {
        law_forced_format_stays(current, announced.drop_last());
    }
}

/// Whatever the order of the announcements, the daemon ends with the best format among the one
/// it started with and those that were announced.
pub proof fn law_best_format_wins(current: PixelFormat, announced: Seq<ShmFormat>)
    ensures
        ({
            let r = select_all(false, current, announced);
            &&& r.rank() >= current.rank()
            &&& forall|i: int|
                0 <= i < announced.len() ==> ((#[trigger] announced[i]).offers() matches Some(o)
                    ==> r.rank() >= o.rank())
            &&& r == current || exists|i: int|
                0 <= i < announced.len() && (#[trigger] announced[i]).offers() == Some(r)
        }),
    decreases announced.len(),
{
    if announced.len() > 0 {
        let before = announced.drop_last();
        law_best_format_wins(current, before);
        let r0 = select_all(false, current, before);
        let r = select_all(false, current, announced);
        assert forall|i: int| 0 <= i < announced.len() implies ((
        #[trigger] announced[i]).offers() matches Some(o) ==> r.rank() >= o.rank()) by {
            if i < before.len() {
                assert(announced[i] == before[i]);
            }
        }
        if r == r0 {
            if r0 != current {
                let k = choose|i: int|
                    0 <= i < before.len() && (#[trigger] before[i]).offers() == Some(r0);
                assert(announced[k].offers() == Some(r));
            }
        } else {
            assert(announced[announced.len() - 1].offers() == Some(r));
        }
    }
}

/// The order of two announcements does not matter, and repeating one changes nothing.
pub proof fn law_announcements_commute(
    forced: bool,
    current: PixelFormat,
    a: ShmFormat,
    b: ShmFormat,
)
    ensures
        spec_select(forced, spec_select(forced, current, a), b) == spec_select(
            forced,
            spec_select(forced, current, b),
            a,
        ),
        spec_select(forced, spec_select(forced, current, a), a) == spec_select(forced, current, a),
{
}

/// What an announcement does, unless the user has chosen a format: `Bgr` is always taken, `Rgb`
/// unless that is what the daemon has, `Xbgr` only in place of `Xrgb`, and nothing else changes
/// anything. A format that the user has chosen stays.
pub proof fn law_which_format_is_preferred(current: PixelFormat, announced: ShmFormat)
    ensures
        spec_select(false, current, ShmFormat::Bgr888) == PixelFormat::Bgr,
        spec_select(false, current, ShmFormat::Rgb888) == if current is Bgr {
            PixelFormat::Bgr
        } else {
            PixelFormat::Rgb
        },
        spec_select(false, current, ShmFormat::Xbgr8888) == if current is Xrgb {
            PixelFormat::Xbgr
        } else {
            current
        },
        spec_select(false, current, ShmFormat::Xrgb8888) == current,
        spec_select(false, current, ShmFormat::Other) == current,
        spec_select(true, current, announced) == current,
{
}

} // verus!
