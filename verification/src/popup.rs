//! Placement of the popup window at the mouse position: scale the position
//! to the monitor it falls on, and pull the window back inside that
//! monitor's edges when it would run off the right or bottom.

use vstd::prelude::*;

verus! {

/// One attached monitor: origin, size, and its whole-number scale factor.
#[derive(Clone, Copy, Debug, PartialEq, Eq, Structural)]
pub struct MonitorInfo {
    pub x: i32,
    pub y: i32,
    pub width: u32,
    pub height: u32,
    pub scale: i32,
}

impl MonitorInfo {
    /// Bounds under which the placement arithmetic cannot overflow.
    pub open spec fn bounded(self) -> bool {
        &&& -536870912 <= self.x <= 536870912
        &&& -536870912 <= self.y <= 536870912
        &&& self.width <= 536870912
        &&& self.height <= 536870912
        &&& 1 <= self.scale <= 100
    }

    /// Whether the point lies on this monitor.
    pub open spec fn contains_point(self, px: int, py: int) -> bool {
        px >= self.x && px < self.x + self.width && py >= self.y && py < self.y + self.height
    }
}

/// The position adjusted so a window of size `w` by `h` stays inside the
/// monitor: shifted left of the cursor when it would run off the right
/// edge, and above it when it would run off the bottom.
pub open spec fn adjusted(m: MonitorInfo, px: int, py: int, w: int, h: int) -> (int, int) {
    (
        if px + w > m.x + m.width {
            px - w
        } else {
            px
        },
        if py + h > m.y + m.height {
            py - h
        } else {
            py
        },
    )
}

/// Where the popup goes: walk the monitors, scale the mouse position by
/// each monitor's factor, and place at the first monitor that contains its
/// scaled position, adjusted to its edges. When none does, the position
/// scaled by the last monitor's factor stands; with no monitor at all, the
/// raw position stands.
pub open spec fn spec_popup_position(
    monitors: Seq<MonitorInfo>,
    mx: int,
    my: int,
    w: int,
    h: int,
) -> (int, int)
    decreases monitors.len(),
{
    if monitors.len() == 0 {
        (mx, my)
    } else {
        let m = monitors[0];
        let px = mx * m.scale;
        let py = my * m.scale;
        if m.contains_point(px, py) {
            adjusted(m, px, py, w, h)
        } else if monitors.len() == 1 {
            (px, py)
        } else {
            spec_popup_position(monitors.drop_first(), mx, my, w, h)
        }
    }
}

/// The mouse position scaled by the monitor's factor.
fn scale_pos(m: MonitorInfo, mx: i32, my: i32) -> (r: (i32, i32))
    requires
        m.bounded(),
        -16777216 <= mx <= 16777216,
        -16777216 <= my <= 16777216,
    ensures
        r.0 == mx * m.scale,
        r.1 == my * m.scale,
        -1677721600 <= r.0 <= 1677721600,
        -1677721600 <= r.1 <= 1677721600,
{
    proof {
        assert(-1677721600 <= mx * m.scale <= 1677721600) by (nonlinear_arith)
            requires
                -16777216 <= mx <= 16777216 && 1 <= m.scale <= 100,
        ;
        assert(-1677721600 <= my * m.scale <= 1677721600) by (nonlinear_arith)
            requires
                -16777216 <= my <= 16777216 && 1 <= m.scale <= 100,
        ;
    }
    (mx * m.scale, my * m.scale)
}

/// Compute the popup position for the observed mouse position, window size
/// and monitor layout.
#[verifier::loop_isolation(false)]
pub fn popup_position(monitors: &Vec<MonitorInfo>, mx: i32, my: i32, w: u32, h: u32) -> (r: (
    i32,
    i32,
))
    requires
        -16777216 <= mx <= 16777216,
        -16777216 <= my <= 16777216,
        w <= 16777216,
        h <= 16777216,
        forall|i: int| 0 <= i < monitors@.len() ==> (#[trigger] monitors@[i]).bounded(),
    ensures
        (r.0 as int, r.1 as int) == spec_popup_position(
            monitors@,
            mx as int,
            my as int,
            w as int,
            h as int,
        ),
{
    let n = monitors.len();
    if n == 0 {
        return (mx, my);
    }
    let ghost full = monitors@;
    proof {
        assert(full.skip(0) =~= full);
    }
    let mut i: usize = 0;
    while i + 1 < n
        invariant
            i < n,
            n == full.len(),
            spec_popup_position(full, mx as int, my as int, w as int, h as int)
                == spec_popup_position(
                full.skip(i as int),
                mx as int,
                my as int,
                w as int,
                h as int,
            ),
        decreases n - i,
    {
        let m = monitors[i];
        let (px, py) = scale_pos(m, mx, my);
        proof {
            assert(full.skip(i as int)[0] == m);
            assert(full.skip(i as int).drop_first() =~= full.skip(i + 1));
        }
        if px >= m.x && (px as i64) < m.x as i64 + m.width as i64 && py >= m.y && (py as i64)
            < m.y as i64 + m.height as i64 {
            let ax = if (px as i64) + (w as i64) > (m.x as i64) + (m.width as i64) {
                px - w as i32
            } else {
                px
            };
            let ay = if (py as i64) + (h as i64) > (m.y as i64) + (m.height as i64) {
                py - h as i32
            } else {
                py
            };
            return (ax, ay);
        }
        i = i + 1;
    }
    let m = monitors[i];
    let (px, py) = scale_pos(m, mx, my);
    proof {
        assert(full.skip(i as int)[0] == m);
        assert(full.skip(i as int).len() == 1);
    }
    if px >= m.x && (px as i64) < m.x as i64 + m.width as i64 && py >= m.y && (py as i64)
        < m.y as i64 + m.height as i64 {
        let ax = if (px as i64) + (w as i64) > (m.x as i64) + (m.width as i64) {
            px - w as i32
        } else {
            px
        };
        let ay = if (py as i64) + (h as i64) > (m.y as i64) + (m.height as i64) {
            py - h as i32
        } else {
            py
        };
        (ax, ay)
    } else {
        (px, py)
    }
}

} // verus!
