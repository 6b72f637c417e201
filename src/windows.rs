use vstd::prelude::*;

verus! {

/// A rectangle on the desktop, in physical pixels: its top-left corner and its size.
#[derive(Clone, Copy, Debug, PartialEq, Eq, Structural)]
pub struct Rect {
    pub x: i32,
    pub y: i32,
    pub width: u32,
    pub height: u32,
}

/// Whether the point lies in the rectangle, edges included.
pub open spec fn rect_contains(r: Rect, px: int, py: int) -> bool {
    &&& r.x <= px <= r.x + r.width
    &&& r.y <= py <= r.y + r.height
}

/// Whether the point `(px, py)` lies on the monitor `r`, edges included.
pub fn contains_point(r: &Rect, px: i32, py: i32) -> (b: bool)
    ensures
        b == rect_contains(*r, px as int, py as int),
{
    let x = px as i64;
    let y = py as i64;
    r.x as i64 <= x && x <= r.x as i64 + r.width as i64 && r.y as i64 <= y && y <= r.y as i64
        + r.height as i64
}

/// The first monitor, in the order given, on which the point lies.
pub fn monitor_at(monitors: &Vec<Rect>, px: i32, py: i32) -> (r: Option<usize>)
    ensures
        match r {
            Some(i) => i < monitors@.len() && rect_contains(monitors@[i as int], px as int, py as int)
                && forall|j: int|
                0 <= j < i ==> !rect_contains(#[trigger] monitors@[j], px as int, py as int),
            None => forall|j: int|
                0 <= j < monitors@.len() ==> !rect_contains(
                    #[trigger] monitors@[j],
                    px as int,
                    py as int,
                ),
        },
{
    let mut i: usize = 0;
    while i < monitors.len()
        invariant
            i <= monitors@.len(),
            forall|j: int| 0 <= j < i ==> !rect_contains(#[trigger] monitors@[j], px as int, py as int),
        decreases monitors@.len() - i,
    {
        if contains_point(&monitors[i], px, py) {
            return Some(i);
        }
        i += 1;
    }
    None
}

/// One coordinate of a window placed at `pos`: moved back so that its far edge, at
/// `pos + size`, does not pass the monitor's far edge at `start + extent`.
pub open spec fn fit_axis(pos: int, size: int, start: int, extent: int) -> int {
    if pos + size > start + extent {
        start + extent - size
    } else {
        pos
    }
}

fn fit_axis_exec(pos: i32, size: u32, start: i32, extent: u32) -> (r: i32)
    requires
        i32::MIN <= start + extent - size,
    ensures
        r == fit_axis(pos as int, size as int, start as int, extent as int),
{
    let end = start as i64 + extent as i64;
    if pos as i64 + size as i64 > end {
        (end - size as i64) as i32
    } else {
        pos
    }
}

/// Where a window of `width x height` opened at the mouse position `(px, py)` goes so
/// that it does not reach past the right or bottom edge of `monitor`.
pub fn fit_to_monitor(px: i32, py: i32, width: u32, height: u32, monitor: &Rect) -> (r: (
    i32,
    i32,
))
    requires
        i32::MIN <= monitor.x + monitor.width - width,
        i32::MIN <= monitor.y + monitor.height - height,
    ensures
        r.0 == fit_axis(px as int, width as int, monitor.x as int, monitor.width as int),
        r.1 == fit_axis(py as int, height as int, monitor.y as int, monitor.height as int),
{
    (
        fit_axis_exec(px, width, monitor.x, monitor.width),
        fit_axis_exec(py, height, monitor.y, monitor.height),
    )
}

} // verus!
