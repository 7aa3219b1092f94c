//! Placement of the HUD window on the displays, in physical pixels.
use vstd::prelude::*;

verus! {

/// A window's top-left corner.
#[derive(Debug, Clone, Copy, PartialEq, Eq, Structural)]
pub struct WindowPosition {
    pub x: i32,
    pub y: i32,
}

/// The work area of a display.
#[derive(Debug, Clone, Copy, PartialEq, Eq, Structural)]
pub struct DisplayBounds {
    pub left: i32,
    pub top: i32,
    pub right: i32,
    pub bottom: i32,
}

/// The display edge that the capsule is docked against.
#[derive(Debug, Clone, Copy, PartialEq, Eq, Structural)]
pub enum DockEdge {
    Left,
    Right,
    Top,
    Bottom,
}

/// Where the expanded card opens relative to the capsule.
#[derive(Debug, Clone, Copy, PartialEq, Eq, Structural)]
pub enum ExpandedPlacement {
    Above,
    Below,
    Left,
    Right,
}

/// Whether `v` is a value of `i32`.
pub open spec fn fits_i32(v: int) -> bool {
    i32::MIN <= v <= i32::MAX
}

/// How far `v` lies outside `[lo, hi]`.
pub open spec fn axis_gap(v: int, lo: int, hi: int) -> int {
    if v < lo {
        lo - v
    } else if v > hi {
        v - hi
    } else {
        0
    }
}

/// The squared distance from a point to a display's work area.
pub open spec fn spec_distance(x: int, y: int, b: DisplayBounds) -> int {
    axis_gap(x, b.left as int, b.right as int) * axis_gap(x, b.left as int, b.right as int)
        + axis_gap(y, b.top as int, b.bottom as int) * axis_gap(y, b.top as int, b.bottom as int)
}

/// Whether the distance from a point to `b` can be computed in 32-bit gaps.
pub open spec fn distance_computable(x: int, y: int, b: DisplayBounds) -> bool {
    fits_i32(axis_gap(x, b.left as int, b.right as int)) && fits_i32(axis_gap(y, b.top as int, b.bottom as int))
}

fn gap_along(v: i32, lo: i32, hi: i32) -> (r: i64)
    requires
        fits_i32(axis_gap(v as int, lo as int, hi as int)),
    ensures
        r == axis_gap(v as int, lo as int, hi as int),
        0 <= r <= i32::MAX,
{
    if v < lo {
        (lo - v) as i64
    } else if v > hi {
        (v - hi) as i64
    } else {
        0
    }
}

/// The squared distance from the point `(x, y)` to the work area `bounds`; zero inside it.
pub fn distance_to_bounds(x: i32, y: i32, bounds: DisplayBounds) -> (r: i64)
    requires
        distance_computable(x as int, y as int, bounds),
    ensures
        r == spec_distance(x as int, y as int, bounds),
{
    let dx = gap_along(x, bounds.left, bounds.right);
    let dy = gap_along(y, bounds.top, bounds.bottom);
    assert(dx * dx <= 0x7fff_ffff * 0x7fff_ffff) by (nonlinear_arith)
        requires 0 <= dx <= 0x7fff_ffff;
    assert(dy * dy <= 0x7fff_ffff * 0x7fff_ffff) by (nonlinear_arith)
        requires 0 <= dy <= 0x7fff_ffff;
    dx * dx + dy * dy
}

/// The display, among `displays`, nearest to the point `(x, y)`: the first of those at the
/// least distance. Fails when there is no display.
pub fn display_for_point(displays: &Vec<DisplayBounds>, x: i32, y: i32) -> (r: Result<DisplayBounds, String>)
    requires
        forall|i: int| 0 <= i < displays@.len() ==> distance_computable(x as int, y as int, #[trigger] displays@[i]),
    ensures
        r is Err <==> displays@.len() == 0,
        r matches Ok(d) ==> exists|i: int| {
            &&& 0 <= i < displays@.len()
            &&& #[trigger] displays@[i] == d
            &&& forall|k: int| 0 <= k < i ==> spec_distance(x as int, y as int, #[trigger] displays@[k]) > spec_distance(x as int, y as int, d)
            &&& forall|k: int| i < k < displays@.len() ==> spec_distance(x as int, y as int, #[trigger] displays@[k]) >= spec_distance(x as int, y as int, d)
        },
{
    if displays.len() == 0 {
        return Err("No active display is available".to_owned());
    }
    let mut best: usize = 0;
    let mut best_distance = distance_to_bounds(x, y, displays[0]);
    let mut i: usize = 1;
    while i < displays.len()
        invariant
            1 <= i <= displays@.len(),
            best < i,
            forall|k: int| 0 <= k < displays@.len() ==> distance_computable(x as int, y as int, #[trigger] displays@[k]),
            best_distance == spec_distance(x as int, y as int, displays@[best as int]),
            forall|k: int| 0 <= k < best ==> spec_distance(x as int, y as int, #[trigger] displays@[k]) > best_distance,
            forall|k: int| best < k < i ==> spec_distance(x as int, y as int, #[trigger] displays@[k]) >= best_distance,
        decreases displays@.len() - i,
    {
        let d = distance_to_bounds(x, y, displays[i]);
        if d < best_distance {
            best = i;
            best_distance = d;
        }
        i = i + 1;
    }
    let chosen = displays[best];
    assert(displays@[best as int] == chosen);
    Ok(chosen)
}

/// The largest left coordinate at which a window of width `width` stays inside `b`
/// (the left edge when it is wider than the display).
pub open spec fn max_x(b: DisplayBounds, width: int) -> int {
    if b.right - width > b.left { b.right - width } else { b.left as int }
}

/// The largest top coordinate at which a window of height `height` stays inside `b`.
pub open spec fn max_y(b: DisplayBounds, height: int) -> int {
    if b.bottom - height > b.top { b.bottom - height } else { b.top as int }
}

/// `v` clamped to `[lo, hi]`.
pub open spec fn clamp(v: int, lo: int, hi: int) -> int {
    if v < lo { lo } else if v > hi { hi } else { v }
}

/// The position of a window of size `width` x `height` moved the least distance that brings
/// it inside `b`, or to its top-left corner when it does not fit.
pub open spec fn clamped(p: WindowPosition, width: int, height: int, b: DisplayBounds) -> WindowPosition {
    WindowPosition {
        x: clamp(p.x as int, b.left as int, max_x(b, width)) as i32,
        y: clamp(p.y as int, b.top as int, max_y(b, height)) as i32,
    }
}

/// Whether `right - width` and `bottom - height` are values of `i32`.
pub open spec fn size_fits(width: int, height: int, b: DisplayBounds) -> bool {
    fits_i32(b.right - width) && fits_i32(b.bottom - height)
}

/// Moves a window of size `width` x `height` inside the work area `bounds`.
pub fn clamp_position(position: WindowPosition, width: i32, height: i32, bounds: DisplayBounds) -> (r: WindowPosition)
    requires
        size_fits(width as int, height as int, bounds),
    ensures
        r == clamped(position, width as int, height as int, bounds),
{
    let mx = if bounds.right - width > bounds.left { bounds.right - width } else { bounds.left };
    let my = if bounds.bottom - height > bounds.top { bounds.bottom - height } else { bounds.top };
    let x = if position.x < bounds.left { bounds.left } else if position.x > mx { mx } else { position.x };
    let y = if position.y < bounds.top { bounds.top } else if position.y > my { my } else { position.y };
    WindowPosition { x, y }
}

/// The edge that a window touches or crosses, checked left, right, top, bottom in turn.
pub open spec fn touched_edge(p: WindowPosition, width: int, height: int, b: DisplayBounds) -> Option<DockEdge> {
    if p.x <= b.left {
        Some(DockEdge::Left)
    } else if p.x >= max_x(b, width) {
        Some(DockEdge::Right)
    } else if p.y <= b.top {
        Some(DockEdge::Top)
    } else if p.y >= max_y(b, height) {
        Some(DockEdge::Bottom)
    } else {
        None
    }
}

/// Keeps a window where it was released, moved inside `bounds`, and tells which edge it
/// reached, if any. A window near an edge without touching it stays free.
pub fn free_position(position: WindowPosition, width: i32, height: i32, bounds: DisplayBounds) -> (r: (WindowPosition, Option<DockEdge>))
    requires
        size_fits(width as int, height as int, bounds),
    ensures
        r.0 == clamped(position, width as int, height as int, bounds),
        r.1 == touched_edge(position, width as int, height as int, bounds),
{
    let mx = if bounds.right - width > bounds.left { bounds.right - width } else { bounds.left };
    let my = if bounds.bottom - height > bounds.top { bounds.bottom - height } else { bounds.top };
    let edge = if position.x <= bounds.left {
        Some(DockEdge::Left)
    } else if position.x >= mx {
        Some(DockEdge::Right)
    } else if position.y <= bounds.top {
        Some(DockEdge::Top)
    } else if position.y >= my {
        Some(DockEdge::Bottom)
    } else {
        None
    };
    (clamp_position(position, width, height, bounds), edge)
}

/// The position of a window retracted behind `edge`, leaving `handle` pixels inside the
/// work area; along the edge it stays at the anchor.
pub open spec fn retracted(anchor: WindowPosition, width: int, height: int, b: DisplayBounds, edge: DockEdge, handle: int) -> (int, int) {
    match edge {
        DockEdge::Left => (b.left - width + handle, anchor.y as int),
        DockEdge::Right => (b.right - handle, anchor.y as int),
        DockEdge::Top => (anchor.x as int, b.top - height + handle),
        DockEdge::Bottom => (anchor.x as int, b.bottom - handle),
    }
}

/// Moves a docked window behind its edge so that only a handle of `handle` pixels shows.
pub fn retracted_position(
    anchor: WindowPosition,
    width: i32,
    height: i32,
    bounds: DisplayBounds,
    edge: DockEdge,
    handle: i32,
) -> (r: WindowPosition)
    requires
        fits_i32(bounds.left - width),
        fits_i32(retracted(anchor, width as int, height as int, bounds, edge, handle as int).0),
        fits_i32(bounds.top - height),
        fits_i32(retracted(anchor, width as int, height as int, bounds, edge, handle as int).1),
    ensures
        (r.x as int, r.y as int) == retracted(anchor, width as int, height as int, bounds, edge, handle as int),
{
    match edge {
        DockEdge::Left => WindowPosition { x: bounds.left - width + handle, y: anchor.y },
        DockEdge::Right => WindowPosition { x: bounds.right - handle, y: anchor.y },
        DockEdge::Top => WindowPosition { x: anchor.x, y: bounds.top - height + handle },
        DockEdge::Bottom => WindowPosition { x: anchor.x, y: bounds.bottom - handle },
    }
}

} // verus!

verus! {

/// Sizes in physical pixels that the expanded layout is computed from: the capsule, the
/// card, the overlap between them, and the window with the card above or below the capsule
/// (`vertical_*`) or beside it (`lateral_*`).
#[derive(Debug, Clone, Copy, PartialEq, Eq, Structural)]
pub struct ExpandedMetrics {
    pub orb_width: i32,
    pub orb_height: i32,
    pub card_width: i32,
    pub card_height: i32,
    pub join: i32,
    pub vertical_width: i32,
    pub vertical_height: i32,
    pub lateral_width: i32,
    pub lateral_height: i32,
}

/// Half of `v`, rounded toward zero as integer division does.
pub open spec fn half(v: int) -> int {
    if v >= 0 {
        v / 2
    } else {
        -((-v) / 2)
    }
}

fn half_of(v: i32) -> (r: i32)
    ensures
        r == half(v as int),
{
    if v >= 0 {
        v / 2
    } else if v == i32::MIN {
        -(i32::MAX / 2) - 1
    } else {
        -((-v) / 2)
    }
}

/// The side the card opens on: above or below as the capsule is in the lower or upper half
/// of the display, if the card fits there; otherwise the other vertical side, then left or
/// right as the capsule is in the right or left half, then the other lateral side, and right
/// as a last resort.
pub open spec fn expanded_placement(orb: WindowPosition, b: DisplayBounds, m: ExpandedMetrics) -> ExpandedPlacement {
    let center_x = orb.x + half(m.orb_width as int);
    let center_y = orb.y + half(m.orb_height as int);
    let display_center_x = b.left + half(b.right - b.left);
    let display_center_y = b.top + half(b.bottom - b.top);
    let can_open_above = orb.y - b.top >= m.card_height - m.join;
    let can_open_below = b.bottom - (orb.y + m.orb_height) >= m.card_height - m.join;
    let can_open_left = orb.x - b.left >= m.card_width - m.join;
    let can_open_right = b.right - (orb.x + m.orb_width) >= m.card_width - m.join;
    if center_y > display_center_y && can_open_above {
        ExpandedPlacement::Above
    } else if center_y <= display_center_y && can_open_below {
        ExpandedPlacement::Below
    } else if can_open_above {
        ExpandedPlacement::Above
    } else if can_open_below {
        ExpandedPlacement::Below
    } else if center_x > display_center_x && can_open_left {
        ExpandedPlacement::Left
    } else if center_x <= display_center_x && can_open_right {
        ExpandedPlacement::Right
    } else if can_open_left {
        ExpandedPlacement::Left
    } else {
        ExpandedPlacement::Right
    }
}

/// The size of the expanded window for a placement.
pub open spec fn placement_size(p: ExpandedPlacement, m: ExpandedMetrics) -> (int, int) {
    match p {
        ExpandedPlacement::Above | ExpandedPlacement::Below => (m.vertical_width as int, m.vertical_height as int),
        ExpandedPlacement::Left | ExpandedPlacement::Right => (m.lateral_width as int, m.lateral_height as int),
    }
}

/// Where the expanded window would go for a placement, before it is kept on the display:
/// centred on the capsule across the placement, with the capsule at the window's edge
/// nearest to it.
pub open spec fn desired_position(orb: WindowPosition, p: ExpandedPlacement, m: ExpandedMetrics) -> (int, int) {
    let (w, h) = placement_size(p, m);
    let center_x = orb.x + half(m.orb_width as int);
    let center_y = orb.y + half(m.orb_height as int);
    match p {
        ExpandedPlacement::Above => (center_x - half(w), orb.y + m.orb_height - h),
        ExpandedPlacement::Below => (center_x - half(w), orb.y as int),
        ExpandedPlacement::Left => (orb.x + m.orb_width - w, center_y - half(h)),
        ExpandedPlacement::Right => (orb.x as int, center_y - half(h)),
    }
}

/// Whether every intermediate value of the expanded layout is a value of `i32`.
pub open spec fn layout_computable(orb: WindowPosition, b: DisplayBounds, m: ExpandedMetrics) -> bool {
    &&& fits_i32(orb.x + half(m.orb_width as int))
    &&& fits_i32(orb.y + half(m.orb_height as int))
    &&& fits_i32(b.right - b.left)
    &&& fits_i32(b.bottom - b.top)
    &&& fits_i32(orb.y - b.top)
    &&& fits_i32(m.card_height - m.join)
    &&& fits_i32(m.card_width - m.join)
    &&& fits_i32(orb.y + m.orb_height)
    &&& fits_i32(b.bottom - (orb.y + m.orb_height))
    &&& fits_i32(orb.x - b.left)
    &&& fits_i32(orb.x + m.orb_width)
    &&& fits_i32(b.right - (orb.x + m.orb_width))
    &&& forall|p: ExpandedPlacement| {
        let (w, h) = #[trigger] placement_size(p, m);
        let (dx, dy) = desired_position(orb, p, m);
        &&& fits_i32(dx)
        &&& fits_i32(dy)
        &&& fits_i32(orb.x + m.orb_width - w)
        &&& fits_i32(orb.y + m.orb_height - h)
        &&& fits_i32(orb.x + half(m.orb_width as int) - half(w))
        &&& fits_i32(orb.y + half(m.orb_height as int) - half(h))
        &&& size_fits(w, h, b)
    }
}

/// Opens the expanded card next to the capsule at `orb` on display `bounds`: the side it
/// opens on (see `expanded_placement`) and the window's position, kept on the display.
pub fn expanded_window_layout(orb: WindowPosition, bounds: DisplayBounds, metrics: ExpandedMetrics) -> (r: (ExpandedPlacement, WindowPosition))
    requires
        layout_computable(orb, bounds, metrics),
    ensures
        r.0 == expanded_placement(orb, bounds, metrics),
        ({
            let (w, h) = placement_size(r.0, metrics);
            let (dx, dy) = desired_position(orb, r.0, metrics);
            r.1 == clamped(WindowPosition { x: dx as i32, y: dy as i32 }, w, h, bounds)
        }),
{
    let m = metrics;
    let center_x = orb.x + half_of(m.orb_width);
    let center_y = orb.y + half_of(m.orb_height);
    let display_center_x = bounds.left + half_of(bounds.right - bounds.left);
    let display_center_y = bounds.top + half_of(bounds.bottom - bounds.top);
    let can_open_above = orb.y - bounds.top >= m.card_height - m.join;
    let can_open_below = bounds.bottom - (orb.y + m.orb_height) >= m.card_height - m.join;
    let can_open_left = orb.x - bounds.left >= m.card_width - m.join;
    let can_open_right = bounds.right - (orb.x + m.orb_width) >= m.card_width - m.join;
    let placement = if center_y > display_center_y && can_open_above {
        ExpandedPlacement::Above
    } else if center_y <= display_center_y && can_open_below {
        ExpandedPlacement::Below
    } else if can_open_above {
        ExpandedPlacement::Above
    } else if can_open_below {
        ExpandedPlacement::Below
    } else if center_x > display_center_x && can_open_left {
        ExpandedPlacement::Left
    } else if center_x <= display_center_x && can_open_right {
        ExpandedPlacement::Right
    } else if can_open_left {
        ExpandedPlacement::Left
    } else {
        ExpandedPlacement::Right
    };
    let (w, h) = match placement {
        ExpandedPlacement::Above | ExpandedPlacement::Below => (m.vertical_width, m.vertical_height),
        ExpandedPlacement::Left | ExpandedPlacement::Right => (m.lateral_width, m.lateral_height),
    };
    proof {
        let _ = placement_size(placement, m);
    }
    let desired = match placement {
        ExpandedPlacement::Above => WindowPosition { x: center_x - half_of(w), y: orb.y + m.orb_height - h },
        ExpandedPlacement::Below => WindowPosition { x: center_x - half_of(w), y: orb.y },
        ExpandedPlacement::Left => WindowPosition { x: orb.x + m.orb_width - w, y: center_y - half_of(h) },
        ExpandedPlacement::Right => WindowPosition { x: orb.x, y: center_y - half_of(h) },
    };
    (placement, clamp_position(desired, w, h, bounds))
}

/// After a drag of the expanded window: the capsule, released at `released_orb`, is kept
/// on the display, and the window moves by as much as the capsule did.
pub fn settle_released_orb(
    released_window: WindowPosition,
    released_orb: WindowPosition,
    orb_width: i32,
    orb_height: i32,
    bounds: DisplayBounds,
) -> (r: (WindowPosition, WindowPosition))
    requires
        size_fits(orb_width as int, orb_height as int, bounds),
        fits_i32(released_window.x + clamped(released_orb, orb_width as int, orb_height as int, bounds).x - released_orb.x),
        fits_i32(released_window.y + clamped(released_orb, orb_width as int, orb_height as int, bounds).y - released_orb.y),
        fits_i32(released_window.x + clamped(released_orb, orb_width as int, orb_height as int, bounds).x),
        fits_i32(released_window.y + clamped(released_orb, orb_width as int, orb_height as int, bounds).y),
    ensures
        r.0 == clamped(released_orb, orb_width as int, orb_height as int, bounds),
        r.1.x == released_window.x + r.0.x - released_orb.x,
        r.1.y == released_window.y + r.0.y - released_orb.y,
{
    let (orb, _) = free_position(released_orb, orb_width, orb_height, bounds);
    let window = WindowPosition {
        x: released_window.x + orb.x - released_orb.x,
        y: released_window.y + orb.y - released_orb.y,
    };
    (orb, window)
}

/// Where the compact capsule is anchored when the compact surface is shown.
#[derive(Debug, Clone, Copy, PartialEq, Eq, Structural)]
pub enum CompactAnchor {
    /// At the saved position of the capsule.
    Saved(WindowPosition),
    /// At the saved position of the older, larger orb, which is to be converted to the
    /// capsule's position (by the display's scale).
    Legacy(WindowPosition),
    /// Where the window is now: no position was saved.
    Current(WindowPosition),
}

/// The anchor of the compact capsule: the saved position when there is one, taken as an
/// older orb's when the stored settings predate the current surface version
/// (`surface_version` below 3); otherwise the window's current position.
pub fn compact_anchor(saved: Option<WindowPosition>, surface_version: u8, current: WindowPosition) -> (r: CompactAnchor)
    ensures
        r == (match saved {
            Some(p) => if surface_version < 3 { CompactAnchor::Legacy(p) } else { CompactAnchor::Saved(p) },
            None => CompactAnchor::Current(current),
        }),
{
    match saved {
        Some(p) => if surface_version < 3 { CompactAnchor::Legacy(p) } else { CompactAnchor::Saved(p) },
        None => CompactAnchor::Current(current),
    }
}

} // verus!

verus! {

/// A window already inside the work area is left where it is.
pub proof fn law_clamp_keeps_inside_positions(p: WindowPosition, width: int, height: int, b: DisplayBounds)
    requires
        b.left <= p.x <= max_x(b, width),
        b.top <= p.y <= max_y(b, height),
    ensures
        clamped(p, width, height, b) == p,
{
}

/// A window that fits the work area ends up wholly inside it.
pub proof fn law_clamped_window_is_inside(p: WindowPosition, width: int, height: int, b: DisplayBounds)
    requires
        0 <= width <= b.right - b.left,
        0 <= height <= b.bottom - b.top,
    ensures
        b.left <= clamped(p, width, height, b).x,
        clamped(p, width, height, b).x + width <= b.right,
        b.top <= clamped(p, width, height, b).y,
        clamped(p, width, height, b).y + height <= b.bottom,
{
}

/// Moving a window inside twice is moving it once.
pub proof fn law_clamp_is_idempotent(p: WindowPosition, width: int, height: int, b: DisplayBounds)
    requires
        fits_i32(max_x(b, width)),
        fits_i32(max_y(b, height)),
    ensures
        clamped(clamped(p, width, height, b), width, height, b) == clamped(p, width, height, b),
{
}

/// A retracted window leaves exactly `handle` pixels inside the work area, across the edge
/// it is retracted behind.
pub proof fn law_retraction_leaves_the_handle(
    anchor: WindowPosition,
    width: int,
    height: int,
    b: DisplayBounds,
    edge: DockEdge,
    handle: int,
)
    ensures
        ({
            let (x, y) = retracted(anchor, width, height, b, edge, handle);
            match edge {
                DockEdge::Left => x + width - b.left == handle,
                DockEdge::Right => b.right - x == handle,
                DockEdge::Top => y + height - b.top == handle,
                DockEdge::Bottom => b.bottom - y == handle,
            }
        }),
{
}

/// The expanded window opens from the capsule toward its placement: below, its top is the
/// capsule's top; above, its bottom is the capsule's bottom; to the left, its right edge is
/// the capsule's right edge; to the right, its left edge is the capsule's left edge. Across
/// the placement it is centred on the capsule (as integer halves). This is where it goes
/// before it is kept on the display.
pub proof fn law_expanded_window_opens_from_the_capsule(orb: WindowPosition, m: ExpandedMetrics)
    ensures
        desired_position(orb, ExpandedPlacement::Below, m) == (
            orb.x + half(m.orb_width as int) - half(m.vertical_width as int),
            orb.y as int,
        ),
        desired_position(orb, ExpandedPlacement::Above, m) == (
            orb.x + half(m.orb_width as int) - half(m.vertical_width as int),
            orb.y + m.orb_height - m.vertical_height,
        ),
        desired_position(orb, ExpandedPlacement::Left, m) == (
            orb.x + m.orb_width - m.lateral_width,
            orb.y + half(m.orb_height as int) - half(m.lateral_height as int),
        ),
        desired_position(orb, ExpandedPlacement::Right, m) == (
            orb.x as int,
            orb.y + half(m.orb_height as int) - half(m.lateral_height as int),
        ),
{
}

/// Where the expanded window fits on the display as it opens from the capsule, it stays
/// there: opening below, the window computed starts at the capsule's top.
pub proof fn law_a_fitting_expanded_window_starts_at_the_capsule(orb: WindowPosition, b: DisplayBounds, m: ExpandedMetrics, r: (ExpandedPlacement, WindowPosition))
    requires
        r.0 == ExpandedPlacement::Below,
        ({
            let (dx, dy) = desired_position(orb, r.0, m);
            r.1 == clamped(WindowPosition { x: dx as i32, y: dy as i32 }, m.vertical_width as int, m.vertical_height as int, b)
        }),
        b.left <= orb.x + half(m.orb_width as int) - half(m.vertical_width as int),
        orb.x + half(m.orb_width as int) - half(m.vertical_width as int) + m.vertical_width <= b.right,
        b.top <= orb.y,
        orb.y + m.vertical_height <= b.bottom,
        fits_i32(orb.x + half(m.orb_width as int) - half(m.vertical_width as int)),
    ensures
        r.1.y == orb.y,
        r.1.x == orb.x + half(m.orb_width as int) - half(m.vertical_width as int),
{
}

/// The card opens toward the roomier half of the display when it fits there: below a
/// capsule in the upper half, above one in the lower half. Where it fits on neither side
/// vertically, it opens to the left or the right, never above or below a side it does not
/// fit on, unless it fits nowhere (then it opens to the right).
pub proof fn law_the_card_opens_where_it_fits(orb: WindowPosition, b: DisplayBounds, m: ExpandedMetrics)
    ensures
        ({
            let center_y = orb.y + half(m.orb_height as int);
            let display_center_y = b.top + half(b.bottom - b.top);
            let fits_above = orb.y - b.top >= m.card_height - m.join;
            let fits_below = b.bottom - (orb.y + m.orb_height) >= m.card_height - m.join;
            let fits_left = orb.x - b.left >= m.card_width - m.join;
            let p = expanded_placement(orb, b, m);
            &&& center_y <= display_center_y && fits_below ==> p == ExpandedPlacement::Below
            &&& center_y > display_center_y && fits_above ==> p == ExpandedPlacement::Above
            &&& p == ExpandedPlacement::Above ==> fits_above
            &&& p == ExpandedPlacement::Below ==> fits_below
            &&& p == ExpandedPlacement::Left ==> fits_left && !fits_above && !fits_below
            &&& p == ExpandedPlacement::Right ==> !fits_above && !fits_below
        }),
{
}

} // verus!
