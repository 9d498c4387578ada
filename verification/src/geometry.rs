//! Subtracting desktop regions from the frame.

use vstd::prelude::*;

verus! {

/// Columns the tab surface keeps when a right-anchored region is shown.
///
/// Below this the region is dropped for the frame instead of squeezing the
/// pane tree into an unusable width.
pub const MIN_TAB_SURFACE_WIDTH: u16 = 20;

/// Rows the frame needs before a region can show bordered content.
pub const MIN_REGION_HEIGHT: u16 = 3;

/// Smallest size a region may ever occupy along its anchored axis.
pub const REGION_SIZE_FLOOR: u16 = 4;

/// Largest size a region may ever occupy along its anchored axis.
pub const REGION_SIZE_CEILING: u16 = 400;

/// A rectangle of terminal cells.
#[derive(Debug, Clone, Copy, PartialEq, Eq, Structural, Hash)]
pub struct Rect {
    pub x: u16,
    pub y: u16,
    pub width: u16,
    pub height: u16,
}

/// The most of `length` that fits behind `start` in `u16` coordinates.
pub open spec fn clipped(start: u16, length: u16) -> u16 {
    if start + length <= u16::MAX {
        length
    } else {
        (u16::MAX - start) as u16
    }
}

/// `ratatui::layout::Rect::new`: the corner is kept as given; the width and the
/// height are cut so that the right and the bottom edge stay within `u16`.
#[verifier::external_body]
fn ratatui_rect(x: u16, y: u16, width: u16, height: u16) -> (rect: Rect)
    ensures
        rect == (Rect { x, y, width: clipped(x, width), height: clipped(y, height) }),
{
    let made = ratatui::layout::Rect::new(x, y, width, height);
    Rect { x: made.x, y: made.y, width: made.width, height: made.height }
}

impl Rect {
    /// Whether the right and the bottom edge are `u16` coordinates, as they are
    /// for every rectangle that [`Rect::new`] makes.
    pub open spec fn wf(self) -> bool {
        &&& self.x + self.width <= u16::MAX
        &&& self.y + self.height <= u16::MAX
    }

    /// Whether the rectangle covers the cell in column `x` and row `y`.
    pub open spec fn covers(self, x: int, y: int) -> bool {
        &&& self.x <= x < self.x + self.width
        &&& self.y <= y < self.y + self.height
    }

    /// The rectangle at a corner, cut where its edges would leave `u16`.
    pub open spec fn at(x: u16, y: u16, width: u16, height: u16) -> Rect {
        Rect { x, y, width: clipped(x, width), height: clipped(y, height) }
    }

    pub fn new(x: u16, y: u16, width: u16, height: u16) -> (rect: Rect)
        ensures
            rect == Rect::at(x, y, width, height),
            rect.wf(),
    {
        ratatui_rect(x, y, width, height)
    }
}

impl Default for Rect {
    fn default() -> (rect: Rect)
        ensures
            rect == (Rect { x: 0, y: 0, width: 0, height: 0 }),
    {
        Rect { x: 0, y: 0, width: 0, height: 0 }
    }
}

/// The desktop frame after regions have been subtracted from it.
#[derive(Debug, Clone, Copy, PartialEq, Eq, Structural)]
pub struct RegionLayout {
    /// Area reserved for the right-anchored region, when it is shown.
    pub right: Option<Rect>,
    /// What is left for the tab bar and the tab's pane tree.
    pub remaining: Rect,
}

impl Default for RegionLayout {
    fn default() -> (layout: RegionLayout)
        ensures
            layout.right is None,
            layout.remaining == (Rect { x: 0, y: 0, width: 0, height: 0 }),
    {
        RegionLayout { right: None, remaining: Rect::default() }
    }
}

/// `size` moved into the range from `low` to `high`.
pub open spec fn clamped(size: u16, low: u16, high: u16) -> u16 {
    if size < low {
        low
    } else if size > high {
        high
    } else {
        size
    }
}

/// Move `size` into the range from `low` to `high`.
pub(crate) fn clamp_size(size: u16, low: u16, high: u16) -> (kept: u16)
    requires
        low <= high,
    ensures
        kept == clamped(size, low, high),
{
    if size < low {
        low
    } else if size > high {
        high
    } else {
        size
    }
}

/// The width a right-anchored region takes when `requested` columns are asked for.
pub open spec fn region_width(requested: u16) -> u16 {
    clamped(requested, REGION_SIZE_FLOOR, REGION_SIZE_CEILING)
}

/// Whether a right-anchored region of the requested width is shown in the frame:
/// the frame is tall enough, and wide enough to leave the tab surface its columns.
pub open spec fn region_shows(main_area: Rect, right: Option<u16>) -> bool {
    match right {
        None => false,
        Some(requested) => {
            &&& main_area.height >= MIN_REGION_HEIGHT
            &&& main_area.width >= region_width(requested) + MIN_TAB_SURFACE_WIDTH
        },
    }
}

/// The column at which a shown right-anchored region starts.
pub open spec fn region_start(main_area: Rect, requested: u16) -> int {
    main_area.x + main_area.width - region_width(requested)
}

/// The frame with its right-anchored region subtracted.
pub open spec fn region_layout(main_area: Rect, right: Option<u16>) -> RegionLayout {
    match right {
        Some(requested) if region_shows(main_area, right) => {
            let width = region_width(requested);
            let start = region_start(main_area, requested) as u16;
            RegionLayout {
                right: Some(Rect::at(start, main_area.y, width, main_area.height)),
                remaining: Rect::at(
                    main_area.x,
                    main_area.y,
                    (main_area.width - width) as u16,
                    main_area.height,
                ),
            }
        },
        _ => RegionLayout { right: None, remaining: main_area },
    }
}

/// Whether [`layout_regions`] can lay the frame out: a shown region would start
/// within `u16`.
pub fn can_lay_out(main_area: Rect, right: Option<u16>) -> (can: bool)
    ensures
        can == (region_shows(main_area, right) ==> region_start(main_area, right->0) <= u16::MAX),
{
    let requested: u16 = match right {
        Some(requested) => requested,
        None => return true,
    };
    let width: u16 = clamp_size(requested, REGION_SIZE_FLOOR, REGION_SIZE_CEILING);
    if main_area.height < MIN_REGION_HEIGHT || main_area.width < width + MIN_TAB_SURFACE_WIDTH {
        return true;
    }
    main_area.width - width <= u16::MAX - main_area.x
}

/// Subtract the desktop regions from `main_area`.
///
/// `right` is the requested width of the right-anchored region in columns, or
/// `None` when no right region is open or it is hidden. The region is dropped
/// for this frame when the tab surface would be left below
/// [`MIN_TAB_SURFACE_WIDTH`] columns or the frame is shorter than
/// [`MIN_REGION_HEIGHT`], so content is never clipped into an unusable size and
/// the region returns when space does.
///
/// `main_area` is the frame that is left after the built-in sidebar has been
/// subtracted. The right region takes the full height of that remainder, so the
/// tab bar is computed from the narrowed rectangle and never runs under it.
///
/// A shown region has to start within `u16`, as it does in every frame whose
/// edges do.
pub fn layout_regions(main_area: Rect, right: Option<u16>) -> (layout: RegionLayout)
    requires
        region_shows(main_area, right) ==> region_start(main_area, right->0) <= u16::MAX,
    ensures
        layout == region_layout(main_area, right),
{
    let hidden = RegionLayout { right: None, remaining: main_area };
    let requested: u16 = match right {
        Some(requested) => requested,
        None => return hidden,
    };
    if main_area.height < MIN_REGION_HEIGHT {
        return hidden;
    }
    let width: u16 = clamp_size(requested, REGION_SIZE_FLOOR, REGION_SIZE_CEILING);
    if main_area.width < width.saturating_add(MIN_TAB_SURFACE_WIDTH) {
        return hidden;
    }
    let remaining_width: u16 = main_area.width - width;
    RegionLayout {
        right: Some(
            Rect::new(main_area.x + remaining_width, main_area.y, width, main_area.height),
        ),
        remaining: Rect::new(main_area.x, main_area.y, remaining_width, main_area.height),
    }
}

/// `length` less the two border cells.
pub open spec fn inside_border(length: u16) -> u16 {
    if length < 2 {
        0
    } else {
        (length - 2) as u16
    }
}

/// One cell further, where there is one.
pub open spec fn next_cell(start: u16) -> u16 {
    if start == u16::MAX {
        u16::MAX
    } else {
        (start + 1) as u16
    }
}

/// What is inside the border of a rectangle.
pub open spec fn inner_rect(outer: Rect) -> Rect {
    Rect {
        x: next_cell(outer.x),
        y: next_cell(outer.y),
        width: inside_border(outer.width),
        height: inside_border(outer.height),
    }
}

/// Content area inside a region's border chrome.
pub fn region_inner_rect(outer: Rect) -> (inner: Rect)
    ensures
        inner == inner_rect(outer),
{
    Rect {
        x: outer.x.saturating_add(1),
        y: outer.y.saturating_add(1),
        width: outer.width.saturating_sub(2),
        height: outer.height.saturating_sub(2),
    }
}

/// A frame whose edges are `u16` coordinates can be laid out with any request.
pub proof fn every_proper_frame_can_be_laid_out(main_area: Rect, requested: u16)
    requires
        main_area.wf(),
        region_shows(main_area, Some(requested)),
    ensures
        region_start(main_area, requested) <= u16::MAX,
{
}

/// A shown region and the rest tile the frame: each cell of the frame is covered
/// by exactly one of them, and no cell outside the frame by either.
pub proof fn a_shown_region_and_the_rest_tile_the_frame(
    main_area: Rect,
    requested: u16,
    x: int,
    y: int,
)
    requires
        main_area.wf(),
        region_shows(main_area, Some(requested)),
    ensures
        region_layout(main_area, Some(requested)).right is Some,
        ({
            let layout = region_layout(main_area, Some(requested));
            let in_right = layout.right->0.covers(x, y);
            let in_rest = layout.remaining.covers(x, y);
            &&& main_area.covers(x, y) <==> (in_right || in_rest)
            &&& !(in_right && in_rest)
        }),
{
}

/// A shown region takes the full height of the frame at its right edge, has the
/// clamped width, and starts where the rest ends.
pub proof fn a_shown_region_spans_the_right_edge(main_area: Rect, requested: u16)
    requires
        main_area.wf(),
        region_shows(main_area, Some(requested)),
    ensures
        ({
            let layout = region_layout(main_area, Some(requested));
            let right = layout.right->0;
            &&& layout.right is Some
            &&& right.y == main_area.y && right.height == main_area.height
            &&& right.width == region_width(requested)
            &&& right.x + right.width == main_area.x + main_area.width
            &&& right.x == layout.remaining.x + layout.remaining.width
            &&& layout.remaining.x == main_area.x && layout.remaining.y == main_area.y
            &&& layout.remaining.height == main_area.height
            &&& layout.remaining.width + right.width == main_area.width
        }),
{
}

/// No request, however large or small, takes the tab surface below its minimum,
/// or gives a shown region a width outside the absolute limits.
pub proof fn no_request_consumes_the_frame(main_area: Rect, requested: u16)
    requires
        main_area.wf(),
    ensures
        region_layout(main_area, Some(requested)).right matches Some(right) ==> {
            &&& region_layout(main_area, Some(requested)).remaining.width >= MIN_TAB_SURFACE_WIDTH
            &&& REGION_SIZE_FLOOR <= right.width <= REGION_SIZE_CEILING
            &&& right.height >= MIN_REGION_HEIGHT
        },
{
}

/// A region that is not shown leaves the frame as it was.
pub proof fn a_hidden_region_leaves_the_frame_untouched(main_area: Rect, right: Option<u16>)
    ensures
        region_layout(main_area, right).right is Some <==> region_shows(main_area, right),
        !region_shows(main_area, right) ==> region_layout(main_area, right).remaining == main_area,
{
}

/// A region that is shown stays shown, with the same width, when the frame grows.
/// So one that was dropped returns as soon as a frame is large enough.
pub proof fn a_region_stays_shown_when_the_frame_grows(
    small: Rect,
    large: Rect,
    requested: u16,
)
    requires
        small.wf(),
        large.wf(),
        small.width <= large.width,
        small.height <= large.height,
        region_layout(small, Some(requested)).right is Some,
    ensures
        region_layout(large, Some(requested)).right is Some,
        region_layout(large, Some(requested)).right->0.width == region_layout(
            small,
            Some(requested),
        ).right->0.width,
{
}

/// The content area covers exactly the cells of its region that are not on the
/// border. A region without room for more than a border has an empty one.
pub proof fn the_content_area_lies_inside_its_region(outer: Rect, x: int, y: int)
    requires
        outer.wf(),
    ensures
        inner_rect(outer).covers(x, y) <==> {
            &&& outer.x < x < outer.x + outer.width - 1
            &&& outer.y < y < outer.y + outer.height - 1
        },
{
}

/// A size already in range is kept, and what was moved into range stays there.
pub proof fn clamping_settles(size: u16, low: u16, high: u16)
    requires
        low <= high,
    ensures
        low <= clamped(size, low, high) <= high,
        low <= size <= high ==> clamped(size, low, high) == size,
        clamped(clamped(size, low, high), low, high) == clamped(size, low, high),
{
}

/// A larger request never gives a smaller size.
pub proof fn clamping_keeps_order(a: u16, b: u16, low: u16, high: u16)
    requires
        low <= high,
        a <= b,
    ensures
        clamped(a, low, high) <= clamped(b, low, high),
{
}

/// The absolute limits of a region and of what it leaves.
pub proof fn the_limits_are_fixed()
    ensures
        MIN_TAB_SURFACE_WIDTH == 20,
        MIN_REGION_HEIGHT == 3,
        REGION_SIZE_FLOOR == 4,
        REGION_SIZE_CEILING == 400,
{
}

/// A size in range is kept; any other is moved to the nearer end of the range.
/// So no size in range is nearer to the one asked for than the one given.
pub proof fn clamping_gives_the_nearest_size(size: u16, low: u16, high: u16, other: u16)
    requires
        low <= other <= high,
    ensures
        low <= clamped(size, low, high) <= high,
        size <= other ==> size <= clamped(size, low, high) <= other,
        size >= other ==> other <= clamped(size, low, high) <= size,
        low <= size <= high ==> clamped(size, low, high) == size,
        size < low ==> clamped(size, low, high) == low,
        size > high ==> clamped(size, low, high) == high,
{
}

/// A rectangle keeps its corner. It ends where it was asked to end, or at the
/// last coordinate where that comes first.
pub proof fn a_rectangle_ends_within_the_coordinates(x: u16, y: u16, width: u16, height: u16)
    ensures
        ({
            let rect = Rect::at(x, y, width, height);
            &&& rect.x == x
            &&& rect.y == y
            &&& x + width <= u16::MAX ==> rect.width == width
            &&& x + width > u16::MAX ==> rect.x + rect.width == u16::MAX
            &&& y + height <= u16::MAX ==> rect.height == height
            &&& y + height > u16::MAX ==> rect.y + rect.height == u16::MAX
        }),
{
}

/// A request for `requested` columns is laid out exactly when the frame is tall
/// enough and leaves the tab surface its columns beside `width` of them, which
/// is what is asked for as far as the absolute limits admit it. Then the region
/// takes the last `width` columns of the frame and the rest keeps the others.
/// Otherwise the frame is left as it is.
pub proof fn a_region_is_laid_out_exactly_where_it_fits(
    main_area: Rect,
    requested: u16,
    width: u16,
)
    requires
        main_area.wf(),
        REGION_SIZE_FLOOR <= requested <= REGION_SIZE_CEILING ==> width == requested,
        requested < REGION_SIZE_FLOOR ==> width == REGION_SIZE_FLOOR,
        requested > REGION_SIZE_CEILING ==> width == REGION_SIZE_CEILING,
    ensures
        ({
            let layout = region_layout(main_area, Some(requested));
            let fits = main_area.height >= MIN_REGION_HEIGHT && main_area.width >= width
                + MIN_TAB_SURFACE_WIDTH;
            &&& layout.right is Some <==> fits
            &&& !fits ==> layout.remaining == main_area
            &&& fits ==> {
                let right = layout.right->0;
                &&& right.x == main_area.x + main_area.width - width
                &&& right.y == main_area.y
                &&& right.width == width
                &&& right.height == main_area.height
                &&& layout.remaining.x == main_area.x
                &&& layout.remaining.y == main_area.y
                &&& layout.remaining.width == main_area.width - width
                &&& layout.remaining.height == main_area.height
            }
        }),
{
}

/// The same of a frame whose edges leave the coordinates: a region that fits
/// ends with the frame or at the last coordinate, and starts where the rest
/// ends.
pub proof fn a_region_is_cut_with_its_frame(main_area: Rect, requested: u16, width: u16)
    requires
        REGION_SIZE_FLOOR <= requested <= REGION_SIZE_CEILING ==> width == requested,
        requested < REGION_SIZE_FLOOR ==> width == REGION_SIZE_FLOOR,
        requested > REGION_SIZE_CEILING ==> width == REGION_SIZE_CEILING,
        main_area.x + main_area.width - width <= u16::MAX,
    ensures
        ({
            let layout = region_layout(main_area, Some(requested));
            let fits = main_area.height >= MIN_REGION_HEIGHT && main_area.width >= width
                + MIN_TAB_SURFACE_WIDTH;
            &&& layout.right is Some <==> fits
            &&& !fits ==> layout.remaining == main_area
            &&& fits ==> {
                let right = layout.right->0;
                let rest = layout.remaining;
                &&& right.x == main_area.x + main_area.width - width
                &&& right.wf()
                &&& right.width == width || right.width < width && right.x + right.width
                    == u16::MAX
                &&& right.y == main_area.y && rest.y == main_area.y
                &&& right.height == main_area.height || right.height < main_area.height && right.y
                    + right.height == u16::MAX
                &&& rest.height == right.height
                &&& rest.x == main_area.x
                &&& rest.x + rest.width == right.x
            }
        }),
{
}

/// Without a request there is no region, and the frame is left as it is.
pub proof fn no_request_leaves_the_frame_untouched(main_area: Rect)
    ensures
        region_layout(main_area, None) == (RegionLayout { right: None, remaining: main_area }),
{
}

/// A frame can be laid out unless a region that fits would start behind the last
/// column.
pub proof fn only_a_region_behind_the_last_column_cannot_be_laid_out(
    main_area: Rect,
    requested: u16,
    width: u16,
)
    requires
        REGION_SIZE_FLOOR <= requested <= REGION_SIZE_CEILING ==> width == requested,
        requested < REGION_SIZE_FLOOR ==> width == REGION_SIZE_FLOOR,
        requested > REGION_SIZE_CEILING ==> width == REGION_SIZE_CEILING,
    ensures
        !region_shows(main_area, None),
        region_shows(main_area, Some(requested)) <==> {
            &&& main_area.height >= MIN_REGION_HEIGHT
            &&& main_area.width >= width + MIN_TAB_SURFACE_WIDTH
        },
        region_start(main_area, requested) == main_area.x + main_area.width - width,
{
}

/// The content area starts one cell inside its region, where there is one, and
/// is two cells smaller each way, where that leaves any.
pub proof fn the_content_area_leaves_one_cell_on_each_side(outer: Rect)
    ensures
        ({
            let inner = inner_rect(outer);
            &&& outer.x < u16::MAX ==> inner.x == outer.x + 1
            &&& outer.x == u16::MAX ==> inner.x == u16::MAX
            &&& outer.y < u16::MAX ==> inner.y == outer.y + 1
            &&& outer.y == u16::MAX ==> inner.y == u16::MAX
            &&& outer.width >= 2 ==> inner.width == outer.width - 2
            &&& outer.width < 2 ==> inner.width == 0
            &&& outer.height >= 2 ==> inner.height == outer.height - 2
            &&& outer.height < 2 ==> inner.height == 0
        }),
{
}

} // verus!
