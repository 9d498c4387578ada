//! The region model: which edge a region takes, how large it may be, and which
//! regions are live.
//!
//! A region is a rectangle of the desktop frame that the host reserves for one
//! hosted terminal program. Unlike a pane, it is not part of a tab's tiled
//! layout. This module is pure data: it holds no terminal runtime and does no
//! I/O.

use vstd::prelude::*;

use crate::geometry::{clamp_size, clamped, REGION_SIZE_CEILING, REGION_SIZE_FLOOR};
use crate::ids::{PaneId, RegionId, TerminalId};

verus! {

/// Size used when neither the manifest nor user config picks one.
pub const DEFAULT_REGION_SIZE: u16 = 32;

/// Lower bound used when a manifest declares no `min_size`.
pub const DEFAULT_REGION_MIN_SIZE: u16 = 8;

/// Upper bound used when a manifest declares no `max_size`.
pub const DEFAULT_REGION_MAX_SIZE: u16 = 200;

/// Which frame edge a region occupies.
#[derive(
    Debug,
    Clone,
    Copy,
    PartialEq,
    Eq,
    Structural,
    PartialOrd,
    Ord,
    Hash,
    Default,
)]
pub enum RegionAnchor {
    #[default]
    Right,
}

/// What a region's lifetime is bound to: one instance for the whole session,
/// shared by every Space and tab.
#[derive(
    Debug,
    Clone,
    Copy,
    PartialEq,
    Eq,
    Structural,
    PartialOrd,
    Ord,
    Hash,
    Default,
)]
pub enum RegionScope {
    #[default]
    Session,
}

/// The smallest and the largest size of one region.
pub struct SizeRange {
    pub min: u16,
    pub max: u16,
}

impl SizeRange {
    /// Whether the range is not empty and within the absolute limits.
    pub open spec fn wf(self) -> bool {
        REGION_SIZE_FLOOR <= self.min <= self.max <= REGION_SIZE_CEILING
    }

    /// The range that a manifest's declared limits give: each limit, or its
    /// default, moved within the absolute limits, and the upper one raised to
    /// the lower one where they are inverted.
    pub open spec fn declared(min: Option<u16>, max: Option<u16>) -> SizeRange {
        let low = clamped(
            match min {
                Some(min) => min,
                None => DEFAULT_REGION_MIN_SIZE,
            },
            REGION_SIZE_FLOOR,
            REGION_SIZE_CEILING,
        );
        let high = clamped(
            match max {
                Some(max) => max,
                None => DEFAULT_REGION_MAX_SIZE,
            },
            REGION_SIZE_FLOOR,
            REGION_SIZE_CEILING,
        );
        SizeRange {
            min: low,
            max: if high < low {
                low
            } else {
                high
            },
        }
    }

    /// `size` moved into the range.
    pub open spec fn clamp(self, size: u16) -> u16 {
        clamped(size, self.min, self.max)
    }
}

/// Server-owned size bounds for one region.
///
/// Bounds can only be built through [`RegionSizeBounds::new`], which clamps
/// them into the absolute floor/ceiling. A caller therefore cannot widen its
/// own limits, zero a region, or make one consume the whole frame.
#[derive(Debug, Clone, Copy, PartialEq, Eq, Structural)]
pub struct RegionSizeBounds {
    min: u16,
    max: u16,
}

impl View for RegionSizeBounds {
    type V = SizeRange;

    closed spec fn view(&self) -> SizeRange {
        SizeRange { min: self.min, max: self.max }
    }
}

impl RegionSizeBounds {
    #[verifier::type_invariant]
    spec fn within_limits(self) -> bool {
        self@.wf()
    }

    pub fn new(min: Option<u16>, max: Option<u16>) -> (bounds: RegionSizeBounds)
        ensures
            bounds@ == SizeRange::declared(min, max),
            bounds@.wf(),
    {
        let low: u16 = clamp_size(
            min.unwrap_or(DEFAULT_REGION_MIN_SIZE),
            REGION_SIZE_FLOOR,
            REGION_SIZE_CEILING,
        );
        let high: u16 = clamp_size(
            max.unwrap_or(DEFAULT_REGION_MAX_SIZE),
            REGION_SIZE_FLOOR,
            REGION_SIZE_CEILING,
        );
        RegionSizeBounds {
            min: low,
            max: if high < low {
                low
            } else {
                high
            },
        }
    }

    pub fn min(self) -> (min: u16)
        ensures
            min == self@.min,
            REGION_SIZE_FLOOR <= min <= self@.max,
    {
        proof {
            use_type_invariant(&self);
        }
        self.min
    }

    pub fn max(self) -> (max: u16)
        ensures
            max == self@.max,
            self@.min <= max <= REGION_SIZE_CEILING,
    {
        proof {
            use_type_invariant(&self);
        }
        self.max
    }

    /// Clamp a requested size into these bounds.
    pub fn clamp(self, size: u16) -> (kept: u16)
        ensures
            kept == self@.clamp(size),
            self@.wf(),
            self@.min <= kept <= self@.max,
    {
        proof {
            use_type_invariant(&self);
        }
        clamp_size(size, self.min, self.max)
    }
}

impl Default for RegionSizeBounds {
    fn default() -> (bounds: RegionSizeBounds)
        ensures
            bounds@ == SizeRange::declared(None, None),
            bounds@.wf(),
    {
        RegionSizeBounds::new(None, None)
    }
}

/// What one live region is.
#[verifier::ext_equal]
pub struct RegionView {
    pub region_id: Seq<char>,
    pub plugin_id: Seq<char>,
    pub entrypoint: Seq<char>,
    pub terminal_id: TerminalId,
    pub pane_id: Option<PaneId>,
    pub anchor: RegionAnchor,
    pub scope: RegionScope,
    pub title: Seq<char>,
    pub size: u16,
    pub bounds: SizeRange,
    pub visible: bool,
}

impl RegionView {
    /// Whether the size is within the region's bounds, and these within the
    /// absolute limits.
    pub open spec fn wf(self) -> bool {
        &&& self.bounds.wf()
        &&& self.bounds.min <= self.size <= self.bounds.max
    }

    /// The region with another size, moved into its bounds.
    pub open spec fn resized(self, size: u16) -> RegionView {
        RegionView { size: self.bounds.clamp(size), ..self }
    }
}

/// A region's size together with the bounds that own it.
///
/// The size is moved into the bounds whenever it is set, so it never leaves
/// them.
#[derive(Debug, Clone, Copy, PartialEq, Eq, Structural)]
pub struct RegionExtent {
    size: u16,
    bounds: RegionSizeBounds,
}

impl RegionExtent {
    #[verifier::type_invariant]
    spec fn within_bounds(self) -> bool {
        self.limits().wf() && self.limits().min <= self.cells() <= self.limits().max
    }

    /// The size.
    pub closed spec fn cells(self) -> u16 {
        self.size
    }

    /// The bounds.
    pub closed spec fn limits(self) -> SizeRange {
        self.bounds@
    }

    fn new(size: u16, bounds: RegionSizeBounds) -> (extent: RegionExtent)
        ensures
            extent.cells() == bounds@.clamp(size),
            extent.limits() == bounds@,
            bounds@.wf(),
    {
        RegionExtent { size: bounds.clamp(size), bounds }
    }
}

/// One live region: declarative state only, never a runtime handle.
#[derive(Debug, PartialEq, Eq)]
pub struct RegionInstance {
    pub region_id: RegionId,
    pub plugin_id: String,
    pub entrypoint: String,
    pub terminal_id: TerminalId,
    /// The pane that shows the region's terminal, once there is one.
    pub pane_id: Option<PaneId>,
    pub anchor: RegionAnchor,
    pub scope: RegionScope,
    pub title: String,
    /// Terminal cells along the anchored axis, columns for `right`, and their
    /// bounds.
    pub(crate) extent: RegionExtent,
    pub visible: bool,
}

impl View for RegionInstance {
    type V = RegionView;

    open(crate) spec fn view(&self) -> RegionView {
        RegionView {
            region_id: self.region_id@,
            plugin_id: self.plugin_id@,
            entrypoint: self.entrypoint@,
            terminal_id: self.terminal_id,
            pane_id: self.pane_id,
            anchor: self.anchor,
            scope: self.scope,
            title: self.title@,
            size: self.extent.cells(),
            bounds: self.extent.limits(),
            visible: self.visible,
        }
    }
}

impl RegionInstance {
    pub fn new(
        region_id: RegionId,
        plugin_id: String,
        entrypoint: String,
        terminal_id: TerminalId,
        anchor: RegionAnchor,
        scope: RegionScope,
        title: String,
        size: u16,
        bounds: RegionSizeBounds,
        visible: bool,
    ) -> (region: RegionInstance)
        ensures
            region@ == (RegionView {
                region_id: region_id@,
                plugin_id: plugin_id@,
                entrypoint: entrypoint@,
                terminal_id,
                pane_id: None,
                anchor,
                scope,
                title: title@,
                size: bounds@.clamp(size),
                bounds: bounds@,
                visible,
            }),
            region@.wf(),
    {
        RegionInstance {
            region_id,
            plugin_id,
            entrypoint,
            terminal_id,
            pane_id: None,
            anchor,
            scope,
            title,
            extent: RegionExtent::new(size, bounds),
            visible,
        }
    }

    /// The region, shown by a pane.
    pub fn in_pane(self, pane_id: PaneId) -> (region: RegionInstance)
        ensures
            region@ == (RegionView { pane_id: Some(pane_id), ..self@ }),
    {
        let mut region = self;
        region.pane_id = Some(pane_id);
        region
    }

    pub fn size(&self) -> (size: u16)
        ensures
            size == self@.size,
            self@.wf(),
    {
        proof {
            use_type_invariant(&self.extent);
        }
        self.extent.size
    }

    pub fn bounds(&self) -> (bounds: RegionSizeBounds)
        ensures
            bounds@ == self@.bounds,
    {
        self.extent.bounds
    }

    /// Set the size, clamped into this region's server-owned bounds.
    ///
    /// Returns the size actually applied, which is never the caller's value
    /// when that value falls outside the bounds.
    pub fn set_size(&mut self, size: u16) -> (applied: u16)
        ensures
            final(self)@ == old(self)@.resized(size),
            final(self)@.wf(),
            applied == final(self)@.size,
    {
        self.extent = RegionExtent::new(size, self.extent.bounds);
        self.extent.size
    }
}

impl Clone for RegionInstance {
    fn clone(&self) -> (copy: RegionInstance)
        ensures
            copy == *self,
    {
        RegionInstance {
            region_id: self.region_id.clone(),
            plugin_id: self.plugin_id.clone(),
            entrypoint: self.entrypoint.clone(),
            terminal_id: self.terminal_id,
            pane_id: self.pane_id,
            anchor: self.anchor,
            scope: self.scope,
            title: self.title.clone(),
            extent: self.extent,
            visible: self.visible,
        }
    }
}

} // verus!
