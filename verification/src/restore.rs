//! Opening the regions of a saved session again.
//!
//! The host and the session take turns over one saved region after the other.
//! The phase of a restore says what the host has to do next; what came of it is
//! the event that moves the restore on.

use vstd::prelude::*;

use crate::api::{report_view, ApiError, ErrorView};
use crate::app::{App, AppView};
use crate::ids::{region_id_text, IdCounters, IdsView, RegionId};
use crate::open::{launch_region, LaunchView, RegionLaunch, RegionRequest, RequestView};
use crate::opening::{projection_message, projection_view};
use crate::plugin::declared_region;
use crate::region::{RegionSizeBounds, SizeRange};

verus! {

/// What a saved session records of one region.
#[verifier::ext_equal]
pub struct SnapshotView {
    pub plugin_id: Seq<char>,
    pub entrypoint: Seq<char>,
    pub size: u16,
    pub visible: bool,
}

/// One region of a saved session.
#[derive(Debug)]
pub struct RegionSnapshot {
    pub plugin_id: String,
    pub entrypoint: String,
    pub size: u16,
    pub visible: bool,
}

impl View for RegionSnapshot {
    type V = SnapshotView;

    open spec fn view(&self) -> SnapshotView {
        SnapshotView {
            plugin_id: self.plugin_id@,
            entrypoint: self.entrypoint@,
            size: self.size,
            visible: self.visible,
        }
    }
}

/// Why a saved region is not opened again.
#[derive(Debug, Clone, Copy, PartialEq, Eq, Structural)]
pub enum RestoreDrop {
    PluginNotInstalled,
    PluginDisabled,
    EntrypointNotDeclared,
}

impl AppView {
    /// What becomes of a saved region: a request as its manifest declares it
    /// now, with the saved size as the size asked for, or the reason to drop it.
    pub open spec fn restorable(self, snapshot: SnapshotView) -> Result<RequestView, RestoreDrop> {
        if !self.plugins.contains_key(snapshot.plugin_id) {
            Err(RestoreDrop::PluginNotInstalled)
        } else {
            let plugin = self.plugins[snapshot.plugin_id];
            if !plugin.enabled {
                Err(RestoreDrop::PluginDisabled)
            } else {
                match declared_region(plugin.regions, snapshot.entrypoint) {
                    None => Err(RestoreDrop::EntrypointNotDeclared),
                    Some(manifest) => Ok(
                        RequestView {
                            plugin_id: plugin.plugin_id,
                            manifest,
                            bounds: SizeRange::declared(manifest.min_size, manifest.max_size),
                            size: snapshot.size,
                            focus: false,
                        },
                    ),
                }
            }
        }
    }
}

impl App {
    /// Decide what becomes of a saved region.
    ///
    /// A snapshot entry whose plugin is gone, disabled, or no longer declares
    /// that entrypoint is dropped rather than resurrected, so a stale slot
    /// cannot outlive its provider.
    pub fn restore_request(&self, snapshot: &RegionSnapshot) -> (request: Result<
        RegionRequest,
        RestoreDrop,
    >)
        ensures
            match self@.restorable(snapshot@) {
                Ok(restored) => {
                    &&& request matches Ok(request)
                    &&& request@ == restored
                    &&& request.plugin_id@ == snapshot.plugin_id@
                },
                Err(reason) => request matches Err(dropped) && dropped == reason,
            },
    {
        let plugin = match self.installed_plugins.get(snapshot.plugin_id.as_str()) {
            Some(plugin) => plugin,
            None => return Err(RestoreDrop::PluginNotInstalled),
        };
        if !plugin.enabled {
            return Err(RestoreDrop::PluginDisabled);
        }
        let manifest = match plugin.region(snapshot.entrypoint.as_str()) {
            Some(manifest) => manifest.clone(),
            None => return Err(RestoreDrop::EntrypointNotDeclared),
        };
        // The manifest still owns the hard bounds; the persisted size is
        // only a request, clamped like any other.
        let bounds = RegionSizeBounds::new(manifest.min_size, manifest.max_size);
        Ok(
            RegionRequest {
                plugin_id: plugin.plugin_id.clone(),
                manifest,
                bounds,
                size: snapshot.size,
                focus: false,
            },
        )
    }
}

/// How far the restore of the saved regions has come.
#[derive(Debug)]
pub enum RestorePhase {
    /// The next saved region may be taken.
    Waiting,
    /// A region's working directory and environment are to be found.
    Admitted { request: RegionRequest, visible: bool },
    /// A region's program is to be started.
    Launched { launch: RegionLaunch, visible: bool },
    /// A region is open again, and the next one may be taken.
    Restored { region_id: RegionId },
    /// A saved region was left closed, and the next one may be taken.
    Dropped { snapshot: RegionSnapshot, reason: RestoreDrop },
    /// A saved region could not be opened, and the next one may be taken.
    Failed { message: String },
    /// No saved region is left.
    Done,
}

/// What a phase is.
pub enum RestorePhaseView {
    Waiting,
    Admitted { request: RequestView, visible: bool },
    Launched { launch: LaunchView, visible: bool },
    Restored { region_id: Seq<char> },
    Dropped { snapshot: SnapshotView, reason: RestoreDrop },
    Failed { message: Seq<char> },
    Done,
}

impl View for RestorePhase {
    type V = RestorePhaseView;

    open spec fn view(&self) -> RestorePhaseView {
        match *self {
            RestorePhase::Waiting => RestorePhaseView::Waiting,
            RestorePhase::Admitted { request, visible } => RestorePhaseView::Admitted {
                request: request@,
                visible,
            },
            RestorePhase::Launched { launch, visible } => RestorePhaseView::Launched {
                launch: launch@,
                visible,
            },
            RestorePhase::Restored { region_id } => RestorePhaseView::Restored {
                region_id: region_id@,
            },
            RestorePhase::Dropped { snapshot, reason } => RestorePhaseView::Dropped {
                snapshot: snapshot@,
                reason,
            },
            RestorePhase::Failed { message } => RestorePhaseView::Failed { message: message@ },
            RestorePhase::Done => RestorePhaseView::Done,
        }
    }
}

/// What some saved regions are.
pub open spec fn snapshot_views(snapshots: Seq<RegionSnapshot>) -> Seq<SnapshotView> {
    snapshots.map_values(|snapshot: RegionSnapshot| snapshot@)
}

/// The restore of a saved session's regions.
#[derive(Debug)]
pub struct Restore {
    /// The saved regions that have not been taken yet.
    pub(crate) left: Vec<RegionSnapshot>,
    pub(crate) phase: RestorePhase,
}

/// What a restore is.
pub struct RestoreView {
    pub left: Seq<SnapshotView>,
    pub phase: RestorePhaseView,
}

impl View for Restore {
    type V = RestoreView;

    open(crate) spec fn view(&self) -> RestoreView {
        RestoreView { left: snapshot_views(self.left@), phase: self.phase@ }
    }
}

/// What the host reports.
#[derive(Debug)]
pub enum RestoreEvent {
    /// The next saved region can be taken.
    Next,
    /// The rows of a pane in the current frame, the working directory, and what
    /// the environment projection gave.
    Prepared { rows: u16, cwd: String, env: Result<Vec<(String, String)>, ApiError> },
    /// What came of starting the program.
    Spawned(Result<(), String>),
}

/// What an event is.
pub enum RestoreEventView {
    Next,
    Prepared {
        rows: u16,
        cwd: Seq<char>,
        env: Result<Seq<(Seq<char>, Seq<char>)>, ErrorView>,
    },
    Spawned(Result<(), Seq<char>>),
}

impl View for RestoreEvent {
    type V = RestoreEventView;

    open spec fn view(&self) -> RestoreEventView {
        match *self {
            RestoreEvent::Next => RestoreEventView::Next,
            RestoreEvent::Prepared { rows, cwd, env } => RestoreEventView::Prepared {
                rows,
                cwd: cwd@,
                env: projection_view(env),
            },
            RestoreEvent::Spawned(spawned) => RestoreEventView::Spawned(report_view(spawned)),
        }
    }
}

impl RestorePhaseView {
    /// Whether the next saved region may be taken.
    pub open spec fn is_ready(self) -> bool {
        ||| self is Waiting
        ||| self is Restored
        ||| self is Dropped
        ||| self is Failed
    }
}

impl RestoreView {
    /// The restore in another phase.
    pub open spec fn in_phase(self, phase: RestorePhaseView) -> RestoreView {
        RestoreView { phase, ..self }
    }
}

impl AppView {
    /// The restore after its next saved region is taken and decided on.
    pub open spec fn taken(self, restore: RestoreView) -> RestoreView {
        if restore.left.len() == 0 {
            restore.in_phase(RestorePhaseView::Done)
        } else {
            let snapshot = restore.left[0];
            RestoreView {
                left: restore.left.drop_first(),
                phase: match self.restorable(snapshot) {
                    Ok(request) => RestorePhaseView::Admitted {
                        request,
                        visible: snapshot.visible,
                    },
                    Err(reason) => RestorePhaseView::Dropped { snapshot, reason },
                },
            }
        }
    }

    /// The session, the counters and the restore after an event. `region_id` is
    /// the identifier that a region is opened under. An event that the phase
    /// does not wait for changes nothing.
    pub open spec fn restore_step(
        self,
        ids: IdsView,
        restore: RestoreView,
        event: RestoreEventView,
        region_id: Seq<char>,
    ) -> (AppView, IdsView, RestoreView) {
        match (restore.phase, event) {
            (phase, RestoreEventView::Next) if phase.is_ready() => (self, ids, self.taken(restore)),
            (
                RestorePhaseView::Admitted { request, visible },
                RestoreEventView::Prepared { rows, cwd, env },
            ) => match env {
                Ok(env) => (
                    self,
                    ids.launching(),
                    restore.in_phase(
                        RestorePhaseView::Launched {
                            launch: LaunchView::prepared(ids, request, rows, cwd, env),
                            visible,
                        },
                    ),
                ),
                Err(error) => (
                    self,
                    ids,
                    restore.in_phase(
                        RestorePhaseView::Failed { message: projection_message(error) },
                    ),
                ),
            },
            (
                RestorePhaseView::Launched { launch, visible },
                RestoreEventView::Spawned(spawned),
            ) => match spawned {
                Ok(_) => {
                    let after = self.placed(launch, region_id);
                    if self.regions.contains_key(launch.request.manifest.anchor) {
                        (
                            after,
                            ids.identified(),
                            restore.in_phase(
                                RestorePhaseView::Failed { message: "region slot occupied"@ },
                            ),
                        )
                    } else {
                        (
                            after.with_visibility(region_id, visible),
                            ids.identified(),
                            restore.in_phase(RestorePhaseView::Restored { region_id }),
                        )
                    }
                },
                Err(message) => (
                    self,
                    ids,
                    restore.in_phase(RestorePhaseView::Failed { message }),
                ),
            },
            _ => (self, ids, restore),
        }
    }
}

impl Restore {
    pub fn new(snapshots: Vec<RegionSnapshot>) -> (restore: Restore)
        ensures
            restore@ == (RestoreView {
                left: snapshot_views(snapshots@),
                phase: RestorePhaseView::Waiting,
            }),
    {
        Restore { left: snapshots, phase: RestorePhase::Waiting }
    }

    /// How far the restore has come, and so what the host has to do next.
    pub fn phase(&self) -> (phase: &RestorePhase)
        ensures
            phase@ == self@.phase,
    {
        &self.phase
    }
}

impl App {
    fn take_snapshot(&self, left: Vec<RegionSnapshot>) -> (taken: Restore)
        ensures
            taken@ == self@.taken(
                RestoreView { left: snapshot_views(left@), phase: RestorePhaseView::Waiting },
            ),
    {
        let mut left = left;
        if left.len() == 0 {
            return Restore { left, phase: RestorePhase::Done };
        }
        let ghost all = snapshot_views(left@);
        let snapshot = left.remove(0);
        assert(snapshot_views(left@) =~= all.drop_first());
        assert(all[0] == snapshot@);
        let phase = match self.restore_request(&snapshot) {
            Ok(request) => RestorePhase::Admitted { request, visible: snapshot.visible },
            Err(reason) => RestorePhase::Dropped { snapshot, reason },
        };
        Restore { left, phase }
    }

    /// Move the restore of the saved regions on by what the host reports.
    ///
    /// Slot, anchor, scope, size, and visibility are restored; the program is
    /// respawned like a restored pane shell, with no attempt to restore its
    /// internal state. Visibility is part of the saved slot, while opening a
    /// region applies the configured default instead.
    ///
    /// The identifier of a region that is opened rests on the clock, and is
    /// known up to its reading; nothing else does.
    pub fn restore_regions(
        &mut self,
        ids: &mut IdCounters,
        restore: Restore,
        event: RestoreEvent,
    ) -> (moved: Restore)
        ensures
            exists|micros: u128|
                (final(self)@, final(ids)@, moved@) == old(self)@.restore_step(
                    old(ids)@,
                    restore@,
                    event@,
                    #[trigger] region_id_text(micros, old(ids)@.region),
                ),
            old(self).regions.wf() ==> final(self).regions.wf(),
    {
        let Restore { left, phase } = restore;
        // Only a region that is opened takes an identifier; any text serves otherwise.
        let ghost unused_id = region_id_text(0, old(ids)@.region);
        match (phase, event) {
            (RestorePhase::Waiting, RestoreEvent::Next) => self.take_snapshot(left),
            (RestorePhase::Restored { .. }, RestoreEvent::Next) => self.take_snapshot(left),
            (RestorePhase::Dropped { .. }, RestoreEvent::Next) => self.take_snapshot(left),
            (RestorePhase::Failed { .. }, RestoreEvent::Next) => self.take_snapshot(left),
            (
                RestorePhase::Admitted { request, visible },
                RestoreEvent::Prepared { rows, cwd, env },
            ) => {
                let phase = match launch_region(ids, request, rows, cwd, env) {
                    Ok(launch) => RestorePhase::Launched { launch, visible },
                    Err(message) => RestorePhase::Failed { message },
                };
                Restore { left, phase }
            },
            (RestorePhase::Launched { launch, visible }, RestoreEvent::Spawned(spawned)) => {
                let phase = match self.attach_region(ids, launch, spawned) {
                    Ok(region_id) => {
                        self.set_region_visible(region_id.as_str(), visible);
                        RestorePhase::Restored { region_id }
                    },
                    Err(message) => RestorePhase::Failed { message },
                };
                Restore { left, phase }
            },
            (phase, _) => Restore { left, phase },
        }
    }
}

} // verus!
