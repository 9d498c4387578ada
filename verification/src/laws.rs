//! What holds of a session as a whole, whatever is asked of it.

use vstd::prelude::*;

use crate::api::{info_of, preferred_size, success, ErrorView, ResponseView, ResultView};
use crate::app::{AppView, TerminalView};
use crate::geometry::{clamping_settles, region_layout, Rect};
use crate::ids::{IdsView, PaneId, TerminalId};
use crate::open::{LaunchView, RequestView};
use crate::opening::{EventView, OpeningView, PhaseView};
use crate::plugin::{only_declared_regions_are_found, ManifestView, PluginView};
use crate::region::{RegionAnchor, RegionView, SizeRange};
use crate::restore::{
    RestoreDrop, RestoreEventView, RestorePhaseView, RestoreView, SnapshotView,
};
use crate::state::{
    a_search_gives_the_first_match, first_picked, in_pane, lemma_picked_are_held, of_plugin, picked,
    releasing_undoes_claiming, shown_size_of, with_id, without, Slots,
};

verus! {

impl AppView {
    /// Whether every region stands in the slot of its own anchor, with a size
    /// within its bounds.
    pub open spec fn regions_are_proper(self) -> bool {
        forall|anchor: RegionAnchor| #[trigger]
            self.regions.contains_key(anchor) ==> self.regions[anchor].wf()
                && self.regions[anchor].anchor == anchor
    }

    /// Whether keyboard focus is on an open and visible region, or on none.
    pub open spec fn focus_is_proper(self) -> bool {
        self.region_focus matches Some(region_id) ==> exists|anchor: RegionAnchor|
            {
                &&& #[trigger] self.regions.contains_key(anchor)
                &&& self.regions[anchor].region_id == region_id
                &&& self.regions[anchor].visible
            }
    }

    /// Whether every region has a terminal of its own.
    pub open spec fn terminals_are_proper(self) -> bool {
        &&& forall|anchor: RegionAnchor| #[trigger]
            self.regions.contains_key(anchor) ==> self.terminals.contains_key(
                self.regions[anchor].terminal_id.0,
            )
        &&& forall|a: RegionAnchor, b: RegionAnchor|
            #![trigger self.regions.contains_key(a), self.regions.contains_key(b)]
            self.regions.contains_key(a) && self.regions.contains_key(b) && a != b
                ==> self.regions[a].terminal_id != self.regions[b].terminal_id
    }

    /// Whether the terminals were numbered before the counters stood where they
    /// stand, so that the next terminal will be a new one.
    pub open spec fn precedes(self, ids: IdsView) -> bool {
        forall|terminal: u64| #[trigger]
            self.terminals.contains_key(terminal) ==> terminal < ids.terminal
    }

    /// Whether regions, focus and terminals are proper.
    pub open spec fn wf(self) -> bool {
        &&& self.regions_are_proper()
        &&& self.focus_is_proper()
        &&& self.terminals_are_proper()
    }

    /// Whether a launch has proper bounds and a terminal that is its own.
    pub open spec fn has_launched(self, launch: LaunchView) -> bool {
        &&& launch.request.bounds.wf()
        &&& !self.terminals.contains_key(launch.terminal_id.0)
    }

    /// Whether no open region has an identifier.
    pub open spec fn is_unused(self, region_id: Seq<char>) -> bool {
        forall|anchor: RegionAnchor| #[trigger]
            self.regions.contains_key(anchor) ==> self.regions[anchor].region_id != region_id
    }
}

/// Closing a region by its identifier keeps the session proper.
pub proof fn closing_keeps_the_session_proper(app: AppView, region_id: Seq<char>)
    requires
        app.wf(),
    ensures
        app.closed_by_id(region_id).wf(),
{
    a_search_gives_the_first_match(app.regions, with_id(region_id));
}

/// Closing a plugin's regions keeps the session proper and leaves the plugin
/// none, while the regions of other plugins stay as they are.
pub proof fn closing_a_plugin_takes_only_its_regions(app: AppView, plugin_id: Seq<char>)
    requires
        app.wf(),
    ensures
        ({
            let after = app.closed_for_plugin(plugin_id);
            &&& after.wf()
            &&& forall|anchor: RegionAnchor| #[trigger]
                after.regions.contains_key(anchor) <==> app.regions.contains_key(anchor)
                    && app.regions[anchor].plugin_id != plugin_id
            &&& forall|anchor: RegionAnchor| #[trigger]
                after.regions.contains_key(anchor) ==> after.regions[anchor] == app.regions[anchor]
        }),
{
    let pick = of_plugin(plugin_id);
    let anchors = picked(app.regions, pick);
    let gone = app.regions_of(plugin_id);
    lemma_picked_are_held(app.regions, pick);
    assert forall|anchor: RegionAnchor|
        app.regions.contains_key(anchor) && app.regions[anchor].plugin_id
            == plugin_id implies gone.contains(app.regions[anchor]) by {
        assert(pick(app.regions[anchor]));
        assert(anchors.contains(anchor));
        let i = choose|i: int| 0 <= i < anchors.len() && anchors[i] == anchor;
        assert(gone[i] == app.regions[anchor]);
    }
    assert forall|i: int|
        #![trigger gone[i]]
        0 <= i < gone.len() implies (exists|anchor: RegionAnchor| #[trigger]
        app.regions.contains_key(anchor) && app.regions[anchor] == gone[i]
            && app.regions[anchor].plugin_id == plugin_id) by {
        assert(app.regions.contains_key(anchors[i]));
        assert(pick(app.regions[anchors[i]]));
        assert(gone[i] == app.regions[anchors[i]]);
    }
    let left = AppView { regions: without(app.regions, pick), ..app };
    let after = left.all_released(gone);
    lemma_released_regions(left, gone);
    if gone.len() > 0 {
        assert forall|anchor: RegionAnchor|
            after.regions.contains_key(anchor) implies after.terminals.contains_key(
            after.regions[anchor].terminal_id.0,
        ) by {
            assert(app.regions.contains_key(anchor));
            if exists|i: int|
                0 <= i < gone.len() && (#[trigger] gone[i]).terminal_id
                    == app.regions[anchor].terminal_id {
                let i = choose|i: int|
                    0 <= i < gone.len() && (#[trigger] gone[i]).terminal_id
                        == app.regions[anchor].terminal_id;
                let other = choose|other: RegionAnchor| #[trigger]
                    app.regions.contains_key(other) && app.regions[other] == gone[i]
                        && app.regions[other].plugin_id == plugin_id;
                assert(app.regions.contains_key(other));
                assert(false);
            }
        }
        if after.region_focus is Some {
            let focus = after.region_focus->0;
            let anchor = choose|anchor: RegionAnchor|
                {
                    &&& #[trigger] app.regions.contains_key(anchor)
                    &&& app.regions[anchor].region_id == focus
                    &&& app.regions[anchor].visible
                };
            if app.regions[anchor].plugin_id == plugin_id {
                let i = choose|i: int| 0 <= i < gone.len() && gone[i] == app.regions[anchor];
                assert(gone[i].region_id == focus);
                assert(false);
            }
            assert(after.regions.contains_key(anchor));
        }
    } else {
        assert forall|anchor: RegionAnchor| #[trigger] app.regions.contains_key(anchor) implies
            app.regions[anchor].plugin_id != plugin_id by {
            if app.regions[anchor].plugin_id == plugin_id {
                assert(gone.contains(app.regions[anchor]));
            }
        }
    }
}

/// What releasing several regions leaves.
proof fn lemma_released_regions(app: AppView, gone: Seq<RegionView>)
    ensures
        ({
            let after = app.all_released(gone);
            &&& after.regions == app.regions
            &&& forall|terminal: u64| #[trigger]
                after.terminals.contains_key(terminal) ==> app.terminals.contains_key(terminal)
            &&& after.region_focus is Some ==> after.region_focus == app.region_focus
            &&& forall|i: int|
                0 <= i < gone.len() ==> after.region_focus != Some((#[trigger] gone[i]).region_id)
            &&& forall|terminal: u64|
                app.terminals.contains_key(terminal) && !(exists|i: int|
                    0 <= i < gone.len() && (#[trigger] gone[i]).terminal_id.0 == terminal)
                    ==> #[trigger] after.terminals.contains_key(terminal)
        }),
    decreases gone.len(),
{
    if gone.len() > 0 {
        let rest = gone.drop_last();
        lemma_released_regions(app, rest);
        let before = app.all_released(rest);
        let after = app.all_released(gone);
        assert forall|i: int| 0 <= i < gone.len() implies after.region_focus != Some(
            (#[trigger] gone[i]).region_id,
        ) by {
            if i < rest.len() {
                assert(rest[i] == gone[i]);
            }
        }
        assert forall|terminal: u64|
            app.terminals.contains_key(terminal) && !(exists|i: int|
                0 <= i < gone.len() && (#[trigger] gone[i]).terminal_id.0
                    == terminal) implies #[trigger] after.terminals.contains_key(terminal) by {
            if exists|i: int| 0 <= i < rest.len() && (#[trigger] rest[i]).terminal_id.0 == terminal {
                let i = choose|i: int|
                    0 <= i < rest.len() && (#[trigger] rest[i]).terminal_id.0 == terminal;
                assert(gone[i].terminal_id.0 == terminal);
            }
            assert(before.terminals.contains_key(terminal));
            assert(gone[gone.len() - 1].terminal_id.0 != terminal);
        }
    }
}

/// The end of a pane's program keeps the session proper, and closes the region
/// that the pane showed. A pane that showed none changes nothing.
pub proof fn the_end_of_a_program_closes_its_region(
    app: AppView,
    pane_id: PaneId,
    exit_code: Option<i32>,
)
    requires
        app.wf(),
    ensures
        ({
            let after = app.pane_exited(pane_id, exit_code);
            &&& after.wf()
            &&& match first_picked(app.regions, in_pane(pane_id)) {
                Some(anchor) => exists|closed: RegionAnchor|
                    {
                        &&& #[trigger] app.regions.contains_key(closed)
                        &&& app.regions[closed].region_id == app.regions[anchor].region_id
                        &&& after.regions == app.regions.remove(closed)
                    },
                None => after == app,
            }
        }),
{
    a_search_gives_the_first_match(app.regions, in_pane(pane_id));
    match first_picked(app.regions, in_pane(pane_id)) {
        Some(anchor) => {
            let region_id = app.regions[anchor].region_id;
            closing_keeps_the_session_proper(app, region_id);
            a_search_gives_the_first_match(app.regions, with_id(region_id));
            assert((with_id(region_id))(app.regions[anchor]));
        },
        None => {},
    }
}

/// A request to focus a region keeps the session proper. It is refused unless
/// the region is open and visible, and a refusal changes nothing.
pub proof fn focus_goes_only_to_a_visible_region(
    app: AppView,
    id: Seq<char>,
    region_id: Seq<char>,
)
    requires
        app.wf(),
    ensures
        ({
            let (after, response) = app.focus_answer(id, region_id);
            &&& after.wf()
            &&& after.regions == app.regions
            &&& response.outcome is Err ==> after == app
            &&& response.outcome is Ok ==> after.region_focus == Some(region_id)
        }),
{
    a_search_gives_the_first_match(app.regions, with_id(region_id));
}

/// A request to resize a region keeps the session proper: the size it answers
/// is within the region's bounds, and is the size asked for where that is. A
/// refusal changes nothing.
pub proof fn resizing_stays_within_the_bounds(
    app: AppView,
    id: Seq<char>,
    region_id: Seq<char>,
    size: u16,
)
    requires
        app.wf(),
    ensures
        ({
            let (after, response) = app.resize_answer(id, region_id, size);
            &&& after.wf()
            &&& response.outcome is Err ==> after == app
            &&& response.outcome matches Ok(ResultView::RegionResized { region }) ==> {
                &&& region.min_size <= region.size <= region.max_size
                &&& region.min_size <= size <= region.max_size ==> region.size == size
            }
        }),
{
    a_search_gives_the_first_match(app.regions, with_id(region_id));
    let (after, response) = app.resize_answer(id, region_id, size);
    if app.region_focus is Some {
        let anchor = choose|anchor: RegionAnchor|
            {
                &&& #[trigger] app.regions.contains_key(anchor)
                &&& app.regions[anchor].region_id == app.region_focus->0
                &&& app.regions[anchor].visible
            };
        assert(after.regions.contains_key(anchor));
    }
}

/// A refused request to close a region changes nothing.
pub proof fn closing_what_is_not_open_changes_nothing(app: AppView, region_id: Seq<char>)
    requires
        app.is_unused(region_id),
    ensures
        app.closed_by_id(region_id) == app,
{
    a_search_gives_the_first_match(app.regions, with_id(region_id));
}

/// Giving a launched program its region keeps the session proper.
pub proof fn opening_keeps_the_session_proper(
    app: AppView,
    launch: LaunchView,
    region_id: Seq<char>,
)
    requires
        app.wf(),
        app.has_launched(launch),
    ensures
        app.placed(launch, region_id).wf(),
{
    let after = app.placed(launch, region_id);
    let anchor = launch.request.manifest.anchor;
    clamping_settles(
        launch.request.size,
        launch.request.bounds.min,
        launch.request.bounds.max,
    );
    if !app.regions.contains_key(anchor) {
        assert(after.regions.contains_key(anchor));
        if app.region_focus is Some && !(launch.request.focus && app.shows_new_regions()) {
            let holder = choose|holder: RegionAnchor|
                {
                    &&& #[trigger] app.regions.contains_key(holder)
                    &&& app.regions[holder].region_id == app.region_focus->0
                    &&& app.regions[holder].visible
                };
            assert(after.regions.contains_key(holder));
        }
    }
}

/// A program that finds its slot taken leaves no trace: regions, focus and
/// terminals stay as they were, and the program is to be stopped.
pub proof fn a_taken_slot_is_never_replaced(
    app: AppView,
    launch: LaunchView,
    region_id: Seq<char>,
)
    requires
        app.regions.contains_key(launch.request.manifest.anchor),
        !app.terminals.contains_key(launch.terminal_id.0),
    ensures
        app.placed(launch, region_id) == (AppView {
            stopping: app.stopping.push(launch.terminal_id),
            ..app
        }),
{
    assert(app.terminals.remove(launch.terminal_id.0) =~= app.terminals);
}

/// An opened region is found under its identifier and answered as opened, with
/// a size within its bounds, focused only where that was asked for and the
/// region is shown.
pub proof fn an_opened_region_is_answered(
    app: AppView,
    launch: LaunchView,
    region_id: Seq<char>,
    id: Seq<char>,
)
    requires
        app.wf(),
        launch.request.bounds.wf(),
        !app.regions.contains_key(launch.request.manifest.anchor),
    ensures
        ({
            let after = app.placed(launch, region_id);
            let region = launch.region(region_id, app.shows_new_regions());
            let info = info_of(region, after.region_focus);
            &&& after.open_answer(id, Ok(region_id)) == success(
                id,
                ResultView::RegionOpened { region: info },
            )
            &&& info.min_size <= info.size <= info.max_size
            &&& info.focused == (launch.request.focus && info.visible)
        }),
{
    let after = app.placed(launch, region_id);
    let region = launch.region(region_id, app.shows_new_regions());
    releasing_undoes_claiming(app.regions, region);
    clamping_settles(
        launch.request.size,
        launch.request.bounds.min,
        launch.request.bounds.max,
    );
}

/// Closing a region undoes opening it: the slot is free again, its terminal is
/// gone, focus is not on it, its program is to be stopped, and nothing else
/// about regions and terminals has changed.
pub proof fn closing_undoes_opening(
    app: AppView,
    ids: IdsView,
    request: RequestView,
    rows: u16,
    cwd: Seq<char>,
    env: Seq<(Seq<char>, Seq<char>)>,
    region_id: Seq<char>,
)
    requires
        app.wf(),
        app.precedes(ids),
        !app.regions.contains_key(request.manifest.anchor),
    ensures
        ({
            let launch = LaunchView::prepared(ids, request, rows, cwd, env);
            let opened = app.placed(launch, region_id);
            let closed = opened.closed_by_id(region_id);
            &&& closed.regions == app.regions
            &&& closed.terminals == app.terminals
            &&& closed.region_focus == if request.focus && app.shows_new_regions() {
                None
            } else {
                app.region_focus
            }
            &&& closed.stopping == app.stopping.push(launch.terminal_id)
            &&& closed.resize_locks == app.resize_locks.remove(launch.terminal_id.0)
            &&& closed.toast == app.toast
        }),
{
    let launch = LaunchView::prepared(ids, request, rows, cwd, env);
    let opened = app.placed(launch, region_id);
    let region = launch.region(region_id, app.shows_new_regions());
    releasing_undoes_claiming(app.regions, region);
    let closed = opened.closed_by_id(region_id);
    assert(closed.terminals =~= app.terminals);
}

/// A request is resolved only to a region that an enabled plugin declares under
/// the entrypoint asked for.
pub proof fn only_declared_regions_are_resolved(
    app: AppView,
    plugin_id: Option<Seq<char>>,
    entrypoint: Option<Seq<char>>,
    plugin: PluginView,
    manifest: ManifestView,
)
    requires
        app.resolved(Ok(()), plugin_id, entrypoint) == Ok::<_, ErrorView>((plugin, manifest)),
    ensures
        plugin_id is Some,
        app.plugins.contains_key(plugin_id->0),
        app.plugins[plugin_id->0] == plugin,
        plugin.enabled,
        plugin.regions.contains(manifest),
        entrypoint == Some(manifest.id),
{
    only_declared_regions_are_found(plugin.regions, entrypoint->0);
}

/// An admitted request finds its slot free, has bounds within the absolute
/// limits, and takes its size from the request, then from user configuration,
/// then from the manifest, then from the default.
pub proof fn an_admitted_request_is_bounded(
    app: AppView,
    plugin: PluginView,
    manifest: ManifestView,
    platform: Result<(), ErrorView>,
    size: Option<u16>,
    focus: bool,
    request: RequestView,
)
    requires
        app.admitted(plugin, manifest, platform, size, focus) == Ok::<_, ErrorView>(request),
    ensures
        app.config.right.enabled,
        !app.regions.contains_key(manifest.anchor),
        request.manifest == manifest,
        request.bounds.wf(),
        request.size == preferred_size(size, app.config.right.size, manifest.size),
{
    declared_bounds_are_proper(manifest.min_size, manifest.max_size);
}

/// No declared limits, however wide or inverted, give bounds that are empty or
/// leave the absolute limits.
pub proof fn declared_bounds_are_proper(min: Option<u16>, max: Option<u16>)
    ensures
        SizeRange::declared(min, max).wf(),
{
}

/// A saved region is opened again only as an enabled plugin declares it now,
/// with bounds from the manifest, and never asks for focus.
pub proof fn only_declared_regions_are_restored(app: AppView, snapshot: SnapshotView)
    ensures
        match app.restorable(snapshot) {
            Ok(request) => {
                &&& app.plugins.contains_key(snapshot.plugin_id)
                &&& app.plugins[snapshot.plugin_id].enabled
                &&& app.plugins[snapshot.plugin_id].regions.contains(request.manifest)
                &&& request.manifest.id == snapshot.entrypoint
                &&& request.bounds.wf()
                &&& !request.focus
            },
            Err(RestoreDrop::PluginNotInstalled) => !app.plugins.contains_key(snapshot.plugin_id),
            Err(RestoreDrop::PluginDisabled) => !app.plugins[snapshot.plugin_id].enabled,
            Err(RestoreDrop::EntrypointNotDeclared) => forall|i: int|
                0 <= i < app.plugins[snapshot.plugin_id].regions.len() ==> (
                #[trigger] app.plugins[snapshot.plugin_id].regions[i]).id != snapshot.entrypoint,
        },
{
    only_declared_regions_are_found(
        app.plugins[snapshot.plugin_id].regions,
        snapshot.entrypoint,
    );
}

/// A restored region gets its saved visibility and its saved size as far as the
/// bounds admit it, takes no focus, and keeps the session proper.
pub proof fn a_restored_region_is_as_saved(
    app: AppView,
    ids: IdsView,
    snapshot: SnapshotView,
    rows: u16,
    cwd: Seq<char>,
    env: Seq<(Seq<char>, Seq<char>)>,
    region_id: Seq<char>,
)
    requires
        app.wf(),
        app.precedes(ids),
        app.restorable(snapshot) is Ok,
        !app.regions.contains_key(app.restorable(snapshot)->Ok_0.manifest.anchor),
    ensures
        ({
            let request = app.restorable(snapshot)->Ok_0;
            let anchor = request.manifest.anchor;
            let launch = LaunchView::prepared(ids, request, rows, cwd, env);
            let after = app.placed(launch, region_id).with_visibility(
                region_id,
                snapshot.visible,
            );
            &&& after.wf()
            &&& after.regions == app.regions.insert(anchor, after.regions[anchor])
            &&& after.regions[anchor].region_id == region_id
            &&& after.regions[anchor].visible == snapshot.visible
            &&& after.regions[anchor].size == request.bounds.clamp(snapshot.size)
            &&& after.region_focus == app.region_focus
        }),
{
    let request = app.restorable(snapshot)->Ok_0;
    only_declared_regions_are_restored(app, snapshot);
    showing_or_hiding_a_new_region_keeps_the_session_proper(
        app,
        LaunchView::prepared(ids, request, rows, cwd, env),
        region_id,
        snapshot.visible,
    );
}

impl AppView {
    /// Whether what an opening holds is proper for the session.
    pub open spec fn holds_opening(self, ids: IdsView, opening: OpeningView) -> bool {
        match opening.phase {
            PhaseView::Admitted(request) => request.bounds.wf(),
            PhaseView::Launched(launch) => self.has_launched(launch) && launch.terminal_id.0
                < ids.terminal,
            _ => true,
        }
    }

    /// Whether what a restore holds is proper for the session.
    pub open spec fn holds_restore(self, ids: IdsView, restore: RestoreView) -> bool {
        match restore.phase {
            RestorePhaseView::Admitted { request, visible } => request.bounds.wf()
                && !request.focus,
            RestorePhaseView::Launched { launch, visible } => self.has_launched(launch)
                && launch.terminal_id.0 < ids.terminal && !launch.request.focus,
            _ => true,
        }
    }

    /// Whether an opening and a restore may go on: what they hold is proper, and
    /// the next terminal will be a new one.
    pub open spec fn is_ready_for(
        self,
        ids: IdsView,
        opening: OpeningView,
        restore: RestoreView,
    ) -> bool {
        &&& self.precedes(ids)
        &&& self.holds_opening(ids, opening)
        &&& self.holds_restore(ids, restore)
    }
}

/// Whether two programs, where both are running, have different terminals.
pub open spec fn are_apart(one: Option<TerminalId>, two: Option<TerminalId>) -> bool {
    one is Some && two is Some ==> one != two
}

impl OpeningView {
    /// The terminal of a launched program that has no region yet.
    pub open spec fn terminal(self) -> Option<TerminalId> {
        match self.phase {
            PhaseView::Launched(launch) => Some(launch.terminal_id),
            _ => None,
        }
    }

    /// Whether the phase waits for an event of this kind.
    pub open spec fn awaits(self, event: EventView) -> bool {
        match self.phase {
            PhaseView::Asked => event is Named,
            PhaseView::Resolved(..) => event is PlatformChecked,
            PhaseView::Admitted(_) => event is Prepared,
            PhaseView::Launched(_) => event is Spawned,
            PhaseView::Answered(_) => false,
        }
    }

    /// How many events an opening still waits for at most.
    pub open spec fn events_left(self) -> nat {
        match self.phase {
            PhaseView::Asked => 4,
            PhaseView::Resolved(..) => 3,
            PhaseView::Admitted(_) => 2,
            PhaseView::Launched(_) => 1,
            PhaseView::Answered(_) => 0,
        }
    }
}

impl RestoreView {
    /// The terminal of a launched program that has no region yet.
    pub open spec fn terminal(self) -> Option<TerminalId> {
        match self.phase {
            RestorePhaseView::Launched { launch, visible } => Some(launch.terminal_id),
            _ => None,
        }
    }

    /// Whether the phase waits for an event of this kind.
    pub open spec fn awaits(self, event: RestoreEventView) -> bool {
        match self.phase {
            RestorePhaseView::Admitted { .. } => event is Prepared,
            RestorePhaseView::Launched { .. } => event is Spawned,
            RestorePhaseView::Done => false,
            _ => event is Next,
        }
    }

    /// How many events a restore still waits for at most.
    pub open spec fn events_left(self) -> nat {
        3 * self.left.len() + match self.phase {
            RestorePhaseView::Admitted { .. } => 3nat,
            RestorePhaseView::Launched { .. } => 2nat,
            RestorePhaseView::Done => 0nat,
            _ => 1nat,
        }
    }
}

/// Every step of an opening keeps the session proper.
pub proof fn every_opening_step_keeps_the_session_proper(
    app: AppView,
    ids: IdsView,
    opening: OpeningView,
    event: EventView,
    region_id: Seq<char>,
)
    requires
        app.wf(),
        app.holds_opening(ids, opening),
        app.precedes(ids),
        ids.terminal < u64::MAX,
    ensures
        ({
            let (after, counted, moved) = app.opening_step(ids, opening, event, region_id);
            after.wf() && after.precedes(counted) && after.holds_opening(counted, moved)
        }),
{
    if let (PhaseView::Launched(launch), EventView::Spawned(_)) = (opening.phase, event) {
        opening_keeps_the_session_proper(app, launch, region_id);
    }
    if let (PhaseView::Resolved(plugin, manifest), EventView::PlatformChecked(_)) = (
        opening.phase,
        event,
    ) {
        declared_bounds_are_proper(manifest.min_size, manifest.max_size);
    }
}

/// Sessions that draw from the same counters share no terminal: what one of
/// them launches for a request is no other's, and leaves the others' terminals
/// behind the counters and what they hold proper.
pub proof fn an_opening_takes_no_terminal_of_another_session(
    app: AppView,
    other: AppView,
    ids: IdsView,
    opening: OpeningView,
    event: EventView,
    region_id: Seq<char>,
    their_opening: OpeningView,
    their_restore: RestoreView,
)
    requires
        other.precedes(ids),
        ids.terminal < u64::MAX,
    ensures
        ({
            let (after, counted, moved) = app.opening_step(ids, opening, event, region_id);
            &&& other.precedes(counted)
            &&& other.holds_opening(ids, their_opening) ==> {
                &&& other.holds_opening(counted, their_opening)
                &&& opening.phase !is Launched ==> are_apart(
                    moved.terminal(),
                    their_opening.terminal(),
                )
            }
            &&& other.holds_restore(ids, their_restore) ==> {
                &&& other.holds_restore(counted, their_restore)
                &&& opening.phase !is Launched ==> are_apart(
                    moved.terminal(),
                    their_restore.terminal(),
                )
            }
            &&& opening.phase !is Launched ==> (moved.phase matches PhaseView::Launched(launch)
                ==> !other.terminals.contains_key(launch.terminal_id.0))
        }),
{
}

/// An opening moves towards its answer by every event that it waits for, and
/// by no other. So each request gets one answer, after four events at most.
pub proof fn every_opening_is_answered(
    app: AppView,
    ids: IdsView,
    opening: OpeningView,
    event: EventView,
    region_id: Seq<char>,
)
    ensures
        ({
            let (after, counted, moved) = app.opening_step(ids, opening, event, region_id);
            &&& moved.id == opening.id
            &&& opening.awaits(event) ==> moved.events_left() < opening.events_left()
            &&& !opening.awaits(event) ==> after == app && counted == ids
                && moved == opening
            &&& moved.events_left() == 0 <==> moved.phase is Answered
            &&& opening.phase !is Answered ==> (moved.phase matches PhaseView::Answered(response)
                ==> response.id == opening.id)
        }),
{
}

/// A refused request to open a region changes nothing, unless its program was
/// already running: that finds its slot taken and is to be stopped.
pub proof fn a_refused_opening_changes_nothing(
    app: AppView,
    ids: IdsView,
    opening: OpeningView,
    event: EventView,
    region_id: Seq<char>,
    response: ResponseView,
)
    requires
        app.holds_opening(ids, opening),
        app.opening_step(ids, opening, event, region_id).2.phase == PhaseView::Answered(response),
        response.outcome is Err,
    ensures
        ({
            let after = app.opening_step(ids, opening, event, region_id).0;
            ||| after == app
            ||| {
                &&& opening.phase matches PhaseView::Launched(launch)
                &&& app.regions.contains_key(launch.request.manifest.anchor)
                &&& after == (AppView {
                    stopping: app.stopping.push(launch.terminal_id),
                    ..app
                })
            }
        }),
{
    if let (PhaseView::Launched(launch), EventView::Spawned(Ok(_))) = (opening.phase, event) {
        if app.regions.contains_key(launch.request.manifest.anchor) {
            a_taken_slot_is_never_replaced(app, launch, region_id);
        } else {
            let after = app.placed(launch, region_id);
            let anchor = launch.request.manifest.anchor;
            a_search_gives_the_first_match(after.regions, with_id(region_id));
            assert(after.regions.contains_key(anchor));
            assert((with_id(region_id))(after.regions[anchor]));
        }
    }
}

/// Every step of a restore keeps the session proper and takes no focus.
pub proof fn every_restore_step_keeps_the_session_proper(
    app: AppView,
    ids: IdsView,
    restore: RestoreView,
    event: RestoreEventView,
    region_id: Seq<char>,
)
    requires
        app.wf(),
        app.holds_restore(ids, restore),
        app.precedes(ids),
        ids.terminal < u64::MAX,
    ensures
        ({
            let (after, counted, moved) = app.restore_step(ids, restore, event, region_id);
            &&& after.wf()
            &&& after.precedes(counted)
            &&& after.holds_restore(counted, moved)
            &&& after.region_focus == app.region_focus
        }),
{
    if event is Next && restore.left.len() > 0 {
        only_declared_regions_are_restored(app, restore.left[0]);
    }
    if let (
        RestorePhaseView::Launched { launch, visible },
        RestoreEventView::Spawned(Ok(_)),
    ) = (restore.phase, event) {
        opening_keeps_the_session_proper(app, launch, region_id);
        if !app.regions.contains_key(launch.request.manifest.anchor) {
            showing_or_hiding_a_new_region_keeps_the_session_proper(
                app,
                launch,
                region_id,
                visible,
            );
        }
    }
}

/// A region may be shown or hidden right after it was opened without focus.
pub proof fn showing_or_hiding_a_new_region_keeps_the_session_proper(
    app: AppView,
    launch: LaunchView,
    region_id: Seq<char>,
    visible: bool,
)
    requires
        app.wf(),
        app.has_launched(launch),
        !launch.request.focus,
        !app.regions.contains_key(launch.request.manifest.anchor),
    ensures
        ({
            let anchor = launch.request.manifest.anchor;
            let after = app.placed(launch, region_id).with_visibility(region_id, visible);
            &&& after.wf()
            &&& after.regions == app.regions.insert(anchor, launch.region(region_id, visible))
            &&& after.region_focus == app.region_focus
        }),
{
    let anchor = launch.request.manifest.anchor;
    let opened = app.placed(launch, region_id);
    let region = launch.region(region_id, app.shows_new_regions());
    opening_keeps_the_session_proper(app, launch, region_id);
    releasing_undoes_claiming(app.regions, region);
    let after = opened.with_visibility(region_id, visible);
    assert(after.regions.contains_key(anchor));
    assert(after.regions =~= app.regions.insert(anchor, launch.region(region_id, visible)));
    if app.region_focus is Some {
        let holder = choose|holder: RegionAnchor|
            {
                &&& #[trigger] app.regions.contains_key(holder)
                &&& app.regions[holder].region_id == app.region_focus->0
                &&& app.regions[holder].visible
            };
        assert(after.regions.contains_key(holder));
    }
}

/// Closing a region by its identifier keeps the session ready for an opening and
/// a restore that are under way.
pub proof fn closing_keeps_the_session_ready(
    app: AppView,
    ids: IdsView,
    opening: OpeningView,
    restore: RestoreView,
    region_id: Seq<char>,
)
    requires
        app.is_ready_for(ids, opening, restore),
    ensures
        app.closed_by_id(region_id).is_ready_for(ids, opening, restore),
{
}

/// Closing a plugin's regions keeps the session ready for an opening and a
/// restore that are under way.
pub proof fn closing_a_plugin_keeps_the_session_ready(
    app: AppView,
    ids: IdsView,
    opening: OpeningView,
    restore: RestoreView,
    plugin_id: Seq<char>,
)
    requires
        app.is_ready_for(ids, opening, restore),
    ensures
        app.closed_for_plugin(plugin_id).is_ready_for(ids, opening, restore),
{
    lemma_released_regions(
        AppView { regions: without(app.regions, of_plugin(plugin_id)), ..app },
        app.regions_of(plugin_id),
    );
}

/// The end of a pane's program keeps the session ready for an opening and a
/// restore that are under way.
pub proof fn the_end_of_a_program_keeps_the_session_ready(
    app: AppView,
    ids: IdsView,
    opening: OpeningView,
    restore: RestoreView,
    pane_id: PaneId,
    exit_code: Option<i32>,
)
    requires
        app.is_ready_for(ids, opening, restore),
    ensures
        app.pane_exited(pane_id, exit_code).is_ready_for(ids, opening, restore),
{
}

/// A request to focus a region keeps the session ready for an opening and a
/// restore that are under way.
pub proof fn focusing_keeps_the_session_ready(
    app: AppView,
    ids: IdsView,
    opening: OpeningView,
    restore: RestoreView,
    id: Seq<char>,
    region_id: Seq<char>,
)
    requires
        app.is_ready_for(ids, opening, restore),
    ensures
        app.focus_answer(id, region_id).0.is_ready_for(ids, opening, restore),
{
}

/// A request to resize a region keeps the session ready for an opening and a
/// restore that are under way.
pub proof fn resizing_keeps_the_session_ready(
    app: AppView,
    ids: IdsView,
    opening: OpeningView,
    restore: RestoreView,
    id: Seq<char>,
    region_id: Seq<char>,
    size: u16,
)
    requires
        app.is_ready_for(ids, opening, restore),
    ensures
        app.resize_answer(id, region_id, size).0.is_ready_for(ids, opening, restore),
{
}

/// A step of an opening keeps the session ready for another opening and a
/// restore that are under way, as long as no two of them run in one terminal,
/// and no two of them come to do so.
pub proof fn an_opening_step_keeps_the_session_ready(
    app: AppView,
    ids: IdsView,
    opening: OpeningView,
    event: EventView,
    region_id: Seq<char>,
    other: OpeningView,
    restore: RestoreView,
)
    requires
        app.is_ready_for(ids, other, restore),
        app.holds_opening(ids, opening),
        are_apart(opening.terminal(), other.terminal()),
        are_apart(opening.terminal(), restore.terminal()),
        ids.terminal < u64::MAX,
    ensures
        ({
            let (after, counted, moved) = app.opening_step(ids, opening, event, region_id);
            &&& after.is_ready_for(counted, other, restore)
            &&& are_apart(moved.terminal(), other.terminal())
            &&& are_apart(moved.terminal(), restore.terminal())
        }),
{
}

/// A step of a restore keeps the session ready for an opening and another
/// restore that are under way, as long as no two of them run in one terminal,
/// and no two of them come to do so.
pub proof fn a_restore_step_keeps_the_session_ready(
    app: AppView,
    ids: IdsView,
    restore: RestoreView,
    event: RestoreEventView,
    region_id: Seq<char>,
    opening: OpeningView,
    other: RestoreView,
)
    requires
        app.is_ready_for(ids, opening, other),
        app.holds_restore(ids, restore),
        are_apart(restore.terminal(), opening.terminal()),
        are_apart(restore.terminal(), other.terminal()),
        ids.terminal < u64::MAX,
    ensures
        ({
            let (after, counted, moved) = app.restore_step(ids, restore, event, region_id);
            &&& after.is_ready_for(counted, opening, other)
            &&& are_apart(moved.terminal(), opening.terminal())
            &&& are_apart(moved.terminal(), other.terminal())
        }),
{
}

/// Sessions that draw from the same counters share no terminal: what one of
/// them launches for a saved region is no other's, and leaves the others'
/// terminals behind the counters and what they hold proper.
pub proof fn a_restore_takes_no_terminal_of_another_session(
    app: AppView,
    other: AppView,
    ids: IdsView,
    restore: RestoreView,
    event: RestoreEventView,
    region_id: Seq<char>,
    their_opening: OpeningView,
    their_restore: RestoreView,
)
    requires
        other.precedes(ids),
        ids.terminal < u64::MAX,
    ensures
        ({
            let (after, counted, moved) = app.restore_step(ids, restore, event, region_id);
            &&& other.precedes(counted)
            &&& other.holds_opening(ids, their_opening) ==> {
                &&& other.holds_opening(counted, their_opening)
                &&& restore.phase !is Launched ==> are_apart(
                    moved.terminal(),
                    their_opening.terminal(),
                )
            }
            &&& other.holds_restore(ids, their_restore) ==> {
                &&& other.holds_restore(counted, their_restore)
                &&& restore.phase !is Launched ==> are_apart(
                    moved.terminal(),
                    their_restore.terminal(),
                )
            }
            &&& restore.phase !is Launched ==> (moved.phase matches RestorePhaseView::Launched {
                launch,
                visible,
            } ==> !other.terminals.contains_key(launch.terminal_id.0))
        }),
{
}

/// A restore moves towards its end by every event that it waits for, and by no
/// other. So it comes to the end of the saved regions.
pub proof fn every_restore_ends(
    app: AppView,
    ids: IdsView,
    restore: RestoreView,
    event: RestoreEventView,
    region_id: Seq<char>,
)
    ensures
        ({
            let (after, counted, moved) = app.restore_step(ids, restore, event, region_id);
            &&& restore.awaits(event) ==> moved.events_left() < restore.events_left()
            &&& !restore.awaits(event) ==> after == app && counted == ids
                && moved == restore
            &&& moved.events_left() == 0 ==> moved.phase is Done
        }),
{
}

/// A saved region that is dropped leaves the session as it was.
pub proof fn a_dropped_region_changes_nothing(
    app: AppView,
    ids: IdsView,
    restore: RestoreView,
    event: RestoreEventView,
    region_id: Seq<char>,
)
    requires
        restore.phase.is_ready(),
    ensures
        app.restore_step(ids, restore, event, region_id).0 == app,
{
}

/// A live region that the layout shows is drawn exactly as wide as it is.
pub proof fn a_live_region_is_drawn_at_its_size(app: AppView, frame: Rect)
    requires
        app.wf(),
        frame.wf(),
    ensures
        ({
            let size = shown_size_of(app.regions, RegionAnchor::Right);
            region_layout(frame, size).right matches Some(right) ==> size == Some(right.width)
        }),
{
    if app.regions.contains_key(RegionAnchor::Right) {
        assert(app.regions[RegionAnchor::Right].wf());
    }
}

/// A new session is proper, whatever the counters of its process have handed
/// out before.
pub proof fn a_new_session_is_proper(app: AppView, ids: IdsView)
    requires
        app.regions == Slots::empty(),
        app.terminals == Map::<u64, TerminalView>::empty(),
        app.region_focus is None,
    ensures
        app.wf(),
        app.precedes(ids),
{
}

} // verus!
