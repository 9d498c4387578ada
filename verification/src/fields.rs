//! What is told of a value in contracts is what its fields hold: nothing is left
//! out, exchanged or altered.

use vstd::prelude::*;

use crate::api::{
    check_view, info_views, report_view, ApiError, RegionInfo, Response, ResponseResult,
    ResultView,
};
use crate::app::{App, TerminalState, ToastNotification};
use crate::ids::IdCounters;
use crate::open::{env_view, RegionLaunch, RegionRequest};
use crate::opening::{projection_view, EventView, OpenEvent, OpenPhase, PhaseView, RegionOpening};
use crate::plugin::{manifest_views, InstalledPluginInfo, PluginManifestRegion};
use crate::region::RegionInstance;
use crate::restore::{
    snapshot_views, RegionSnapshot, Restore, RestoreEvent, RestoreEventView, RestorePhase,
    RestorePhaseView,
};
use crate::text::{optional_text, texts};

verus! {

/// An error is told by its code and its message.
pub proof fn an_error_is_told_as_it_is(error: ApiError)
    ensures
        error@.code == error.code@,
        error@.message == error.message@,
{
}

/// A report or a check is told as a success, or with what went wrong.
pub proof fn reports_are_told_as_they_are(
    report: Result<(), String>,
    checked: Result<(), ApiError>,
    env: Result<Vec<(String, String)>, ApiError>,
)
    ensures
        report is Ok <==> report_view(report) is Ok,
        report matches Err(message) ==> report_view(report) == Err::<(), _>(message@),
        checked is Ok <==> check_view(checked) is Ok,
        checked matches Err(error) ==> check_view(checked) == Err::<(), _>(error@),
        env matches Ok(variables) ==> projection_view(env) is Ok && projection_view(env)->Ok_0
            == env_view(variables@),
        env matches Err(error) ==> projection_view(env) is Err && projection_view(env)->Err_0
            == error@,
{
}

/// Environment variables are told one by one, in order, none left out.
pub proof fn every_variable_is_told(env: Seq<(String, String)>)
    ensures
        env_view(env).len() == env.len(),
        forall|i: int|
            0 <= i < env.len() ==> #[trigger] env_view(env)[i] == (env[i].0@, env[i].1@),
{
}

/// An entry of the API is told field by field.
pub proof fn an_entry_is_told_as_it_is(info: RegionInfo)
    ensures
        info@.region_id == info.region_id@,
        info@.plugin_id == info.plugin_id@,
        info@.entrypoint == info.entrypoint@,
        info@.title == info.title@,
        info@.anchor == info.anchor,
        info@.scope == info.scope,
        info@.size == info.size,
        info@.min_size == info.min_size,
        info@.max_size == info.max_size,
        info@.visible == info.visible,
        info@.focused == info.focused,
{
}

/// Entries are told one by one, in order, none left out.
pub proof fn every_entry_is_told(infos: Seq<RegionInfo>)
    ensures
        info_views(infos).len() == infos.len(),
        forall|i: int| 0 <= i < infos.len() ==> #[trigger] info_views(infos)[i] == infos[i]@,
{
}

/// An answer is told by the request's identifier and by what came of it.
pub proof fn an_answer_is_told_as_it_is(response: Response, result: ResponseResult)
    ensures
        response@.id == response.id@,
        response.outcome matches Ok(outcome) ==> response@.outcome is Ok
            && response@.outcome->Ok_0 == outcome@,
        response.outcome matches Err(error) ==> response@.outcome is Err
            && response@.outcome->Err_0 == error@,
        match result {
            ResponseResult::RegionOpened { region } => result@ == (ResultView::RegionOpened {
                region: region@,
            }),
            ResponseResult::RegionClosed { region_id } => result@ == (ResultView::RegionClosed {
                region_id: region_id@,
            }),
            ResponseResult::RegionFocused { region } => result@ == (ResultView::RegionFocused {
                region: region@,
            }),
            ResponseResult::RegionResized { region } => result@ == (ResultView::RegionResized {
                region: region@,
            }),
            ResponseResult::RegionList { regions } => result@ == (ResultView::RegionList {
                regions: info_views(regions@),
            }),
        },
{
}

/// A manifest entry is told field by field.
pub proof fn a_manifest_entry_is_told_as_it_is(region: PluginManifestRegion)
    ensures
        region@.id == region.id@,
        region@.title == region.title@,
        region@.command == texts(region.command@),
        region@.anchor == region.anchor,
        region@.scope == region.scope,
        region@.size == region.size,
        region@.min_size == region.min_size,
        region@.max_size == region.max_size,
        region@.platforms == texts(region.platforms@),
{
}

/// A plugin is told field by field, with every entry of its manifest in order.
pub proof fn a_plugin_is_told_as_it_is(plugin: InstalledPluginInfo)
    ensures
        plugin@.plugin_id == plugin.plugin_id@,
        plugin@.enabled == plugin.enabled,
        plugin@.platforms == texts(plugin.platforms@),
        plugin@.regions == manifest_views(plugin.regions@),
        plugin@.regions.len() == plugin.regions@.len(),
        forall|i: int|
            0 <= i < plugin.regions@.len() ==> #[trigger] plugin@.regions[i]
                == plugin.regions@[i]@,
{
}

/// A region is told field by field.
pub(crate) proof fn a_region_is_told_as_it_is(region: RegionInstance)
    ensures
        region@.region_id == region.region_id@,
        region@.plugin_id == region.plugin_id@,
        region@.entrypoint == region.entrypoint@,
        region@.terminal_id == region.terminal_id,
        region@.pane_id == region.pane_id,
        region@.anchor == region.anchor,
        region@.scope == region.scope,
        region@.title == region.title@,
        region@.size == region.extent.cells(),
        region@.bounds == region.extent.limits(),
        region@.visible == region.visible,
{
}

/// A request and a launch are told field by field.
pub proof fn a_launch_is_told_as_it_is(request: RegionRequest, launch: RegionLaunch)
    ensures
        request@.plugin_id == request.plugin_id@,
        request@.manifest == request.manifest@,
        request@.bounds == request.bounds@,
        request@.size == request.size,
        request@.focus == request.focus,
        launch@.request == launch.request@,
        launch@.pane_id == launch.pane_id,
        launch@.terminal_id == launch.terminal_id,
        launch@.rows == launch.rows,
        launch@.cols == launch.cols,
        launch@.cwd == launch.cwd@,
        launch@.env == env_view(launch.env@),
        launch@.agent_detection == launch.agent_detection,
        launch@.pane_identity == launch.pane_identity,
{
}

/// A terminal and a toast are told field by field.
pub proof fn terminals_and_toasts_are_told_as_they_are(
    terminal: TerminalState,
    toast: ToastNotification,
)
    ensures
        terminal@.cwd == terminal.cwd@,
        terminal@.launch_argv == texts(terminal.launch_argv@),
        terminal@.manual_label == optional_text(terminal.manual_label),
        toast@.kind == toast.kind,
        toast@.title == toast.title@,
        toast@.context == toast.context@,
        toast@.position == toast.position,
        toast@.target == toast.target,
{
}

/// A session is told field by field, with every terminal under its own number.
pub proof fn a_session_is_told_as_it_is(app: App)
    ensures
        app@.regions == app.regions@,
        app@.region_focus == optional_text(app.region_focus),
        forall|terminal: u64| #[trigger]
            app@.terminals.contains_key(terminal) <==> app.terminals@.contains_key(terminal),
        forall|terminal: u64| #[trigger]
            app@.terminals.contains_key(terminal) ==> app@.terminals[terminal]
                == app.terminals@[terminal]@,
        app@.resize_locks == app.direct_attach_resize_locks@,
        app@.toast is Some <==> app.toast is Some,
        app.toast matches Some(toast) ==> app@.toast == Some(toast@),
        app@.plugins == app.installed_plugins@,
        app@.config == app.regions_config,
        app@.session_dirty == app.session_dirty,
        app@.redraw == app.effects.redraw,
        app@.stopping == app.effects.stop@,
{
}

/// Counters are told one by one.
pub proof fn counters_are_told_as_they_are(ids: IdCounters)
    ensures
        ids@.region == ids.regions@,
        ids@.pane == ids.panes@,
        ids@.terminal == ids.terminals@,
{
}

/// A saved region is told field by field, and several one by one, in order, none
/// left out.
pub proof fn saved_regions_are_told_as_they_are(
    snapshot: RegionSnapshot,
    snapshots: Seq<RegionSnapshot>,
)
    ensures
        snapshot@.plugin_id == snapshot.plugin_id@,
        snapshot@.entrypoint == snapshot.entrypoint@,
        snapshot@.size == snapshot.size,
        snapshot@.visible == snapshot.visible,
        snapshot_views(snapshots).len() == snapshots.len(),
        forall|i: int|
            0 <= i < snapshots.len() ==> #[trigger] snapshot_views(snapshots)[i]
                == snapshots[i]@,
{
}

/// The phase and the event of an opening are told with what they carry.
pub proof fn an_opening_is_told_as_it_is(phase: OpenPhase, event: OpenEvent)
    ensures
        match phase {
            OpenPhase::Asked => phase@ == PhaseView::Asked,
            OpenPhase::Resolved(resolved) => phase@ == PhaseView::Resolved(
                resolved.plugin@,
                resolved.manifest@,
            ),
            OpenPhase::Admitted(request) => phase@ == PhaseView::Admitted(request@),
            OpenPhase::Launched(launch) => phase@ == PhaseView::Launched(launch@),
            OpenPhase::Answered(response) => phase@ == PhaseView::Answered(response@),
        },
        match event {
            OpenEvent::Named { refreshed, plugin_id, entrypoint } => event@ == (EventView::Named {
                refreshed: report_view(refreshed),
                plugin_id: optional_text(plugin_id),
                entrypoint: optional_text(entrypoint),
            }),
            OpenEvent::PlatformChecked(checked) => event@ == EventView::PlatformChecked(
                check_view(checked),
            ),
            OpenEvent::Prepared { rows, cwd, env } => event@ == (EventView::Prepared {
                rows,
                cwd: cwd@,
                env: projection_view(env),
            }),
            OpenEvent::Spawned(spawned) => event@ == EventView::Spawned(report_view(spawned)),
        },
{
}

/// The phase and the event of a restore are told with what they carry.
pub proof fn a_restore_is_told_as_it_is(phase: RestorePhase, event: RestoreEvent)
    ensures
        match phase {
            RestorePhase::Waiting => phase@ == RestorePhaseView::Waiting,
            RestorePhase::Admitted { request, visible } => phase@ == (RestorePhaseView::Admitted {
                request: request@,
                visible,
            }),
            RestorePhase::Launched { launch, visible } => phase@ == (RestorePhaseView::Launched {
                launch: launch@,
                visible,
            }),
            RestorePhase::Restored { region_id } => phase@ == (RestorePhaseView::Restored {
                region_id: region_id@,
            }),
            RestorePhase::Dropped { snapshot, reason } => phase@ == (RestorePhaseView::Dropped {
                snapshot: snapshot@,
                reason,
            }),
            RestorePhase::Failed { message } => phase@ == (RestorePhaseView::Failed {
                message: message@,
            }),
            RestorePhase::Done => phase@ == RestorePhaseView::Done,
        },
        match event {
            RestoreEvent::Next => event@ == RestoreEventView::Next,
            RestoreEvent::Prepared { rows, cwd, env } => event@ == (RestoreEventView::Prepared {
                rows,
                cwd: cwd@,
                env: projection_view(env),
            }),
            RestoreEvent::Spawned(spawned) => event@ == RestoreEventView::Spawned(
                report_view(spawned),
            ),
        },
{
}

/// An opening and a restore are told with all that they hold.
pub(crate) proof fn what_is_under_way_is_told_as_it_is(opening: RegionOpening, restore: Restore)
    ensures
        opening@.id == opening.id@,
        opening@.size == opening.size,
        opening@.focus == opening.focus,
        opening@.phase == opening.phase@,
        restore@.left == snapshot_views(restore.left@),
        restore@.phase == restore.phase@,
{
}

} // verus!
