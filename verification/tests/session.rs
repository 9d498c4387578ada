//! Opening, focusing, resizing, listing, closing and restoring regions.

use std::ops::{Deref, DerefMut};

use herdr_regions::api::{
    region_info, ApiError, RegionInfo, RegionOpenParams, RegionResizeParams, RegionTarget,
    ResponseResult,
};
use herdr_regions::app::{App, RegionAnchorConfig, RegionsConfig, ToastKind};
use herdr_regions::geometry::{layout_regions, Rect};
use herdr_regions::ids::{IdCounters, PaneId, RegionId, TerminalId};
use herdr_regions::open::RegionLaunch;
use herdr_regions::opening::{OpenEvent, OpenPhase, RegionOpening};
use herdr_regions::plugin::{InstalledPluginInfo, PluginManifestRegion, PluginRegistry};
use herdr_regions::region::{
    RegionAnchor, RegionInstance, RegionScope, RegionSizeBounds,
};
use herdr_regions::restore::{
    RegionSnapshot, Restore, RestoreDrop, RestoreEvent, RestorePhase,
};

fn manifest(id: &str) -> PluginManifestRegion {
    PluginManifestRegion {
        id: id.into(),
        title: "Explorer".into(),
        command: vec!["explorer".into(), "--sidebar".into()],
        anchor: RegionAnchor::Right,
        scope: RegionScope::Session,
        size: Some(40),
        min_size: Some(18),
        max_size: Some(60),
        platforms: Vec::new(),
    }
}

fn plugin(id: &str, enabled: bool) -> InstalledPluginInfo {
    InstalledPluginInfo {
        plugin_id: id.into(),
        enabled,
        regions: vec![manifest("sidebar")],
        platforms: Vec::new(),
    }
}

/// A session with the counters that its identifiers are drawn from.
struct Session {
    app: App,
    ids: IdCounters,
}

impl Session {
    fn handle_region_open(&mut self, opening: RegionOpening, event: OpenEvent) -> RegionOpening {
        self.app.handle_region_open(&mut self.ids, opening, event)
    }

    fn restore_regions(&mut self, restore: Restore, event: RestoreEvent) -> Restore {
        self.app.restore_regions(&mut self.ids, restore, event)
    }
}

impl Deref for Session {
    type Target = App;

    fn deref(&self) -> &App {
        &self.app
    }
}

impl DerefMut for Session {
    fn deref_mut(&mut self) -> &mut App {
        &mut self.app
    }
}

fn app_with(right: RegionAnchorConfig) -> Session {
    let mut app = App::new(RegionsConfig { right });
    app.installed_plugins.insert(plugin("explorer", true));
    app.installed_plugins.insert(plugin("asleep", false));
    Session { app, ids: IdCounters::new() }
}

fn app() -> Session {
    app_with(RegionAnchorConfig { enabled: true, start_hidden: false, size: None })
}

fn asked(size: Option<u16>, focus: bool) -> RegionOpening {
    RegionOpening::new(
        "request".into(),
        &RegionOpenParams {
            plugin_id: "explorer".into(),
            entrypoint: "sidebar".into(),
            size,
            cwd: None,
            focus,
            env: Vec::new(),
        },
    )
}

fn named(plugin_id: Option<&str>, entrypoint: Option<&str>) -> OpenEvent {
    OpenEvent::Named {
        refreshed: Ok(()),
        plugin_id: plugin_id.map(String::from),
        entrypoint: entrypoint.map(String::from),
    }
}

fn prepared() -> OpenEvent {
    OpenEvent::Prepared {
        rows: 24,
        cwd: "/work".into(),
        env: Ok(vec![("TERM".into(), "xterm".into())]),
    }
}

fn error_of(opening: RegionOpening) -> (String, String) {
    match opening.into_phase() {
        OpenPhase::Answered(response) => {
            let error = response.outcome.unwrap_err();
            assert_eq!(response.id, "request");
            (error.code, error.message)
        }
        phase => panic!("not answered: {:?}", phase),
    }
}

fn refused(app: &mut Session, event: OpenEvent) -> (String, String) {
    error_of(app.handle_region_open(asked(None, false), event))
}

fn resolved(app: &mut Session, size: Option<u16>, focus: bool) -> RegionOpening {
    let opening = asked(size, focus);
    app.handle_region_open(opening, named(Some("explorer"), Some("sidebar")))
}

fn launched(app: &mut Session, size: Option<u16>, focus: bool) -> RegionOpening {
    let opening = resolved(app, size, focus);
    let opening = app.handle_region_open(opening, OpenEvent::PlatformChecked(Ok(())));
    app.handle_region_open(opening, prepared())
}

fn launch_of(opening: &RegionOpening) -> &RegionLaunch {
    match opening.phase() {
        OpenPhase::Launched(launch) => launch,
        phase => panic!("not launched: {:?}", phase),
    }
}

fn open(app: &mut Session, size: Option<u16>, focus: bool) -> RegionInfo {
    let opening = launched(app, size, focus);
    let opening = app.handle_region_open(opening, OpenEvent::Spawned(Ok(())));
    match opening.into_phase() {
        OpenPhase::Answered(response) => match response.outcome {
            Ok(ResponseResult::RegionOpened { region }) => region,
            outcome => panic!("not opened: {:?}", outcome),
        },
        phase => panic!("not answered: {:?}", phase),
    }
}

#[test]
fn a_request_is_opened_as_its_manifest_declares() {
    let mut app = app();
    let opening = launched(&mut app, None, true);
    let launch = launch_of(&opening);
    assert_eq!(launch.rows, 24);
    assert_eq!(launch.cols, 38);
    assert_eq!(launch.cwd, "/work");
    assert_eq!(launch.env, vec![("TERM".to_string(), "xterm".to_string())]);
    assert!(!launch.agent_detection);
    assert!(!launch.pane_identity);
    assert_eq!(launch.pane_id, PaneId(1));
    assert_eq!(launch.terminal_id, TerminalId(1));
    assert_eq!(launch.request.manifest.command, vec!["explorer", "--sidebar"]);

    let opening = app.handle_region_open(opening, OpenEvent::Spawned(Ok(())));

    let region = match opening.into_phase() {
        OpenPhase::Answered(response) => match response.outcome {
            Ok(ResponseResult::RegionOpened { region }) => region,
            outcome => panic!("not opened: {:?}", outcome),
        },
        phase => panic!("not answered: {:?}", phase),
    };
    assert!(region.region_id.starts_with("region_"));
    assert_eq!(
        region,
        RegionInfo {
            region_id: region.region_id.clone(),
            plugin_id: "explorer".into(),
            entrypoint: "sidebar".into(),
            title: "Explorer".into(),
            anchor: RegionAnchor::Right,
            scope: RegionScope::Session,
            size: 40,
            min_size: 18,
            max_size: 60,
            visible: true,
            focused: true,
        }
    );
    assert_eq!(app.region_focus, Some(region.region_id.clone()));
    let terminal = &app.terminals[&1];
    assert_eq!(terminal.cwd, "/work");
    assert_eq!(terminal.launch_argv, vec!["explorer", "--sidebar"]);
    assert_eq!(terminal.manual_label.as_deref(), Some("Explorer"));
    assert!(app.session_dirty);
    let effects = app.take_effects();
    assert!(effects.redraw);
    assert!(effects.stop.is_empty());
    assert!(!app.take_effects().redraw);
}

#[test]
fn a_failed_refresh_is_reported_first() {
    let mut app = app();
    let event = OpenEvent::Named {
        refreshed: Err("registry is gone".into()),
        plugin_id: None,
        entrypoint: None,
    };
    assert_eq!(
        refused(&mut app, event),
        ("plugin_registry_load_failed".into(), "registry is gone".into())
    );
}

#[test]
fn unknown_or_malformed_names_are_refused() {
    let mut app = app();
    assert_eq!(
        refused(&mut app, named(None, None)),
        ("invalid_plugin_id".into(), "invalid plugin id".into())
    );
    assert_eq!(
        refused(&mut app, named(Some("ghost"), Some("sidebar"))),
        ("plugin_not_found".into(), "plugin not found".into())
    );
    assert_eq!(
        refused(&mut app, named(Some("asleep"), None)),
        ("plugin_disabled".into(), "plugin asleep is disabled".into())
    );
    assert_eq!(
        refused(&mut app, named(Some("explorer"), None)),
        ("invalid_plugin_entrypoint".into(), "invalid entrypoint id".into())
    );
    assert_eq!(
        refused(&mut app, named(Some("explorer"), Some("footer"))),
        (
            "plugin_region_not_found".into(),
            "plugin region entrypoint 'footer' not found".into()
        )
    );
    assert!(!app.session_dirty);
    assert!(app.terminals.is_empty());
}

#[test]
fn an_unsupported_platform_is_refused_with_its_own_error() {
    let mut app = app();
    let opening = resolved(&mut app, None, false);
    let error = ApiError { code: "platform_unsupported".into(), message: "not here".into() };
    let opening = app.handle_region_open(opening, OpenEvent::PlatformChecked(Err(error)));
    assert_eq!(error_of(opening), ("platform_unsupported".into(), "not here".into()));
}

#[test]
fn a_disabled_anchor_is_refused() {
    let mut app =
        app_with(RegionAnchorConfig { enabled: false, start_hidden: false, size: None });
    let opening = resolved(&mut app, None, false);
    let opening = app.handle_region_open(opening, OpenEvent::PlatformChecked(Ok(())));
    assert_eq!(
        error_of(opening),
        (
            "region_anchor_disabled".into(),
            "the right region is disabled by configuration".into()
        )
    );
}

#[test]
fn a_second_request_for_the_slot_is_refused() {
    let mut app = app();
    let first = open(&mut app, None, false);
    let opening = resolved(&mut app, None, false);
    let opening = app.handle_region_open(opening, OpenEvent::PlatformChecked(Ok(())));
    assert_eq!(
        error_of(opening),
        (
            "region_slot_occupied".into(),
            "a region is already open at this anchor and scope".into()
        )
    );
    assert_eq!(app.regions.get(RegionAnchor::Right).unwrap().region_id.as_str(), first.region_id);
}

#[test]
fn a_failed_projection_or_spawn_is_reported_and_leaves_nothing() {
    let mut app = app();
    let opening = resolved(&mut app, None, false);
    let opening = app.handle_region_open(opening, OpenEvent::PlatformChecked(Ok(())));
    let env = Err(ApiError { code: "invalid_env".into(), message: "HERDR_ID is reserved".into() });
    let opening = app
        .handle_region_open(opening, OpenEvent::Prepared { rows: 24, cwd: "/".into(), env });
    assert_eq!(
        error_of(opening),
        ("region_open_failed".into(), "invalid_env: HERDR_ID is reserved".into())
    );

    let opening = launched(&mut app, None, true);
    let opening =
        app.handle_region_open(opening, OpenEvent::Spawned(Err("no such program".into())));
    assert_eq!(error_of(opening), ("region_open_failed".into(), "no such program".into()));
    assert!(app.regions.is_empty());
    assert!(app.terminals.is_empty());
    assert_eq!(app.region_focus, None);
    assert!(app.take_effects().stop.is_empty());
}

#[test]
fn a_program_that_loses_the_race_for_the_slot_is_stopped() {
    let mut app = app();
    let early = launched(&mut app, None, false);
    let late = launched(&mut app, None, true);
    let late_terminal = launch_of(&late).terminal_id;
    app.handle_region_open(early, OpenEvent::Spawned(Ok(())));
    app.take_effects();

    let late = app.handle_region_open(late, OpenEvent::Spawned(Ok(())));

    assert_eq!(error_of(late), ("region_open_failed".into(), "region slot occupied".into()));
    assert_eq!(app.take_effects().stop, vec![late_terminal]);
    assert!(!app.terminals.contains_key(&late_terminal.0));
    assert_eq!(app.terminals.len(), 1);
    assert_eq!(app.regions.len(), 1);
    assert_eq!(app.region_focus, None);
}

#[test]
fn sessions_of_one_process_share_no_identifier() {
    let mut one = app();
    let first = open(&mut one, None, false);
    let pane = PaneId::allocate(&mut one.ids.panes);
    let terminal = TerminalId::allocate(&mut one.ids.terminals);
    let mut two = Session { ids: one.ids, ..app() };

    let second = launched(&mut two, None, false);

    assert_eq!((pane, terminal), (PaneId(2), TerminalId(2)));
    assert_eq!(launch_of(&second).pane_id, PaneId(3));
    assert_eq!(launch_of(&second).terminal_id, TerminalId(3));
    two.handle_region_open(second, OpenEvent::Spawned(Ok(())));
    let region = two.regions.get(RegionAnchor::Right).unwrap();
    assert!(first.region_id.ends_with('1'));
    assert!(region.region_id.as_str().ends_with('2'));
    assert!(one.app.terminals.contains_key(&1));
    assert!(!one.app.terminals.contains_key(&3));
}

#[test]
fn a_launched_program_waits_through_what_else_is_asked() {
    let mut session = app();
    let early = launched(&mut session, None, false);
    let late = launched(&mut session, None, true);
    session.handle_region_open(early, OpenEvent::Spawned(Ok(())));
    let first = session.regions.get(RegionAnchor::Right).unwrap().region_id.to_string();
    let target = RegionTarget { region_id: first.clone() };
    assert!(session.handle_region_focus("focus".into(), target).outcome.is_ok());
    let resize = RegionResizeParams { region_id: first.clone(), size: 20 };
    assert!(session.handle_region_resize("resize".into(), resize).outcome.is_ok());
    assert_eq!(session.close_region_for_exited_pane(PaneId(1), None), Some(first.clone()));
    assert!(!session.close_region(&first));
    assert_eq!(session.close_regions_for_plugin("explorer"), 0);

    let late = session.handle_region_open(late, OpenEvent::Spawned(Ok(())));

    assert!(matches!(late.phase(), OpenPhase::Answered(response) if response.outcome.is_ok()));
    let region = session.regions.get(RegionAnchor::Right).unwrap();
    assert_eq!(region.terminal_id, TerminalId(2));
    assert_eq!(region.size(), 40);
    assert!(session.terminals.contains_key(&2));
    assert!(!session.terminals.contains_key(&1));
    assert_eq!(session.take_effects().stop, vec![TerminalId(1)]);
}

#[test]
fn an_opening_and_a_restore_run_in_their_own_terminals() {
    let mut session = app();
    let restore = Restore::new(vec![snapshot("explorer", "sidebar", 30, true)]);
    let restore = session.restore_regions(restore, RestoreEvent::Next);
    let restore = session.restore_regions(restore, restore_prepared());
    let opening = launched(&mut session, None, true);
    assert_eq!(launch_of(&opening).terminal_id, TerminalId(2));
    session.handle_region_open(opening, OpenEvent::Spawned(Ok(())));

    let restore = session.restore_regions(restore, RestoreEvent::Spawned(Ok(())));

    assert!(matches!(
        restore.phase(),
        RestorePhase::Failed { message } if message == "region slot occupied"
    ));
    assert_eq!(session.take_effects().stop, vec![TerminalId(1)]);
    assert!(session.terminals.contains_key(&2));
    let region = session.regions.get(RegionAnchor::Right).unwrap();
    assert_eq!(region.terminal_id, TerminalId(2));
    assert_eq!(session.region_focus, Some(region.region_id.to_string()));
}

#[test]
fn restored_regions_draw_from_the_same_counters() {
    let mut session = app();
    launched(&mut session, None, false);
    let restore = Restore::new(vec![snapshot("explorer", "sidebar", 30, true)]);
    let restore = session.restore_regions(restore, RestoreEvent::Next);

    let restore = session.restore_regions(restore, restore_prepared());

    match restore.phase() {
        RestorePhase::Launched { launch, .. } => {
            assert_eq!(launch.pane_id, PaneId(2));
            assert_eq!(launch.terminal_id, TerminalId(2));
            assert!(!launch.agent_detection);
            assert!(!launch.pane_identity);
        }
        phase => panic!("not launched: {:?}", phase),
    }
}

#[test]
fn an_event_out_of_turn_changes_nothing() {
    let mut app = app();
    let opening = asked(None, false);
    let opening = app.handle_region_open(opening, OpenEvent::Spawned(Ok(())));
    assert!(matches!(opening.phase(), OpenPhase::Asked));
    let opening = launched(&mut app, None, false);
    let opening = app.handle_region_open(opening, named(None, None));
    assert!(matches!(opening.phase(), OpenPhase::Launched(_)));
    assert!(app.regions.is_empty());
}

#[test]
fn sizes_have_an_order_of_precedence_and_are_clamped() {
    assert_eq!(open(&mut app(), Some(33), false).size, 33);
    assert_eq!(open(&mut app(), Some(1), false).size, 18);
    assert_eq!(open(&mut app(), Some(u16::MAX), false).size, 60);
    assert_eq!(open(&mut app(), None, false).size, 40);
    let mut configured =
        app_with(RegionAnchorConfig { enabled: true, start_hidden: false, size: Some(25) });
    assert_eq!(open(&mut configured, None, false).size, 25);
    let mut bare = app();
    let mut undeclared = plugin("explorer", true);
    undeclared.regions[0].size = None;
    undeclared.regions[0].min_size = None;
    undeclared.regions[0].max_size = None;
    bare.installed_plugins.insert(undeclared);
    let info = open(&mut bare, None, false);
    assert_eq!((info.size, info.min_size, info.max_size), (32, 8, 200));
}

#[test]
fn a_program_starts_with_at_least_one_row() {
    let mut app = app();
    let opening = resolved(&mut app, Some(0), false);
    let opening = app.handle_region_open(opening, OpenEvent::PlatformChecked(Ok(())));
    let event = OpenEvent::Prepared { rows: 0, cwd: "/".into(), env: Ok(Vec::new()) };
    let opening = app.handle_region_open(opening, event);
    assert_eq!(launch_of(&opening).rows, 1);
    assert_eq!(launch_of(&opening).cols, 16);
}

#[test]
fn a_region_that_starts_hidden_takes_no_focus() {
    let mut app = app_with(RegionAnchorConfig { enabled: true, start_hidden: true, size: None });
    let info = open(&mut app, None, true);
    assert!(!info.visible);
    assert!(!info.focused);
    assert_eq!(app.region_focus, None);
    assert_eq!(app.regions.shown_size(RegionAnchor::Right), None);
}

#[test]
fn closing_undoes_opening() {
    let mut app = app();
    let info = open(&mut app, None, true);
    app.direct_attach_resize_locks.insert(1);
    app.take_effects();

    let response = app.handle_region_close(
        "close".into(),
        RegionTarget { region_id: info.region_id.clone() },
    );

    assert_eq!(response.id, "close");
    assert_eq!(
        response.outcome,
        Ok(ResponseResult::RegionClosed { region_id: info.region_id.clone() })
    );
    assert!(app.regions.is_empty());
    assert!(app.terminals.is_empty());
    assert!(app.direct_attach_resize_locks.is_empty());
    assert_eq!(app.region_focus, None);
    let effects = app.take_effects();
    assert_eq!(effects.stop, vec![TerminalId(1)]);
    assert!(effects.redraw);

    let again =
        app.handle_region_close("close".into(), RegionTarget { region_id: info.region_id });
    let error = again.outcome.unwrap_err();
    assert_eq!(error.code, "region_not_found");
    assert_eq!(error.message, "no region with that id is open");
    assert!(!app.take_effects().redraw);
}

#[test]
fn only_a_visible_region_takes_focus() {
    let mut app = app();
    let info = open(&mut app, None, false);
    let target = || RegionTarget { region_id: info.region_id.clone() };

    let response = app.handle_region_focus("focus".into(), target());
    match response.outcome {
        Ok(ResponseResult::RegionFocused { region }) => assert!(region.focused),
        outcome => panic!("not focused: {:?}", outcome),
    }
    assert_eq!(app.region_focus, Some(info.region_id.clone()));

    app.region_focus = None;
    app.set_region_visible(&info.region_id, false);
    let error = app.handle_region_focus("focus".into(), target()).outcome.unwrap_err();
    assert_eq!(error.code, "region_hidden");
    assert_eq!(error.message, "a hidden region cannot take keyboard focus");
    assert_eq!(app.region_focus, None);

    let missing = RegionTarget { region_id: "region_0".into() };
    let error = app.handle_region_focus("focus".into(), missing).outcome.unwrap_err();
    assert_eq!(error.code, "region_not_found");
}

#[test]
fn resizing_applies_the_nearest_allowed_size() {
    let mut app = app();
    let info = open(&mut app, None, true);
    app.session_dirty = false;
    let response = app.handle_region_resize(
        "resize".into(),
        RegionResizeParams { region_id: info.region_id.clone(), size: u16::MAX },
    );
    match response.outcome {
        Ok(ResponseResult::RegionResized { region }) => {
            assert_eq!(region.size, 60);
            assert!(region.focused);
        }
        outcome => panic!("not resized: {:?}", outcome),
    }
    assert_eq!(app.regions.get(RegionAnchor::Right).unwrap().size(), 60);
    assert!(app.session_dirty);
    let missing = RegionResizeParams { region_id: "region_0".into(), size: 30 };
    let error = app.handle_region_resize("resize".into(), missing).outcome.unwrap_err();
    assert_eq!(error.code, "region_not_found");
}

#[test]
fn the_list_tells_every_live_region() {
    let mut app = app();
    assert_eq!(
        app.handle_region_list("list".into()).outcome,
        Ok(ResponseResult::RegionList { regions: Vec::new() })
    );
    let info = open(&mut app, None, true);
    assert_eq!(
        app.handle_region_list("list".into()).outcome,
        Ok(ResponseResult::RegionList { regions: vec![info] })
    );
}

#[test]
fn an_info_tells_focus_by_identifier() {
    let region = RegionInstance::new(
        RegionId::at(Some(1), 1),
        "explorer".into(),
        "sidebar".into(),
        TerminalId(1),
        RegionAnchor::Right,
        RegionScope::Session,
        "Explorer".into(),
        32,
        RegionSizeBounds::new(None, None),
        true,
    );
    assert!(region_info(&region, &Some("region_11".into())).focused);
    assert!(!region_info(&region, &Some("region_12".into())).focused);
    assert!(!region_info(&region, &None).focused);
}

#[test]
fn a_plugin_loses_all_its_regions_at_once() {
    let mut app = app();
    open(&mut app, None, true);
    app.take_effects();
    app.session_dirty = false;

    assert_eq!(app.close_regions_for_plugin("other"), 0);
    assert!(!app.session_dirty);
    assert_eq!(app.close_regions_for_plugin("explorer"), 1);
    assert!(app.session_dirty);
    assert!(app.regions.is_empty());
    assert_eq!(app.region_focus, None);
    assert_eq!(app.take_effects().stop, vec![TerminalId(1)]);
    assert_eq!(app.close_regions_for_plugin("explorer"), 0);
}

#[test]
fn a_failing_program_closes_its_region_with_a_toast() {
    let mut app = app();
    let info = open(&mut app, None, true);
    assert_eq!(app.terminal_of_pane(PaneId(1)), Some(TerminalId(1)));

    let closed = app.close_region_for_exited_pane(PaneId(1), Some(-7));

    assert_eq!(closed, Some(info.region_id));
    assert!(app.regions.is_empty());
    let toast = app.toast.as_ref().unwrap();
    assert_eq!(toast.kind, ToastKind::NeedsAttention);
    assert_eq!(toast.title, "Explorer closed");
    assert_eq!(toast.context, "explorer exited with status -7");
    assert_eq!(toast.position, None);
    assert_eq!(toast.target, None);
    assert_eq!(app.terminal_of_pane(PaneId(1)), None);
}

#[test]
fn a_program_that_ends_well_closes_its_region_quietly() {
    for code in [Some(0), None] {
        let mut app = app();
        let info = open(&mut app, None, false);
        assert_eq!(app.close_region_for_exited_pane(PaneId(9), Some(1)), None);
        assert_eq!(app.regions.len(), 1);
        assert_eq!(app.close_region_for_exited_pane(PaneId(1), code), Some(info.region_id));
        assert!(app.toast.is_none());
        assert!(app.regions.is_empty());
    }
}

fn snapshot(plugin_id: &str, entrypoint: &str, size: u16, visible: bool) -> RegionSnapshot {
    RegionSnapshot {
        plugin_id: plugin_id.into(),
        entrypoint: entrypoint.into(),
        size,
        visible,
    }
}

fn restore_prepared() -> RestoreEvent {
    RestoreEvent::Prepared { rows: 24, cwd: "/work".into(), env: Ok(Vec::new()) }
}

fn restored(app: &mut Session, restore: Restore) -> Restore {
    let restore = app.restore_regions(restore, RestoreEvent::Next);
    let restore = app.restore_regions(restore, restore_prepared());
    app.restore_regions(restore, RestoreEvent::Spawned(Ok(())))
}

#[test]
fn a_restored_region_keeps_its_size_and_visibility() {
    for visible in [true, false] {
        let mut app = app();
        let restore = Restore::new(vec![snapshot("explorer", "sidebar", 50, visible)]);

        let restore = restored(&mut app, restore);

        let region = app.regions.get(RegionAnchor::Right).unwrap();
        match restore.phase() {
            RestorePhase::Restored { region_id } => {
                assert_eq!(region_id.as_str(), region.region_id.as_str())
            }
            phase => panic!("not restored: {:?}", phase),
        }
        assert_eq!(region.size(), 50);
        assert_eq!(region.visible, visible);
        assert_eq!(app.region_focus, None);
        let restore = app.restore_regions(restore, RestoreEvent::Next);
        assert!(matches!(restore.phase(), RestorePhase::Done));
    }
}

#[test]
fn a_saved_size_is_only_a_request() {
    let mut app = app();
    restored(&mut app, Restore::new(vec![snapshot("explorer", "sidebar", 500, true)]));
    assert_eq!(app.regions.get(RegionAnchor::Right).unwrap().size(), 60);
}

#[test]
fn stale_saved_regions_are_dropped() {
    let mut app = app();
    let mut restore = Restore::new(vec![
        snapshot("ghost", "sidebar", 30, true),
        snapshot("asleep", "sidebar", 30, true),
        snapshot("explorer", "footer", 30, true),
    ]);
    for expected in [
        RestoreDrop::PluginNotInstalled,
        RestoreDrop::PluginDisabled,
        RestoreDrop::EntrypointNotDeclared,
    ] {
        restore = app.restore_regions(restore, RestoreEvent::Next);
        match restore.phase() {
            RestorePhase::Dropped { reason, .. } => assert_eq!(*reason, expected),
            phase => panic!("not dropped: {:?}", phase),
        }
    }
    restore = app.restore_regions(restore, RestoreEvent::Next);
    assert!(matches!(restore.phase(), RestorePhase::Done));
    assert!(app.regions.is_empty());
    assert!(!app.session_dirty);
}

#[test]
fn a_failed_respawn_goes_on_with_the_next_saved_region() {
    let mut app = app();
    let restore = Restore::new(vec![
        snapshot("explorer", "sidebar", 30, true),
        snapshot("explorer", "sidebar", 31, true),
        snapshot("explorer", "sidebar", 32, true),
        snapshot("explorer", "sidebar", 33, true),
    ]);
    let restore = app.restore_regions(restore, RestoreEvent::Next);
    let env = Err(ApiError { code: "bad".into(), message: "env".into() });
    let restore = app.restore_regions(
        restore,
        RestoreEvent::Prepared { rows: 1, cwd: "/".into(), env },
    );
    assert!(matches!(restore.phase(), RestorePhase::Failed { message } if message == "bad: env"));
    let restore = app.restore_regions(restore, RestoreEvent::Next);
    let restore = app.restore_regions(restore, restore_prepared());
    let restore = app.restore_regions(restore, RestoreEvent::Spawned(Err("gone".into())));
    assert!(matches!(restore.phase(), RestorePhase::Failed { message } if message == "gone"));
    let restore = restored(&mut app, restore);
    assert!(matches!(restore.phase(), RestorePhase::Restored { .. }));
    assert_eq!(app.regions.get(RegionAnchor::Right).unwrap().size(), 32);

    let restore = restored(&mut app, restore);

    assert!(matches!(
        restore.phase(),
        RestorePhase::Failed { message } if message == "region slot occupied"
    ));
    assert_eq!(app.regions.get(RegionAnchor::Right).unwrap().size(), 32);
    assert_eq!(app.take_effects().stop.len(), 1);
    let restore = app.restore_regions(restore, RestoreEvent::Next);
    assert!(matches!(restore.phase(), RestorePhase::Done));
}

#[test]
fn the_registry_keeps_one_plugin_per_id() {
    let mut registry = PluginRegistry::new();
    registry.insert(plugin("explorer", true));
    registry.insert(plugin("notes", true));
    registry.insert(plugin("explorer", false));

    assert!(!registry.get("explorer").unwrap().enabled);
    assert!(registry.get("notes").unwrap().enabled);
    assert!(registry.get("ghost").is_none());
}

#[test]
fn the_first_declared_region_of_an_id_counts() {
    let mut info = plugin("explorer", true);
    let mut other = manifest("sidebar");
    other.title = "Second".into();
    info.regions.push(other);
    info.regions.push(manifest("footer"));

    assert_eq!(info.region("sidebar").unwrap().title, "Explorer");
    assert_eq!(info.region("footer").unwrap().id, "footer");
    assert!(info.region("header").is_none());
    assert_eq!(info.clone(), info);
}

#[test]
fn a_live_region_is_drawn_at_its_size() {
    let mut app = app();
    open(&mut app, Some(45), false);

    let size = app.regions.shown_size(RegionAnchor::Right);

    assert_eq!(size, Some(45));
    let layout = layout_regions(Rect::new(0, 0, 100, 30), size);
    assert_eq!(layout.right, Some(Rect::new(55, 0, 45, 30)));
    assert_eq!(layout.remaining, Rect::new(0, 0, 55, 30));
}

#[test]
fn a_copied_state_is_its_own() {
    let mut app = app();
    open(&mut app, None, false);
    let copy = app.regions.clone();
    app.regions.remove_by_plugin("explorer");

    assert!(app.regions.is_empty());
    assert_eq!(copy.len(), 1);
    assert_eq!(copy.get(RegionAnchor::Right).unwrap().plugin_id, "explorer");
}
