//! Opening a region: from an admitted request over the program's launch to the
//! claimed slot.

use vstd::prelude::*;

use crate::api::ApiError;
use crate::app::{App, AppView, TerminalState, TerminalView};
use crate::ids::{region_id_text, IdCounters, IdsView, PaneId, RegionId, TerminalId};
use crate::plugin::{ManifestView, PluginManifestRegion};
use crate::region::{RegionInstance, RegionSizeBounds, RegionView, SizeRange};
use crate::state::{first_picked, with_id};
use crate::text::copy_texts;

verus! {

/// What an admitted request asks for.
#[verifier::ext_equal]
pub struct RequestView {
    pub plugin_id: Seq<char>,
    pub manifest: ManifestView,
    pub bounds: SizeRange,
    pub size: u16,
    pub focus: bool,
}

/// A request for a region that its plugin declares.
#[derive(Debug)]
pub struct RegionRequest {
    pub plugin_id: String,
    pub manifest: PluginManifestRegion,
    pub bounds: RegionSizeBounds,
    /// The size asked for, which the bounds need not admit.
    pub size: u16,
    /// Whether the region asks for keyboard focus.
    pub focus: bool,
}

impl View for RegionRequest {
    type V = RequestView;

    open spec fn view(&self) -> RequestView {
        RequestView {
            plugin_id: self.plugin_id@,
            manifest: self.manifest@,
            bounds: self.bounds@,
            size: self.size,
            focus: self.focus,
        }
    }
}

/// How a region's program is started.
#[verifier::ext_equal]
pub struct LaunchView {
    pub request: RequestView,
    pub pane_id: PaneId,
    pub terminal_id: TerminalId,
    pub rows: u16,
    pub cols: u16,
    pub cwd: Seq<char>,
    pub env: Seq<(Seq<char>, Seq<char>)>,
    pub agent_detection: bool,
    pub pane_identity: bool,
}

/// A program to be started for a region.
#[derive(Debug)]
pub struct RegionLaunch {
    pub request: RegionRequest,
    pub pane_id: PaneId,
    pub terminal_id: TerminalId,
    pub rows: u16,
    pub cols: u16,
    pub cwd: String,
    pub env: Vec<(String, String)>,
    /// Whether the program is watched for being an agent.
    pub agent_detection: bool,
    /// Whether the program's environment names the pane that it runs in.
    pub pane_identity: bool,
}

/// What some environment variables are.
pub open spec fn env_view(env: Seq<(String, String)>) -> Seq<(Seq<char>, Seq<char>)> {
    env.map_values(|variable: (String, String)| (variable.0@, variable.1@))
}

impl View for RegionLaunch {
    type V = LaunchView;

    open spec fn view(&self) -> LaunchView {
        LaunchView {
            request: self.request@,
            pane_id: self.pane_id,
            terminal_id: self.terminal_id,
            rows: self.rows,
            cols: self.cols,
            cwd: self.cwd@,
            env: env_view(self.env@),
            agent_detection: self.agent_detection,
            pane_identity: self.pane_identity,
        }
    }
}

/// The columns of a program inside the border of a region of the given size.
pub open spec fn columns_inside(size: u16) -> u16 {
    if size <= 3 {
        1
    } else {
        (size - 2) as u16
    }
}

/// `rows`, but at least one.
pub open spec fn some_rows(rows: u16) -> u16 {
    if rows == 0 {
        1
    } else {
        rows
    }
}

impl LaunchView {
    /// The launch of a request: the next pane and the next terminal, and a size
    /// from the clamped request and the frame's rows. A region stands
    /// outside the pane tree, so its program is not watched for being an agent
    /// and is not told of its pane.
    pub open spec fn prepared(
        ids: IdsView,
        request: RequestView,
        rows: u16,
        cwd: Seq<char>,
        env: Seq<(Seq<char>, Seq<char>)>,
    ) -> LaunchView {
        LaunchView {
            request,
            pane_id: PaneId(ids.pane),
            terminal_id: TerminalId(ids.terminal),
            rows: some_rows(rows),
            cols: columns_inside(request.bounds.clamp(request.size)),
            cwd,
            env,
            agent_detection: false,
            pane_identity: false,
        }
    }

    /// The terminal of the launched program.
    pub open spec fn terminal(self) -> TerminalView {
        TerminalView {
            cwd: self.cwd,
            launch_argv: self.request.manifest.command,
            manual_label: Some(self.request.manifest.title),
        }
    }

    /// The region of the launched program.
    pub open spec fn region(self, region_id: Seq<char>, visible: bool) -> RegionView {
        RegionView {
            region_id,
            plugin_id: self.request.plugin_id,
            entrypoint: self.request.manifest.id,
            terminal_id: self.terminal_id,
            pane_id: Some(self.pane_id),
            anchor: self.request.manifest.anchor,
            scope: self.request.manifest.scope,
            title: self.request.manifest.title,
            size: self.request.bounds.clamp(self.request.size),
            bounds: self.request.bounds,
            visible,
        }
    }
}

impl AppView {
    /// Whether a new region is shown.
    pub open spec fn shows_new_regions(self) -> bool {
        !self.config.right.start_hidden
    }

    /// After a launched program is given its region: the slot is claimed where
    /// it is free. Otherwise the program has nowhere to live and is to be
    /// stopped.
    pub open spec fn placed(self, launch: LaunchView, region_id: Seq<char>) -> AppView {
        let terminal = launch.terminal_id.0;
        let anchor = launch.request.manifest.anchor;
        if self.regions.contains_key(anchor) {
            AppView {
                terminals: self.terminals.remove(terminal),
                stopping: self.stopping.push(launch.terminal_id),
                ..self
            }
        } else {
            AppView {
                regions: self.regions.insert(
                    anchor,
                    launch.region(region_id, self.shows_new_regions()),
                ),
                region_focus: if launch.request.focus && self.shows_new_regions() {
                    Some(region_id)
                } else {
                    self.region_focus
                },
                terminals: self.terminals.insert(terminal, launch.terminal()),
                ..self
            }.changed()
        }
    }

    /// After the region with an identifier is shown or hidden.
    pub open spec fn with_visibility(self, region_id: Seq<char>, visible: bool) -> AppView {
        match first_picked(self.regions, with_id(region_id)) {
            Some(anchor) => AppView {
                regions: self.regions.insert(
                    anchor,
                    RegionView { visible, ..self.regions[anchor] },
                ),
                ..self
            },
            None => self,
        }
    }
}

/// Prepare the launch of a region's program.
///
/// The caller has already verified the plugin owns this entrypoint and that
/// the slot is free; this function performs no policy of its own beyond
/// clamping the size through `bounds`. `rows` is the height of a pane in the
/// current frame, and `env` what the plugin's environment projection gave:
/// the region has no rectangle until the next frame, so the program starts
/// at a sane size derived from the current one.
pub fn launch_region(
    ids: &mut IdCounters,
    request: RegionRequest,
    rows: u16,
    cwd: String,
    env: Result<Vec<(String, String)>, ApiError>,
) -> (launch: Result<RegionLaunch, String>)
    ensures
        match env {
            Ok(env) => {
                &&& launch matches Ok(launch)
                &&& launch@ == LaunchView::prepared(
                    old(ids)@,
                    request@,
                    rows,
                    cwd@,
                    env_view(env@),
                )
                &&& final(ids)@ == old(ids)@.launching()
            },
            Err(error) => {
                &&& launch matches Err(message)
                &&& message@ == error@.code + ": "@ + error@.message
                &&& final(ids)@ == old(ids)@
            },
        },
{
    let env = match env {
        Ok(env) => env,
        Err(error) => {
            let mut message = error.code;
            message.append(": ");
            message.append(error.message.as_str());
            return Err(message);
        },
    };
    let size: u16 = request.bounds.clamp(request.size);
    let inside: u16 = size.saturating_sub(2);
    let cols: u16 = if inside == 0 {
        1
    } else {
        inside
    };
    let rows: u16 = if rows == 0 {
        1
    } else {
        rows
    };
    let pane_id = PaneId::allocate(&mut ids.panes);
    let terminal_id = TerminalId::allocate(&mut ids.terminals);
    Ok(
        RegionLaunch {
            request,
            pane_id,
            terminal_id,
            rows,
            cols,
            cwd,
            env,
            agent_detection: false,
            pane_identity: false,
        },
    )
}

impl App {
    /// Give a launched program its region, under a fresh identifier.
    ///
    /// `spawned` is what came of starting the program. The identifier rests on
    /// the clock, and is known up to its reading.
    pub fn attach_region(
        &mut self,
        ids: &mut IdCounters,
        launch: RegionLaunch,
        spawned: Result<(), String>,
    ) -> (opened: Result<RegionId, String>)
        ensures
            match spawned {
                Err(error) => {
                    &&& opened matches Err(message)
                    &&& message@ == error@
                    &&& final(self)@ == old(self)@
                    &&& final(ids)@ == old(ids)@
                },
                Ok(_) => {
                    &&& final(ids)@ == old(ids)@.identified()
                    &&& exists|micros: u128|
                        {
                            let id = #[trigger] region_id_text(micros, old(ids)@.region);
                            &&& final(self)@ == old(self)@.placed(launch@, id)
                            &&& placement(old(self)@, launch@, id, opened)
                        }
                },
            },
            old(self).regions.wf() ==> final(self).regions.wf(),
    {
        match spawned {
            Err(error) => Err(error),
            Ok(_) => {
                let region_id = RegionId::allocate(&mut ids.regions);
                let ghost micros = choose|micros: u128|
                    region_id@ == #[trigger] region_id_text(micros, old(ids)@.region);
                assert(region_id@ == region_id_text(micros, old(ids)@.region));
                self.place_region(launch, region_id)
            },
        }
    }

    /// Claim the slot for a launched program, or have the program stopped where
    /// the slot is taken.
    pub fn place_region(&mut self, launch: RegionLaunch, region_id: RegionId) -> (opened: Result<
        RegionId,
        String,
    >)
        ensures
            final(self)@ == old(self)@.placed(launch@, region_id@),
            placement(old(self)@, launch@, region_id@, opened),
            old(self).regions.wf() ==> final(self).regions.wf(),
    {
        let terminal_id = launch.terminal_id;
        let manifest = launch.request.manifest;
        let terminal = TerminalState {
            cwd: launch.cwd,
            launch_argv: copy_texts(&manifest.command),
            manual_label: Some(manifest.title.clone()),
        };
        self.terminals.insert(terminal_id.0, terminal);
        let visible = !self.regions_config.right.start_hidden;
        let region = RegionInstance::new(
            region_id.clone(),
            launch.request.plugin_id,
            manifest.id,
            terminal_id,
            manifest.anchor,
            manifest.scope,
            manifest.title,
            launch.request.size,
            launch.request.bounds,
            visible,
        ).in_pane(launch.pane_id);
        if self.regions.insert(region).is_err() {
            // The slot was checked before spawning; losing the race means the
            // program we just started has nowhere to live.
            self.terminals.remove(&terminal_id.0);
            self.effects.stop.push(terminal_id);
            return Err("region slot occupied".to_owned());
        }
        if launch.request.focus && visible {
            self.region_focus = Some(region_id.to_string());
        }
        self.mark_changed();
        Ok(region_id)
    }

    /// Show or hide the region with an identifier.
    pub fn set_region_visible(&mut self, region_id: &str, visible: bool)
        ensures
            final(self)@ == old(self)@.with_visibility(region_id@, visible),
            old(self).regions.wf() ==> final(self).regions.wf(),
    {
        match self.regions.get_by_id_mut(region_id) {
            Some(region) => {
                region.visible = visible;
            },
            None => {},
        }
    }
}

/// Whether `opened` tells what placing a launched program came to: the region's
/// identifier where the slot was free, and that it was occupied otherwise.
pub open spec fn placement(
    before: AppView,
    launch: LaunchView,
    region_id: Seq<char>,
    opened: Result<RegionId, String>,
) -> bool {
    if before.regions.contains_key(launch.request.manifest.anchor) {
        opened matches Err(message) && message@ == "region slot occupied"@
    } else {
        opened matches Ok(id) && id@ == region_id
    }
}

} // verus!
