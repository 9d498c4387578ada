//! Region lifecycle: what opening, focusing and closing a region do to the
//! session.
//!
//! The programs themselves run outside. What has to be done to them, and to
//! the screen, is recorded here as [`Effects`] for the host to carry out.

use std::collections::{BTreeMap, BTreeSet};

use vstd::prelude::*;

use crate::ids::{PaneId, TerminalId};
use crate::plugin::{PluginRegistry, PluginView};
use crate::region::{RegionAnchor, RegionInstance, RegionView};
use crate::state::{
    a_search_gives_the_first_match, first_picked, in_pane, of_plugin, picked, regions_at, removing_a_plugin_without_regions_changes_nothing, views, with_id, without, RegionState,
    Slots,
};
use crate::text::{decimal, decimal_text, is_text, optional_text, texts};

verus! {

/// What is known of one terminal.
#[verifier::ext_equal]
pub struct TerminalView {
    pub cwd: Seq<char>,
    pub launch_argv: Seq<Seq<char>>,
    pub manual_label: Option<Seq<char>>,
}

/// State of one terminal, apart from its program.
#[derive(Debug)]
pub struct TerminalState {
    pub cwd: String,
    pub launch_argv: Vec<String>,
    pub manual_label: Option<String>,
}

impl View for TerminalState {
    type V = TerminalView;

    open spec fn view(&self) -> TerminalView {
        TerminalView {
            cwd: self.cwd@,
            launch_argv: texts(self.launch_argv@),
            manual_label: optional_text(self.manual_label),
        }
    }
}

/// How urgent a toast is.
#[derive(Debug, Clone, Copy, PartialEq, Eq, Structural)]
pub enum ToastKind {
    NeedsAttention,
}

/// What a toast says.
#[verifier::ext_equal]
pub struct ToastView {
    pub kind: ToastKind,
    pub title: Seq<char>,
    pub context: Seq<char>,
    pub position: Option<(u16, u16)>,
    pub target: Option<PaneId>,
}

/// A short message to the user.
#[derive(Debug)]
pub struct ToastNotification {
    pub kind: ToastKind,
    pub title: String,
    pub context: String,
    /// The column and the row to show the toast at, in place of its usual spot.
    pub position: Option<(u16, u16)>,
    /// The pane to focus when the toast is clicked.
    pub target: Option<PaneId>,
}

impl View for ToastNotification {
    type V = ToastView;

    open spec fn view(&self) -> ToastView {
        ToastView {
            kind: self.kind,
            title: self.title@,
            context: self.context@,
            position: self.position,
            target: self.target,
        }
    }
}

/// User configuration of the right-anchored region.
#[derive(Debug, Clone, Copy, PartialEq, Eq, Structural)]
pub struct RegionAnchorConfig {
    pub enabled: bool,
    pub start_hidden: bool,
    pub size: Option<u16>,
}

/// User configuration of the desktop regions.
#[derive(Debug, Clone, Copy, PartialEq, Eq, Structural)]
pub struct RegionsConfig {
    pub right: RegionAnchorConfig,
}

/// What the session holds.
#[verifier::ext_equal]
pub struct AppView {
    pub regions: Slots,
    pub region_focus: Option<Seq<char>>,
    pub terminals: Map<u64, TerminalView>,
    pub resize_locks: Set<u64>,
    pub toast: Option<ToastView>,
    pub plugins: Map<Seq<char>, PluginView>,
    pub config: RegionsConfig,
    pub session_dirty: bool,
    pub redraw: bool,
    pub stopping: Seq<TerminalId>,
}

/// What the host has to carry out.
#[derive(Debug)]
pub struct Effects {
    /// The terminals whose program has to be shut down.
    pub stop: Vec<TerminalId>,
    /// Whether the screen has to be drawn again.
    pub redraw: bool,
}

/// The session state that regions take part in.
#[derive(Debug)]
pub struct App {
    pub regions: RegionState,
    /// Identifier of the region with keyboard focus.
    pub region_focus: Option<String>,
    /// Terminals by the number of their identifier.
    pub terminals: BTreeMap<u64, TerminalState>,
    /// Terminals whose size an attached client holds.
    pub direct_attach_resize_locks: BTreeSet<u64>,
    pub toast: Option<ToastNotification>,
    pub installed_plugins: PluginRegistry,
    pub regions_config: RegionsConfig,
    /// Whether the session has changed since it was last saved.
    pub session_dirty: bool,
    /// What the host has not carried out yet.
    pub effects: Effects,
}

impl View for App {
    type V = AppView;

    open spec fn view(&self) -> AppView {
        AppView {
            regions: self.regions@,
            region_focus: optional_text(self.region_focus),
            terminals: self.terminals@.map_values(|terminal: TerminalState| terminal@),
            resize_locks: self.direct_attach_resize_locks@,
            toast: match self.toast {
                Some(toast) => Some(toast@),
                None => None,
            },
            plugins: self.installed_plugins@,
            config: self.regions_config,
            session_dirty: self.session_dirty,
            redraw: self.effects.redraw,
            stopping: self.effects.stop@,
        }
    }
}

impl AppView {
    /// After a region's terminal is dropped: focus does not stay on the region,
    /// and its program is to be stopped.
    pub open spec fn released(self, region: RegionView) -> AppView {
        let terminal = region.terminal_id.0;
        AppView {
            region_focus: if self.region_focus == Some(region.region_id) {
                None
            } else {
                self.region_focus
            },
            terminals: self.terminals.remove(terminal),
            resize_locks: self.resize_locks.remove(terminal),
            stopping: self.stopping.push(region.terminal_id),
            ..self
        }
    }

    /// After the terminals of several regions are dropped, in order.
    pub open spec fn all_released(self, regions: Seq<RegionView>) -> AppView
        decreases regions.len(),
    {
        if regions.len() == 0 {
            self
        } else {
            self.all_released(regions.drop_last()).released(regions.last())
        }
    }

    /// After a change that has to be saved and drawn.
    pub open spec fn changed(self) -> AppView {
        AppView { session_dirty: true, redraw: true, ..self }
    }

    /// After the region in a slot is closed.
    pub open spec fn closed(self, anchor: RegionAnchor) -> AppView {
        AppView { regions: self.regions.remove(anchor), ..self }.released(
            self.regions[anchor],
        ).changed()
    }

    /// After the region with an identifier is closed, where there is one.
    pub open spec fn closed_by_id(self, region_id: Seq<char>) -> AppView {
        match first_picked(self.regions, with_id(region_id)) {
            Some(anchor) => self.closed(anchor),
            None => self,
        }
    }

    /// The regions of one plugin, in slot order.
    pub open spec fn regions_of(self, plugin_id: Seq<char>) -> Seq<RegionView> {
        regions_at(self.regions, picked(self.regions, of_plugin(plugin_id)))
    }

    /// After every region of one plugin is closed, where there is one.
    pub open spec fn closed_for_plugin(self, plugin_id: Seq<char>) -> AppView {
        if self.regions_of(plugin_id).len() == 0 {
            self
        } else {
            AppView {
                regions: without(self.regions, of_plugin(plugin_id)),
                ..self
            }.all_released(self.regions_of(plugin_id)).changed()
        }
    }

    /// After a region takes keyboard focus.
    pub open spec fn focused(self, region_id: Seq<char>) -> AppView {
        AppView { region_focus: Some(region_id), redraw: true, ..self }
    }

    /// After a region's program ended with an exit code, where one is known: a
    /// non-zero one is reported.
    pub open spec fn exit_reported(self, region: RegionView, exit_code: Option<i32>) -> AppView {
        match exit_code {
            Some(code) if code != 0 => AppView {
                toast: Some(exit_toast(region, code)),
                redraw: true,
                ..self
            },
            _ => self,
        }
    }

    /// The region that a pane shows.
    pub open spec fn shown_by(self, pane_id: PaneId) -> Option<RegionView> {
        match first_picked(self.regions, in_pane(pane_id)) {
            Some(anchor) => Some(self.regions[anchor]),
            None => None,
        }
    }

    /// After the program in a pane ended.
    pub open spec fn pane_exited(self, pane_id: PaneId, exit_code: Option<i32>) -> AppView {
        match first_picked(self.regions, in_pane(pane_id)) {
            Some(anchor) => {
                let region = self.regions[anchor];
                self.closed_by_id(region.region_id).exit_reported(region, exit_code)
            },
            None => self,
        }
    }
}

/// The toast that reports the end of a region's program.
pub open spec fn exit_toast(region: RegionView, code: i32) -> ToastView {
    ToastView {
        kind: ToastKind::NeedsAttention,
        title: region.title + " closed"@,
        context: region.plugin_id + " exited with status "@ + decimal_text(code as int),
        position: None,
        target: None,
    }
}

impl App {
    /// A session without regions, terminals or plugins.
    pub fn new(regions_config: RegionsConfig) -> (app: App)
        ensures
            app@ == (AppView {
                regions: Slots::empty(),
                region_focus: None,
                terminals: Map::empty(),
                resize_locks: Set::empty(),
                toast: None,
                plugins: Map::empty(),
                config: regions_config,
                session_dirty: false,
                redraw: false,
                stopping: Seq::empty(),
            }),
            app.regions.wf(),
    {
        App {
            regions: RegionState::default(),
            region_focus: None,
            terminals: BTreeMap::new(),
            direct_attach_resize_locks: BTreeSet::new(),
            toast: None,
            installed_plugins: PluginRegistry::new(),
            regions_config,
            session_dirty: false,
            effects: Effects { stop: Vec::new(), redraw: false },
        }
    }

    /// Hand out what the host has to carry out, once.
    pub fn take_effects(&mut self) -> (effects: Effects)
        ensures
            effects.stop@ == old(self)@.stopping,
            effects.redraw == old(self)@.redraw,
            final(self)@ == (AppView { stopping: Seq::empty(), redraw: false, ..old(self)@ }),
            old(self).regions.wf() ==> final(self).regions.wf(),
    {
        let mut effects = Effects { stop: Vec::new(), redraw: false };
        std::mem::swap(&mut effects, &mut self.effects);
        effects
    }

    pub(crate) fn mark_changed(&mut self)
        ensures
            final(self)@ == old(self)@.changed(),
            final(self).regions == old(self).regions,
    {
        self.session_dirty = true;
        self.effects.redraw = true;
    }

    /// Drop a region's terminal state and runtime, and clear stale focus.
    fn release_region_runtime(&mut self, region: &RegionInstance)
        ensures
            final(self)@ == old(self)@.released(region@),
            final(self).regions == old(self).regions,
    {
        if is_text(&self.region_focus, region.region_id.as_str()) {
            self.region_focus = None;
        }
        self.direct_attach_resize_locks.remove(&region.terminal_id.0);
        self.terminals.remove(&region.terminal_id.0);
        self.effects.stop.push(region.terminal_id);
    }

    /// Close a region, release its slot, and shut its program down.
    pub fn close_region(&mut self, region_id: &str) -> (closed: bool)
        ensures
            closed == (first_picked(old(self)@.regions, with_id(region_id@)) is Some),
            final(self)@ == old(self)@.closed_by_id(region_id@),
            old(self).regions.wf() ==> final(self).regions.wf(),
    {
        match self.regions.remove_by_id(region_id) {
            Some(region) => {
                self.release_region_runtime(&region);
                self.mark_changed();
                true
            },
            None => false,
        }
    }

    /// Close every region owned by one plugin, for disable or unlink.
    pub fn close_regions_for_plugin(&mut self, plugin_id: &str) -> (closed: usize)
        ensures
            closed == old(self)@.regions_of(plugin_id@).len(),
            final(self)@ == old(self)@.closed_for_plugin(plugin_id@),
            old(self).regions.wf() ==> final(self).regions.wf(),
    {
        let closed = self.regions.remove_by_plugin(plugin_id);
        let ghost removed = views(closed@);
        if closed.len() == 0 {
            proof {
                removing_a_plugin_without_regions_changes_nothing(old(self)@.regions, plugin_id@);
            }
            return 0;
        }
        let ghost start = self@;
        let ghost slots = self.regions;
        let mut next: usize = 0;
        assert(removed.take(0) =~= Seq::empty());
        while next < closed.len()
            invariant
                next <= closed@.len(),
                removed == views(closed@),
                self@ == start.all_released(removed.take(next as int)),
                self.regions == slots,
            decreases closed@.len() - next,
        {
            self.release_region_runtime(&closed[next]);
            next += 1;
            proof {
                assert(removed.take(next as int).drop_last() =~= removed.take(next - 1));
                assert(removed.take(next as int).last() == removed[next - 1]);
            }
        }
        assert(removed.take(next as int) =~= removed);
        self.mark_changed();
        closed.len()
    }

    /// The terminal of the region that a pane shows.
    pub fn terminal_of_pane(&self, pane_id: PaneId) -> (terminal: Option<TerminalId>)
        ensures
            terminal == match self@.shown_by(pane_id) {
                Some(region) => Some(region.terminal_id),
                None => None,
            },
    {
        match self.regions.find_by_pane(pane_id) {
            Some(region) => Some(region.terminal_id),
            None => None,
        }
    }

    /// Close the region whose program exited, if the pane belongs to one.
    ///
    /// `exit_code` is what the runtime knows of the program's end. Returns the
    /// closed region's id, so the caller can report the exit. A non-zero exit
    /// raises a toast naming the plugin and status; there is no restart loop,
    /// because a region that fails on startup would otherwise respawn forever.
    pub fn close_region_for_exited_pane(
        &mut self,
        pane_id: PaneId,
        exit_code: Option<i32>,
    ) -> (closed: Option<String>)
        ensures
            optional_text(closed) == match old(self)@.shown_by(pane_id) {
                Some(region) => Some(region.region_id),
                None => None,
            },
            final(self)@ == old(self)@.pane_exited(pane_id, exit_code),
            old(self).regions.wf() ==> final(self).regions.wf(),
    {
        let (region_id, plugin_id, title) = match self.regions.find_by_pane(pane_id) {
            Some(region) => (
                region.region_id.to_string(),
                region.plugin_id.clone(),
                region.title.clone(),
            ),
            None => return None,
        };
        proof {
            a_search_gives_the_first_match(self@.regions, in_pane(pane_id));
            a_search_gives_the_first_match(self@.regions, with_id(region_id@));
        }
        if !self.close_region(region_id.as_str()) {
            return None;
        }
        match exit_code {
            Some(code) => {
                if code != 0 {
                    let mut heading = title;
                    heading.append(" closed");
                    let mut context = plugin_id;
                    context.append(" exited with status ");
                    context.append(decimal(code).as_str());
                    // No target: a region is not a pane, so there is nothing to
                    // focus when the toast is clicked.
                    self.toast = Some(
                        ToastNotification {
                            kind: ToastKind::NeedsAttention,
                            title: heading,
                            context,
                            position: None,
                            target: None,
                        },
                    );
                    self.effects.redraw = true;
                }
            },
            None => {},
        }
        Some(region_id)
    }

    pub fn focus_region(&mut self, region_id: &str)
        ensures
            final(self)@ == old(self)@.focused(region_id@),
            old(self).regions.wf() ==> final(self).regions.wf(),
    {
        self.region_focus = Some(region_id.to_owned());
        self.effects.redraw = true;
    }
}

} // verus!
