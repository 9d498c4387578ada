//! Answering `region.open`, from the request to the open region.
//!
//! The host and the session take turns. The phase of an opening says what the
//! host has to do next; what came of it is the event that moves the opening on.

use vstd::prelude::*;

use crate::api::{
    check_view, error, report_view, ApiError, ErrorView, RegionOpenParams, ResolvedRegion, Response,
    ResponseView,
};
use crate::app::{App, AppView};
use crate::ids::{region_id_text, IdCounters, IdsView};
use crate::open::{env_view, launch_region, LaunchView, RegionLaunch, RegionRequest, RequestView};
use crate::plugin::{ManifestView, PluginView};
use crate::text::optional_text;

verus! {

/// How far a request to open a region has come.
#[derive(Debug)]
pub enum OpenPhase {
    /// The plugin registry is to be refreshed and the request's names put in
    /// normal form.
    Asked,
    /// The platforms that the region supports are to be checked.
    Resolved(ResolvedRegion),
    /// The working directory and the environment are to be found.
    Admitted(RegionRequest),
    /// The program is to be started.
    Launched(RegionLaunch),
    /// The answer is to be sent.
    Answered(Response),
}

/// What a phase is.
pub enum PhaseView {
    Asked,
    Resolved(PluginView, ManifestView),
    Admitted(RequestView),
    Launched(LaunchView),
    Answered(ResponseView),
}

impl View for OpenPhase {
    type V = PhaseView;

    open spec fn view(&self) -> PhaseView {
        match *self {
            OpenPhase::Asked => PhaseView::Asked,
            OpenPhase::Resolved(resolved) => PhaseView::Resolved(
                resolved.plugin@,
                resolved.manifest@,
            ),
            OpenPhase::Admitted(request) => PhaseView::Admitted(request@),
            OpenPhase::Launched(launch) => PhaseView::Launched(launch@),
            OpenPhase::Answered(response) => PhaseView::Answered(response@),
        }
    }
}

/// One request to open a region.
#[derive(Debug)]
pub struct RegionOpening {
    /// Identifier of the request.
    pub(crate) id: String,
    /// The size that the request asks for.
    pub(crate) size: Option<u16>,
    /// Whether the request asks for keyboard focus.
    pub(crate) focus: bool,
    pub(crate) phase: OpenPhase,
}

/// What an opening is.
pub struct OpeningView {
    pub id: Seq<char>,
    pub size: Option<u16>,
    pub focus: bool,
    pub phase: PhaseView,
}

impl View for RegionOpening {
    type V = OpeningView;

    open(crate) spec fn view(&self) -> OpeningView {
        OpeningView { id: self.id@, size: self.size, focus: self.focus, phase: self.phase@ }
    }
}

/// What the host reports.
#[derive(Debug)]
pub enum OpenEvent {
    /// What came of refreshing the registry, and the names in normal form.
    Named {
        refreshed: Result<(), String>,
        plugin_id: Option<String>,
        entrypoint: Option<String>,
    },
    /// What came of checking the platforms.
    PlatformChecked(Result<(), ApiError>),
    /// The rows of a pane in the current frame, the working directory, and what
    /// the environment projection gave.
    Prepared { rows: u16, cwd: String, env: Result<Vec<(String, String)>, ApiError> },
    /// What came of starting the program.
    Spawned(Result<(), String>),
}

/// What an event is.
pub enum EventView {
    Named {
        refreshed: Result<(), Seq<char>>,
        plugin_id: Option<Seq<char>>,
        entrypoint: Option<Seq<char>>,
    },
    PlatformChecked(Result<(), ErrorView>),
    Prepared {
        rows: u16,
        cwd: Seq<char>,
        env: Result<Seq<(Seq<char>, Seq<char>)>, ErrorView>,
    },
    Spawned(Result<(), Seq<char>>),
}

/// What an environment projection gave.
pub open spec fn projection_view(env: Result<Vec<(String, String)>, ApiError>) -> Result<
    Seq<(Seq<char>, Seq<char>)>,
    ErrorView,
> {
    match env {
        Ok(env) => Ok(env_view(env@)),
        Err(error) => Err(error@),
    }
}

impl View for OpenEvent {
    type V = EventView;

    open spec fn view(&self) -> EventView {
        match *self {
            OpenEvent::Named { refreshed, plugin_id, entrypoint } => EventView::Named {
                refreshed: report_view(refreshed),
                plugin_id: optional_text(plugin_id),
                entrypoint: optional_text(entrypoint),
            },
            OpenEvent::PlatformChecked(checked) => EventView::PlatformChecked(
                check_view(checked),
            ),
            OpenEvent::Prepared { rows, cwd, env } => EventView::Prepared {
                rows,
                cwd: cwd@,
                env: projection_view(env),
            },
            OpenEvent::Spawned(spawned) => EventView::Spawned(report_view(spawned)),
        }
    }
}

/// The message of an environment projection's error.
pub open spec fn projection_message(error: ErrorView) -> Seq<char> {
    error.code + ": "@ + error.message
}

impl OpeningView {
    /// The opening in another phase.
    pub open spec fn in_phase(self, phase: PhaseView) -> OpeningView {
        OpeningView { phase, ..self }
    }

    /// The opening, refused.
    pub open spec fn refused(self, error: ErrorView) -> OpeningView {
        self.in_phase(PhaseView::Answered(ResponseView { id: self.id, outcome: Err(error) }))
    }
}

impl AppView {
    /// The session, the counters and the opening after an event. `region_id` is
    /// the identifier that a region is opened under. An event that the phase
    /// does not wait for changes nothing.
    pub open spec fn opening_step(
        self,
        ids: IdsView,
        opening: OpeningView,
        event: EventView,
        region_id: Seq<char>,
    ) -> (AppView, IdsView, OpeningView) {
        match (opening.phase, event) {
            (PhaseView::Asked, EventView::Named { refreshed, plugin_id, entrypoint }) => (
                self,
                ids,
                match self.resolved(refreshed, plugin_id, entrypoint) {
                    Ok((plugin, manifest)) => opening.in_phase(
                        PhaseView::Resolved(plugin, manifest),
                    ),
                    Err(error) => opening.refused(error),
                },
            ),
            (PhaseView::Resolved(plugin, manifest), EventView::PlatformChecked(platform)) => (
                self,
                ids,
                match self.admitted(plugin, manifest, platform, opening.size, opening.focus) {
                    Ok(request) => opening.in_phase(PhaseView::Admitted(request)),
                    Err(error) => opening.refused(error),
                },
            ),
            (PhaseView::Admitted(request), EventView::Prepared { rows, cwd, env }) => match env {
                Ok(env) => (
                    self,
                    ids.launching(),
                    opening.in_phase(
                        PhaseView::Launched(LaunchView::prepared(ids, request, rows, cwd, env)),
                    ),
                ),
                Err(failed) => (
                    self,
                    ids,
                    opening.refused(error("region_open_failed"@, projection_message(failed))),
                ),
            },
            (PhaseView::Launched(launch), EventView::Spawned(spawned)) => match spawned {
                Ok(_) => {
                    let after = self.placed(launch, region_id);
                    let opened = if self.regions.contains_key(launch.request.manifest.anchor) {
                        Err("region slot occupied"@)
                    } else {
                        Ok(region_id)
                    };
                    (
                        after,
                        ids.identified(),
                        opening.in_phase(
                            PhaseView::Answered(after.open_answer(opening.id, opened)),
                        ),
                    )
                },
                Err(message) => (
                    self,
                    ids,
                    opening.refused(error("region_open_failed"@, message)),
                ),
            },
            _ => (self, ids, opening),
        }
    }
}

impl RegionOpening {
    pub fn new(id: String, params: &RegionOpenParams) -> (opening: RegionOpening)
        ensures
            opening@ == (OpeningView {
                id: id@,
                size: params.size,
                focus: params.focus,
                phase: PhaseView::Asked,
            }),
    {
        RegionOpening { id, size: params.size, focus: params.focus, phase: OpenPhase::Asked }
    }

    /// How far the request has come, and so what the host has to do next.
    pub fn phase(&self) -> (phase: &OpenPhase)
        ensures
            phase@ == self@.phase,
    {
        &self.phase
    }

    /// The phase, at the end of the request.
    pub fn into_phase(self) -> (phase: OpenPhase)
        ensures
            phase@ == self@.phase,
    {
        self.phase
    }

    fn refuse(self, error: ApiError) -> (refused: RegionOpening)
        ensures
            refused@ == self@.refused(error@),
    {
        let id = self.id.clone();
        RegionOpening {
            id: self.id,
            size: self.size,
            focus: self.focus,
            phase: OpenPhase::Answered(Response { id, outcome: Err(error) }),
        }
    }

    fn fail(self, message: String) -> (failed: RegionOpening)
        ensures
            failed@ == self@.refused(error("region_open_failed"@, message@)),
    {
        self.refuse(ApiError { code: "region_open_failed".to_owned(), message })
    }
}

impl App {
    /// Move a `region.open` request on by what the host reports.
    ///
    /// The identifier of a region that is opened rests on the clock, and is
    /// known up to its reading; nothing else does.
    pub fn handle_region_open(
        &mut self,
        ids: &mut IdCounters,
        opening: RegionOpening,
        event: OpenEvent,
    ) -> (moved: RegionOpening)
        ensures
            exists|micros: u128|
                (final(self)@, final(ids)@, moved@) == old(self)@.opening_step(
                    old(ids)@,
                    opening@,
                    event@,
                    #[trigger] region_id_text(micros, old(ids)@.region),
                ),
            old(self).regions.wf() ==> final(self).regions.wf(),
    {
        let RegionOpening { id, size, focus, phase } = opening;
        // Only a region that is opened takes an identifier; any text serves otherwise.
        let ghost unused_id = region_id_text(0, old(ids)@.region);
        match (phase, event) {
            (OpenPhase::Asked, OpenEvent::Named { refreshed, plugin_id, entrypoint }) => {
                match self.resolve_region_open(refreshed, plugin_id, entrypoint) {
                    Ok(resolved) => RegionOpening {
                        id,
                        size,
                        focus,
                        phase: OpenPhase::Resolved(resolved),
                    },
                    Err(error) => RegionOpening { id, size, focus, phase: OpenPhase::Asked }.refuse(
                        error,
                    ),
                }
            },
            (OpenPhase::Resolved(resolved), OpenEvent::PlatformChecked(platform)) => {
                match self.admit_region_open(resolved, platform, size, focus) {
                    Ok(request) => RegionOpening {
                        id,
                        size,
                        focus,
                        phase: OpenPhase::Admitted(request),
                    },
                    Err(error) => RegionOpening { id, size, focus, phase: OpenPhase::Asked }.refuse(
                        error,
                    ),
                }
            },
            (OpenPhase::Admitted(request), OpenEvent::Prepared { rows, cwd, env }) => {
                match launch_region(ids, request, rows, cwd, env) {
                    Ok(launch) => RegionOpening {
                        id,
                        size,
                        focus,
                        phase: OpenPhase::Launched(launch),
                    },
                    Err(message) => RegionOpening { id, size, focus, phase: OpenPhase::Asked }.fail(
                        message,
                    ),
                }
            },
            (OpenPhase::Launched(launch), OpenEvent::Spawned(spawned)) => {
                let opened = self.attach_region(ids, launch, spawned);
                let response = self.answer_region_open(id.clone(), opened);
                RegionOpening { id, size, focus, phase: OpenPhase::Answered(response) }
            },
            (phase, _) => RegionOpening { id, size, focus, phase },
        }
    }
}

} // verus!
