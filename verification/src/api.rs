//! `region.*` API handlers.
//!
//! These handlers own the slot: they validate the request against the owning
//! plugin's manifest, clamp every size server-side, and keep the
//! one-region-per-slot invariant.

use vstd::prelude::*;

use crate::app::{App, AppView};
use crate::ids::RegionId;
use crate::open::{RegionRequest, RequestView};
use crate::plugin::{declared_region, InstalledPluginInfo, ManifestView, PluginManifestRegion, PluginView};
use crate::region::{
    RegionAnchor, RegionInstance, RegionScope, RegionSizeBounds, RegionView, SizeRange,
    DEFAULT_REGION_SIZE,
};
use crate::state::{any_region, first_picked, picked, ref_views, regions_at, with_id};
use crate::text::{is_text, optional_text};

verus! {

/// What an error says.
#[verifier::ext_equal]
pub struct ErrorView {
    pub code: Seq<char>,
    pub message: Seq<char>,
}

/// An error with a stable code and a message for people.
#[derive(Debug, PartialEq, Eq)]
pub struct ApiError {
    pub code: String,
    pub message: String,
}

impl View for ApiError {
    type V = ErrorView;

    open spec fn view(&self) -> ErrorView {
        ErrorView { code: self.code@, message: self.message@ }
    }
}

/// The error with a code and a message.
pub open spec fn error(code: Seq<char>, message: Seq<char>) -> ErrorView {
    ErrorView { code, message }
}

fn api_error(code: &str, message: &str) -> (made: ApiError)
    ensures
        made@ == error(code@, message@),
{
    ApiError { code: code.to_owned(), message: message.to_owned() }
}

/// What the API tells of one region.
#[verifier::ext_equal]
pub struct RegionInfoView {
    pub region_id: Seq<char>,
    pub plugin_id: Seq<char>,
    pub entrypoint: Seq<char>,
    pub title: Seq<char>,
    pub anchor: RegionAnchor,
    pub scope: RegionScope,
    pub size: u16,
    pub min_size: u16,
    pub max_size: u16,
    pub visible: bool,
    pub focused: bool,
}

/// One region, as the API tells of it.
#[derive(Debug, PartialEq, Eq)]
pub struct RegionInfo {
    pub region_id: String,
    pub plugin_id: String,
    pub entrypoint: String,
    pub title: String,
    pub anchor: RegionAnchor,
    pub scope: RegionScope,
    pub size: u16,
    pub min_size: u16,
    pub max_size: u16,
    pub visible: bool,
    pub focused: bool,
}

impl View for RegionInfo {
    type V = RegionInfoView;

    open spec fn view(&self) -> RegionInfoView {
        RegionInfoView {
            region_id: self.region_id@,
            plugin_id: self.plugin_id@,
            entrypoint: self.entrypoint@,
            title: self.title@,
            anchor: self.anchor,
            scope: self.scope,
            size: self.size,
            min_size: self.min_size,
            max_size: self.max_size,
            visible: self.visible,
            focused: self.focused,
        }
    }
}

/// What the API tells of a region while `focus` has keyboard focus.
pub open spec fn info_of(region: RegionView, focus: Option<Seq<char>>) -> RegionInfoView {
    RegionInfoView {
        region_id: region.region_id,
        plugin_id: region.plugin_id,
        entrypoint: region.entrypoint,
        title: region.title,
        anchor: region.anchor,
        scope: region.scope,
        size: region.size,
        min_size: region.bounds.min,
        max_size: region.bounds.max,
        visible: region.visible,
        focused: focus == Some(region.region_id),
    }
}

/// What the API tells of some regions.
pub open spec fn infos_of(regions: Seq<RegionView>, focus: Option<Seq<char>>) -> Seq<
    RegionInfoView,
> {
    regions.map_values(|region: RegionView| info_of(region, focus))
}

/// What some entries of the API's list say.
pub open spec fn info_views(infos: Seq<RegionInfo>) -> Seq<RegionInfoView> {
    infos.map_values(|info: RegionInfo| info@)
}

/// Describe a region to a caller.
pub fn region_info(region: &RegionInstance, focus: &Option<String>) -> (info: RegionInfo)
    ensures
        info@ == info_of(region@, optional_text(*focus)),
        info.size == region@.size,
        info.min_size == region@.bounds.min,
        info.max_size == region@.bounds.max,
        info.visible == region@.visible,
        info.focused <==> optional_text(*focus) == Some(info.region_id@),
{
    let bounds = region.bounds();
    RegionInfo {
        region_id: region.region_id.to_string(),
        plugin_id: region.plugin_id.clone(),
        entrypoint: region.entrypoint.clone(),
        title: region.title.clone(),
        anchor: region.anchor,
        scope: region.scope,
        size: region.size(),
        min_size: bounds.min(),
        max_size: bounds.max(),
        visible: region.visible,
        focused: is_text(focus, region.region_id.as_str()),
    }
}

/// A successful answer.
#[derive(Debug, PartialEq, Eq)]
pub enum ResponseResult {
    RegionOpened { region: RegionInfo },
    RegionClosed { region_id: String },
    RegionFocused { region: RegionInfo },
    RegionResized { region: RegionInfo },
    RegionList { regions: Vec<RegionInfo> },
}

/// What a successful answer says.
pub enum ResultView {
    RegionOpened { region: RegionInfoView },
    RegionClosed { region_id: Seq<char> },
    RegionFocused { region: RegionInfoView },
    RegionResized { region: RegionInfoView },
    RegionList { regions: Seq<RegionInfoView> },
}

impl View for ResponseResult {
    type V = ResultView;

    open spec fn view(&self) -> ResultView {
        match *self {
            ResponseResult::RegionOpened { region } => ResultView::RegionOpened {
                region: region@,
            },
            ResponseResult::RegionClosed { region_id } => ResultView::RegionClosed {
                region_id: region_id@,
            },
            ResponseResult::RegionFocused { region } => ResultView::RegionFocused {
                region: region@,
            },
            ResponseResult::RegionResized { region } => ResultView::RegionResized {
                region: region@,
            },
            ResponseResult::RegionList { regions } => ResultView::RegionList {
                regions: info_views(regions@),
            },
        }
    }
}

/// The answer to one request.
#[derive(Debug, PartialEq, Eq)]
pub struct Response {
    /// Identifier of the request.
    pub id: String,
    pub outcome: Result<ResponseResult, ApiError>,
}

/// What an answer says.
pub struct ResponseView {
    pub id: Seq<char>,
    pub outcome: Result<ResultView, ErrorView>,
}

impl View for Response {
    type V = ResponseView;

    open spec fn view(&self) -> ResponseView {
        ResponseView {
            id: self.id@,
            outcome: match self.outcome {
                Ok(result) => Ok(result@),
                Err(error) => Err(error@),
            },
        }
    }
}

/// The refusal of a request.
pub open spec fn refusal(id: Seq<char>, code: Seq<char>, message: Seq<char>) -> ResponseView {
    ResponseView { id, outcome: Err(error(code, message)) }
}

/// The success of a request.
pub open spec fn success(id: Seq<char>, result: ResultView) -> ResponseView {
    ResponseView { id, outcome: Ok(result) }
}

fn refuse(id: String, code: &str, message: &str) -> (response: Response)
    ensures
        response@ == refusal(id@, code@, message@),
{
    Response { id, outcome: Err(api_error(code, message)) }
}

fn succeed(id: String, result: ResponseResult) -> (response: Response)
    ensures
        response@ == success(id@, result@),
{
    Response { id, outcome: Ok(result) }
}

/// Parameters of `region.open`.
#[derive(Debug)]
pub struct RegionOpenParams {
    pub plugin_id: String,
    pub entrypoint: String,
    pub size: Option<u16>,
    pub cwd: Option<String>,
    pub focus: bool,
    pub env: Vec<(String, String)>,
}

/// Parameters of the requests that name one region.
#[derive(Debug)]
pub struct RegionTarget {
    pub region_id: String,
}

/// Parameters of `region.resize`.
#[derive(Debug)]
pub struct RegionResizeParams {
    pub region_id: String,
    pub size: u16,
}

/// A plugin and the region of it that a request names.
#[derive(Debug)]
pub struct ResolvedRegion {
    pub plugin: InstalledPluginInfo,
    pub manifest: PluginManifestRegion,
}

/// The first of the sizes that is given, in order of precedence.
pub open spec fn preferred_size(
    explicit: Option<u16>,
    configured: Option<u16>,
    declared: Option<u16>,
) -> u16 {
    match (explicit, configured, declared) {
        (Some(size), _, _) => size,
        (None, Some(size), _) => size,
        (None, None, Some(size)) => size,
        (None, None, None) => DEFAULT_REGION_SIZE,
    }
}

impl AppView {
    /// The plugin and the manifest entry that a request names, or why it is
    /// refused.
    pub open spec fn resolved(
        self,
        refreshed: Result<(), Seq<char>>,
        plugin_id: Option<Seq<char>>,
        entrypoint: Option<Seq<char>>,
    ) -> Result<(PluginView, ManifestView), ErrorView> {
        match (refreshed, plugin_id) {
            (Err(message), _) => Err(error("plugin_registry_load_failed"@, message)),
            (Ok(_), None) => Err(error("invalid_plugin_id"@, "invalid plugin id"@)),
            (Ok(_), Some(id)) => if !self.plugins.contains_key(id) {
                Err(error("plugin_not_found"@, "plugin not found"@))
            } else if !self.plugins[id].enabled {
                Err(error("plugin_disabled"@, "plugin "@ + id + " is disabled"@))
            } else {
                match entrypoint {
                    None => Err(
                        error("invalid_plugin_entrypoint"@, "invalid entrypoint id"@),
                    ),
                    Some(entrypoint) => match declared_region(
                        self.plugins[id].regions,
                        entrypoint,
                    ) {
                        Some(manifest) => Ok((self.plugins[id], manifest)),
                        None => Err(
                            error(
                                "plugin_region_not_found"@,
                                "plugin region entrypoint '"@ + entrypoint + "' not found"@,
                            ),
                        ),
                    },
                }
            },
        }
    }

    /// The request for a resolved region, or why it is refused.
    pub open spec fn admitted(
        self,
        plugin: PluginView,
        manifest: ManifestView,
        platform: Result<(), ErrorView>,
        size: Option<u16>,
        focus: bool,
    ) -> Result<RequestView, ErrorView> {
        match platform {
            Err(unsupported) => Err(unsupported),
            Ok(_) => if !self.config.right.enabled {
                Err(
                    error(
                        "region_anchor_disabled"@,
                        "the right region is disabled by configuration"@,
                    ),
                )
            } else if self.regions.contains_key(manifest.anchor) {
                Err(
                    error(
                        "region_slot_occupied"@,
                        "a region is already open at this anchor and scope"@,
                    ),
                )
            } else {
                Ok(
                    RequestView {
                        plugin_id: plugin.plugin_id,
                        manifest,
                        bounds: SizeRange::declared(manifest.min_size, manifest.max_size),
                        size: preferred_size(size, self.config.right.size, manifest.size),
                        focus,
                    },
                )
            },
        }
    }

    /// The answer to a request whose region was opened, or was not.
    pub open spec fn open_answer(
        self,
        id: Seq<char>,
        opened: Result<Seq<char>, Seq<char>>,
    ) -> ResponseView {
        match opened {
            Ok(region_id) => match first_picked(self.regions, with_id(region_id)) {
                Some(anchor) => success(
                    id,
                    ResultView::RegionOpened {
                        region: info_of(self.regions[anchor], self.region_focus),
                    },
                ),
                None => refusal(id, "region_open_failed"@, "region disappeared after open"@),
            },
            Err(message) => refusal(id, "region_open_failed"@, message),
        }
    }

    /// The session and the answer after a request to close a region.
    pub open spec fn close_answer(self, id: Seq<char>, region_id: Seq<char>) -> (
        AppView,
        ResponseView,
    ) {
        (
            self.closed_by_id(region_id),
            match first_picked(self.regions, with_id(region_id)) {
                Some(_) => success(id, ResultView::RegionClosed { region_id }),
                None => refusal(id, "region_not_found"@, "no region with that id is open"@),
            },
        )
    }

    /// The answer to a request to list the live regions.
    pub open spec fn list_answer(self, id: Seq<char>) -> ResponseView {
        success(
            id,
            ResultView::RegionList {
                regions: infos_of(
                    regions_at(self.regions, picked(self.regions, any_region())),
                    self.region_focus,
                ),
            },
        )
    }

    /// The session and the answer after a request to focus a region.
    pub open spec fn focus_answer(self, id: Seq<char>, region_id: Seq<char>) -> (
        AppView,
        ResponseView,
    ) {
        match first_picked(self.regions, with_id(region_id)) {
            None => (
                self,
                refusal(id, "region_not_found"@, "no region with that id is open"@),
            ),
            Some(anchor) => if !self.regions[anchor].visible {
                (
                    self,
                    refusal(
                        id,
                        "region_hidden"@,
                        "a hidden region cannot take keyboard focus"@,
                    ),
                )
            } else {
                (
                    self.focused(region_id),
                    success(
                        id,
                        ResultView::RegionFocused {
                            region: info_of(self.regions[anchor], Some(region_id)),
                        },
                    ),
                )
            },
        }
    }

    /// The session and the answer after a request to resize a region.
    pub open spec fn resize_answer(self, id: Seq<char>, region_id: Seq<char>, size: u16) -> (
        AppView,
        ResponseView,
    ) {
        match first_picked(self.regions, with_id(region_id)) {
            None => (
                self,
                refusal(id, "region_not_found"@, "no region with that id is open"@),
            ),
            Some(anchor) => {
                let resized = self.regions[anchor].resized(size);
                (
                    AppView { regions: self.regions.insert(anchor, resized), ..self }.changed(),
                    success(
                        id,
                        ResultView::RegionResized { region: info_of(resized, self.region_focus) },
                    ),
                )
            },
        }
    }
}

/// What the host reports of its work: that it is done, or why it failed.
pub open spec fn report_view(report: Result<(), String>) -> Result<(), Seq<char>> {
    match report {
        Ok(_) => Ok(()),
        Err(message) => Err(message@),
    }
}

/// What came of a check.
pub open spec fn check_view(checked: Result<(), ApiError>) -> Result<(), ErrorView> {
    match checked {
        Ok(_) => Ok(()),
        Err(error) => Err(error@),
    }
}

impl App {
    /// Find the plugin and the region that a `region.open` request names.
    ///
    /// `refreshed` is what came of refreshing the plugin registry; `plugin_id`
    /// and `entrypoint` are the request's names in normal form, where they have
    /// one. A plugin may only open regions declared in its own manifest.
    pub fn resolve_region_open(
        &self,
        refreshed: Result<(), String>,
        plugin_id: Option<String>,
        entrypoint: Option<String>,
    ) -> (resolved: Result<ResolvedRegion, ApiError>)
        ensures
            match self@.resolved(
                report_view(refreshed),
                optional_text(plugin_id),
                optional_text(entrypoint),
            ) {
                Ok((plugin, manifest)) => {
                    &&& resolved matches Ok(found)
                    &&& found.plugin@ == plugin
                    &&& found.manifest@ == manifest
                    &&& optional_text(plugin_id) == Some(found.plugin.plugin_id@)
                },
                Err(error) => resolved matches Err(refused) && refused@ == error,
            },
    {
        match refreshed {
            Ok(_) => {},
            Err(message) => {
                return Err(api_error("plugin_registry_load_failed", message.as_str()));
            },
        }
        let plugin_id = match plugin_id {
            Some(plugin_id) => plugin_id,
            None => return Err(api_error("invalid_plugin_id", "invalid plugin id")),
        };
        let plugin = match self.installed_plugins.get(plugin_id.as_str()) {
            Some(plugin) => plugin,
            None => return Err(api_error("plugin_not_found", "plugin not found")),
        };
        if !plugin.enabled {
            let mut message = "plugin ".to_owned();
            message.append(plugin_id.as_str());
            message.append(" is disabled");
            return Err(api_error("plugin_disabled", message.as_str()));
        }
        let entrypoint = match entrypoint {
            Some(entrypoint) => entrypoint,
            None => {
                return Err(api_error("invalid_plugin_entrypoint", "invalid entrypoint id"));
            },
        };
        match plugin.region(entrypoint.as_str()) {
            Some(manifest) => Ok(
                ResolvedRegion { plugin: plugin.clone(), manifest: manifest.clone() },
            ),
            None => {
                let mut message = "plugin region entrypoint '".to_owned();
                message.append(entrypoint.as_str());
                message.append("' not found");
                Err(api_error("plugin_region_not_found", message.as_str()))
            },
        }
    }

    /// Admit a resolved `region.open` request, with its bounds and its size.
    ///
    /// `platform` is what came of checking the platforms that the region
    /// supports. The slot invariant: a second open is an error, never a silent
    /// replace.
    pub fn admit_region_open(
        &self,
        resolved: ResolvedRegion,
        platform: Result<(), ApiError>,
        size: Option<u16>,
        focus: bool,
    ) -> (request: Result<RegionRequest, ApiError>)
        ensures
            match self@.admitted(
                resolved.plugin@,
                resolved.manifest@,
                check_view(platform),
                size,
                focus,
            ) {
                Ok(admitted) => request matches Ok(request) && request@ == admitted,
                Err(error) => request matches Err(refused) && refused@ == error,
            },
    {
        match platform {
            Ok(_) => {},
            Err(unsupported) => return Err(unsupported),
        }
        let manifest = resolved.manifest;
        let config = self.regions_config.right;
        if !config.enabled {
            return Err(
                api_error(
                    "region_anchor_disabled",
                    "the right region is disabled by configuration",
                ),
            );
        }
        if self.regions.get(manifest.anchor).is_some() {
            return Err(
                api_error(
                    "region_slot_occupied",
                    "a region is already open at this anchor and scope",
                ),
            );
        }
        // Bounds come from the manifest and are clamped into absolute limits by
        // RegionSizeBounds, so neither the manifest nor this caller can widen
        // them, zero the region, or make it consume the frame.
        let bounds = RegionSizeBounds::new(manifest.min_size, manifest.max_size);
        // An explicit request wins, then user config, then the manifest's
        // preferred size, then the built-in default.
        let requested: u16 = match size {
            Some(size) => size,
            None => match config.size {
                Some(size) => size,
                None => manifest.size.unwrap_or(DEFAULT_REGION_SIZE),
            },
        };
        Ok(
            RegionRequest {
                plugin_id: resolved.plugin.plugin_id,
                manifest,
                bounds,
                size: requested,
                focus,
            },
        )
    }

    /// Answer a `region.open` request once its region was opened, or was not.
    pub fn answer_region_open(&self, id: String, opened: Result<RegionId, String>) -> (response:
        Response)
        ensures
            response@ == self@.open_answer(
                id@,
                match opened {
                    Ok(region_id) => Ok(region_id@),
                    Err(message) => Err(message@),
                },
            ),
    {
        match opened {
            Ok(region_id) => match self.regions.get_by_id(region_id.as_str()) {
                Some(region) => {
                    let info = region_info(region, &self.region_focus);
                    succeed(id, ResponseResult::RegionOpened { region: info })
                },
                None => refuse(id, "region_open_failed", "region disappeared after open"),
            },
            Err(message) => refuse(id, "region_open_failed", message.as_str()),
        }
    }

    pub fn handle_region_close(&mut self, id: String, params: RegionTarget) -> (response: Response)
        ensures
            (final(self)@, response@) == old(self)@.close_answer(id@, params.region_id@),
            old(self).regions.wf() ==> final(self).regions.wf(),
    {
        if self.close_region(params.region_id.as_str()) {
            succeed(id, ResponseResult::RegionClosed { region_id: params.region_id })
        } else {
            refuse(id, "region_not_found", "no region with that id is open")
        }
    }

    pub fn handle_region_focus(&mut self, id: String, params: RegionTarget) -> (response: Response)
        ensures
            (final(self)@, response@) == old(self)@.focus_answer(id@, params.region_id@),
            old(self).regions.wf() ==> final(self).regions.wf(),
    {
        match self.regions.get_by_id(params.region_id.as_str()) {
            Some(region) => {
                if !region.visible {
                    return refuse(
                        id,
                        "region_hidden",
                        "a hidden region cannot take keyboard focus",
                    );
                }
            },
            None => {
                return refuse(id, "region_not_found", "no region with that id is open");
            },
        }
        self.focus_region(params.region_id.as_str());
        match self.regions.get_by_id(params.region_id.as_str()) {
            Some(region) => {
                let info = region_info(region, &self.region_focus);
                succeed(id, ResponseResult::RegionFocused { region: info })
            },
            None => refuse(id, "region_not_found", "no region with that id is open"),
        }
    }

    pub fn handle_region_resize(&mut self, id: String, params: RegionResizeParams) -> (response:
        Response)
        ensures
            (final(self)@, response@) == old(self)@.resize_answer(
                id@,
                params.region_id@,
                params.size,
            ),
            old(self).regions.wf() ==> final(self).regions.wf(),
    {
        let info = match self.regions.get_by_id_mut(params.region_id.as_str()) {
            Some(region) => {
                // Clamped into the region's server-owned bounds; an out-of-range
                // value is applied as the nearest allowed size, never accepted
                // as given.
                region.set_size(params.size);
                region_info(region, &self.region_focus)
            },
            None => {
                return refuse(id, "region_not_found", "no region with that id is open");
            },
        };
        self.mark_changed();
        succeed(id, ResponseResult::RegionResized { region: info })
    }

    pub fn handle_region_list(&self, id: String) -> (response: Response)
        ensures
            response@ == self@.list_answer(id@),
    {
        let live = self.regions.iter();
        let ghost listed = ref_views(live@);
        let mut regions: Vec<RegionInfo> = Vec::new();
        let mut next: usize = 0;
        while next < live.len()
            invariant
                next <= live@.len(),
                listed == ref_views(live@),
                info_views(regions@) == infos_of(listed.take(next as int), self@.region_focus),
            decreases live@.len() - next,
        {
            let ghost before = listed.take(next as int);
            regions.push(region_info(live[next], &self.region_focus));
            next += 1;
            proof {
                assert(listed.take(next as int) =~= before.push(listed[next - 1]));
                assert(infos_of(listed.take(next as int), self@.region_focus) =~= infos_of(
                    before,
                    self@.region_focus,
                ).push(info_of(listed[next - 1], self@.region_focus)));
                assert(info_views(regions@) =~= infos_of(
                    listed.take(next as int),
                    self@.region_focus,
                ));
            }
        }
        assert(listed.take(next as int) =~= listed);
        succeed(id, ResponseResult::RegionList { regions })
    }
}

} // verus!
