//! What each operation does, told by what goes in and what comes out.

use vstd::prelude::*;

use crate::api::{ErrorView, RegionInfoView, ResponseView, ResultView};
use crate::app::{AppView, ToastKind};
use crate::geometry::{REGION_SIZE_CEILING, REGION_SIZE_FLOOR};
use crate::ids::{IdsView, PaneId, TerminalId};
use crate::open::{LaunchView, RequestView};
use crate::opening::{EventView, OpeningView, PhaseView};
use crate::plugin::{
    only_declared_regions_are_found, the_first_declared_region_is_found, ManifestView, PluginView,
};
use crate::region::{
    RegionAnchor, RegionView, SizeRange, DEFAULT_REGION_MAX_SIZE, DEFAULT_REGION_MIN_SIZE,
    DEFAULT_REGION_SIZE,
};
use crate::restore::{
    RestoreDrop, RestoreEventView, RestorePhaseView, RestoreView, SnapshotView,
};
use crate::state::{
    a_plugin_loses_exactly_its_own_regions, a_region_is_found_by_its_identifier,
    a_region_is_found_by_its_pane, any_region, every_live_region_is_gone_through, first_picked,
    in_pane, of_plugin, picked, regions_at,
    shown_size_of, slot_of, stand_in_order, with_id, without, Slots,
};
use crate::text::decimal_text;

verus! {

/// Whether `applied` is the size nearest to `wished` from `low` to `high`.
pub open spec fn is_nearest(applied: u16, wished: u16, low: u16, high: u16) -> bool {
    &&& low <= applied <= high
    &&& low <= wished <= high ==> applied == wished
    &&& wished < low ==> applied == low
    &&& wished > high ==> applied == high
}

/// Whether `bounds` are what a manifest's limits come to: the lower limit is the
/// declared one, or the default, as far as the absolute limits admit it; the
/// upper one likewise, and is not below the lower one.
pub open spec fn follow_from(bounds: SizeRange, min: Option<u16>, max: Option<u16>) -> bool {
    &&& min matches Some(min) ==> is_nearest(
        bounds.min,
        min,
        REGION_SIZE_FLOOR,
        REGION_SIZE_CEILING,
    )
    &&& min is None ==> bounds.min == DEFAULT_REGION_MIN_SIZE
    &&& max matches Some(max) ==> is_nearest(bounds.max, max, bounds.min, REGION_SIZE_CEILING)
    &&& max is None ==> is_nearest(
        bounds.max,
        DEFAULT_REGION_MAX_SIZE,
        bounds.min,
        REGION_SIZE_CEILING,
    )
}

/// Whether an entry tells what a region is, and whether it has focus.
pub open spec fn tells_of(
    entry: RegionInfoView,
    region: RegionView,
    focus: Option<Seq<char>>,
) -> bool {
    &&& entry.region_id == region.region_id
    &&& entry.plugin_id == region.plugin_id
    &&& entry.entrypoint == region.entrypoint
    &&& entry.title == region.title
    &&& entry.anchor == region.anchor
    &&& entry.scope == region.scope
    &&& entry.size == region.size
    &&& entry.min_size == region.bounds.min
    &&& entry.max_size == region.bounds.max
    &&& entry.visible == region.visible
    &&& entry.focused <==> focus == Some(region.region_id)
}

/// The sizes that stand in for what is not declared.
pub proof fn the_defaults_are_fixed()
    ensures
        DEFAULT_REGION_SIZE == 32,
        DEFAULT_REGION_MIN_SIZE == 8,
        DEFAULT_REGION_MAX_SIZE == 200,
{
}

/// Bounds come from the declared limits.
pub proof fn bounds_follow_from_the_declared_limits(min: Option<u16>, max: Option<u16>)
    ensures
        follow_from(SizeRange::declared(min, max), min, max),
{
}

/// A size is moved to the nearest one within the bounds.
pub proof fn bounds_give_the_nearest_size(bounds: SizeRange, size: u16)
    requires
        bounds.min <= bounds.max,
    ensures
        is_nearest(bounds.clamp(size), size, bounds.min, bounds.max),
{
}

/// A region that is resized has the nearest size within its bounds, and is
/// otherwise the same.
pub proof fn a_resized_region_keeps_all_but_its_size(region: RegionView, size: u16)
    requires
        region.bounds.min <= region.bounds.max,
    ensures
        is_nearest(region.resized(size).size, size, region.bounds.min, region.bounds.max),
        (RegionView { size: region.size, ..region.resized(size) }) == region,
{
}

proof fn lemma_found(slots: Slots, anchor: RegionAnchor)
    requires
        slots.contains_key(anchor),
    ensures
        first_picked(slots, with_id(slots[anchor].region_id)) == Some(
            anchor,
        ),
        slots[anchor].pane_id matches Some(pane_id) ==> first_picked(
            slots,
            in_pane(pane_id),
        ) == Some(anchor),
{
    a_region_is_found_by_its_identifier(slots, slots[anchor].region_id);
    if slots[anchor].pane_id is Some {
        a_region_is_found_by_its_pane(slots, slots[anchor].pane_id->0);
    }
}

/// Closing a live region frees its slot, drops its terminal with its resize lock
/// and has its program stopped. Focus leaves the region, and only it. The
/// session is to be saved and drawn, and nothing else changes.
pub proof fn closing_takes_the_region_and_what_is_its_own(
    app: AppView,
    id: Seq<char>,
    anchor: RegionAnchor,
)
    requires
        app.regions.contains_key(anchor),
    ensures
        ({
            let region = app.regions[anchor];
            let (after, response) = app.close_answer(id, region.region_id);
            &&& response.id == id
            &&& response.outcome == Ok::<ResultView, ErrorView>(
                ResultView::RegionClosed { region_id: region.region_id },
            )
            &&& after.regions == app.regions.remove(anchor)
            &&& after.terminals == app.terminals.remove(region.terminal_id.0)
            &&& after.resize_locks == app.resize_locks.remove(region.terminal_id.0)
            &&& after.stopping == app.stopping.push(region.terminal_id)
            &&& app.region_focus == Some(region.region_id) ==> after.region_focus is None
            &&& app.region_focus != Some(region.region_id) ==> after.region_focus
                == app.region_focus
            &&& after.session_dirty && after.redraw
            &&& after.toast == app.toast
            &&& after.plugins == app.plugins
            &&& after.config == app.config
            &&& after == app.closed_by_id(region.region_id)
        }),
{
    lemma_found(app.regions, anchor);
}

/// A request to close a region that is not open is refused and changes nothing.
pub proof fn closing_what_is_not_open_is_refused(app: AppView, id: Seq<char>, region_id: Seq<char>)
    requires
        forall|anchor: RegionAnchor| #[trigger]
            app.regions.contains_key(anchor) ==> app.regions[anchor].region_id != region_id,
    ensures
        app.close_answer(id, region_id) == (
            app,
            ResponseView {
                id,
                outcome: Err(
                    ErrorView {
                        code: "region_not_found"@,
                        message: "no region with that id is open"@,
                    },
                ),
            },
        ),
        app.closed_by_id(region_id) == app,
{
    a_region_is_found_by_its_identifier(app.regions, region_id);
}

/// A request to focus a live and visible region gives it focus, and is answered
/// with the region as it is, focused. The screen is to be drawn, and nothing
/// else changes.
pub proof fn a_visible_region_takes_focus(app: AppView, id: Seq<char>, anchor: RegionAnchor)
    requires
        app.regions.contains_key(anchor),
        app.regions[anchor].visible,
    ensures
        ({
            let region = app.regions[anchor];
            let (after, response) = app.focus_answer(id, region.region_id);
            &&& response.id == id
            &&& response.outcome matches Ok(ResultView::RegionFocused { region: entry })
            &&& tells_of(entry, region, Some(region.region_id))
            &&& after.region_focus == Some(region.region_id)
            &&& after.redraw
            &&& after == (AppView {
                region_focus: after.region_focus,
                redraw: after.redraw,
                ..app
            })
        }),
{
    lemma_found(app.regions, anchor);
}

/// A request to focus a hidden region is refused and changes nothing.
pub proof fn a_hidden_region_takes_no_focus(app: AppView, id: Seq<char>, anchor: RegionAnchor)
    requires
        app.regions.contains_key(anchor),
        !app.regions[anchor].visible,
    ensures
        app.focus_answer(id, app.regions[anchor].region_id) == (
            app,
            ResponseView {
                id,
                outcome: Err(
                    ErrorView {
                        code: "region_hidden"@,
                        message: "a hidden region cannot take keyboard focus"@,
                    },
                ),
            },
        ),
{
    lemma_found(app.regions, anchor);
}

/// A request to focus or to resize a region that is not open is refused and
/// changes nothing.
pub proof fn what_is_not_open_is_neither_focused_nor_resized(
    app: AppView,
    id: Seq<char>,
    region_id: Seq<char>,
    size: u16,
)
    requires
        forall|anchor: RegionAnchor| #[trigger]
            app.regions.contains_key(anchor) ==> app.regions[anchor].region_id != region_id,
    ensures
        ({
            let refused = ResponseView {
                id,
                outcome: Err(
                    ErrorView {
                        code: "region_not_found"@,
                        message: "no region with that id is open"@,
                    },
                ),
            };
            &&& app.focus_answer(id, region_id) == (app, refused)
            &&& app.resize_answer(id, region_id, size) == (app, refused)
        }),
{
    a_region_is_found_by_its_identifier(app.regions, region_id);
}

/// Giving a region focus moves focus to it and has the screen drawn, and changes
/// nothing else.
pub proof fn focus_moves_to_the_region_named(app: AppView, region_id: Seq<char>)
    ensures
        app.focused(region_id).region_focus == Some(region_id),
        app.focused(region_id).redraw,
        app.focused(region_id) == (AppView { region_focus: Some(region_id), redraw: true, ..app }),
{
}

/// After a request to resize a live region, the region has the size that the
/// answer tells: the nearest one within its bounds to the size asked for. The
/// layout then takes that size, where the region is visible. The session is to
/// be saved and drawn, and nothing else of the region, of the other regions or
/// of the session changes.
pub proof fn a_resized_region_has_the_size_that_is_answered(
    app: AppView,
    id: Seq<char>,
    anchor: RegionAnchor,
    size: u16,
)
    requires
        app.regions.contains_key(anchor),
        app.regions[anchor].bounds.min <= app.regions[anchor].bounds.max,
    ensures
        ({
            let region = app.regions[anchor];
            let (after, response) = app.resize_answer(id, region.region_id, size);
            &&& response.id == id
            &&& response.outcome matches Ok(ResultView::RegionResized { region: entry })
            &&& after.regions.contains_key(anchor)
            &&& entry.size == after.regions[anchor].size
            &&& is_nearest(entry.size, size, region.bounds.min, region.bounds.max)
            &&& tells_of(entry, after.regions[anchor], app.region_focus)
            &&& after.regions[anchor] == (RegionView { size: entry.size, ..region })
            &&& after.regions.remove(anchor) == app.regions.remove(anchor)
            &&& shown_size_of(after.regions, anchor) == if region.visible {
                Some(entry.size)
            } else {
                None
            }
            &&& after.session_dirty && after.redraw
            &&& after == (AppView {
                regions: after.regions,
                session_dirty: true,
                redraw: true,
                ..app
            })
        }),
{
    lemma_found(app.regions, anchor);
    let region = app.regions[anchor];
    let (after, response) = app.resize_answer(id, region.region_id, size);
    assert(after.regions.remove(anchor) =~= app.regions.remove(anchor));
}

/// The answer to a request to list the regions tells of every live region,
/// visible or not, exactly once and in slot order, and of nothing else.
pub proof fn the_list_tells_of_every_live_region(app: AppView, id: Seq<char>)
    ensures
        ({
            let response = app.list_answer(id);
            &&& response.id == id
            &&& response.outcome matches Ok(ResultView::RegionList { regions: entries })
            &&& entries.len() == app.regions.len()
            &&& forall|anchor: RegionAnchor| #[trigger]
                app.regions.contains_key(anchor) ==> exists|i: int|
                    0 <= i < entries.len() && tells_of(
                        #[trigger] entries[i],
                        app.regions[anchor],
                        app.region_focus,
                    )
            &&& exists|anchors: Seq<RegionAnchor>| #[trigger]
                tells_in_order(app, anchors, entries)
        }),
{
    every_live_region_is_gone_through(app.regions);
    let regions = regions_at(app.regions, picked(app.regions, any_region()));
    let anchors = choose|anchors: Seq<RegionAnchor>|
        #![trigger stand_in_order(app.regions, anchors, regions)]
        {
            &&& stand_in_order(app.regions, anchors, regions)
            &&& forall|anchor: RegionAnchor| #[trigger]
                app.regions.contains_key(anchor) ==> anchors.contains(anchor)
        };
    let entries = app.list_answer(id).outcome->Ok_0->RegionList_regions;
    assert(entries.len() == anchors.len());
    assert(tells_in_order(app, anchors, entries));
    assert forall|anchor: RegionAnchor| #[trigger] app.regions.contains_key(anchor) implies (
    exists|i: int|
        0 <= i < entries.len() && tells_of(
            #[trigger] entries[i],
            app.regions[anchor],
            app.region_focus,
        )) by {
        let i = choose|i: int| 0 <= i < anchors.len() && anchors[i] == anchor;
        assert(tells_of(entries[i], app.regions[anchors[i]], app.region_focus));
    }
}

/// Whether the entries tell of the live regions in the slots of `anchors`, each
/// anchor once and in slot order.
pub open spec fn tells_in_order(
    app: AppView,
    anchors: Seq<RegionAnchor>,
    entries: Seq<RegionInfoView>,
) -> bool {
    &&& entries.len() == anchors.len()
    &&& forall|i: int|
        0 <= i < anchors.len() ==> app.regions.contains_key(#[trigger] anchors[i]) && tells_of(
            entries[i],
            app.regions[anchors[i]],
            app.region_focus,
        )
    &&& forall|i: int, j: int|
        0 <= i < j < anchors.len() ==> slot_of(#[trigger] anchors[i]) < slot_of(
            #[trigger] anchors[j],
        )
}

/// Whether the region in a slot belongs to a plugin.
pub open spec fn owns(app: AppView, plugin_id: Seq<char>, anchor: RegionAnchor) -> bool {
    app.regions.contains_key(anchor) && app.regions[anchor].plugin_id == plugin_id
}

/// What releasing several regions comes to.
proof fn lemma_all_released(app: AppView, gone: Seq<RegionView>)
    ensures
        ({
            let after = app.all_released(gone);
            &&& forall|terminal: u64| #[trigger]
                after.terminals.contains_key(terminal) <==> app.terminals.contains_key(terminal)
                    && forall|i: int|
                    0 <= i < gone.len() ==> (#[trigger] gone[i]).terminal_id.0 != terminal
            &&& forall|terminal: u64| #[trigger]
                after.terminals.contains_key(terminal) ==> after.terminals[terminal]
                    == app.terminals[terminal]
            &&& forall|terminal: u64| #[trigger]
                after.resize_locks.contains(terminal) <==> app.resize_locks.contains(terminal)
                    && forall|i: int|
                    0 <= i < gone.len() ==> (#[trigger] gone[i]).terminal_id.0 != terminal
            &&& after.stopping.len() == app.stopping.len() + gone.len()
            &&& after.stopping.take(app.stopping.len() as int) == app.stopping
            &&& forall|i: int|
                0 <= i < gone.len() ==> after.stopping[app.stopping.len() + i] == (
                #[trigger] gone[i]).terminal_id
            &&& after.region_focus == app.region_focus || after.region_focus is None
            &&& forall|i: int|
                0 <= i < gone.len() ==> after.region_focus != Some((#[trigger] gone[i]).region_id)
            &&& (forall|i: int|
                0 <= i < gone.len() ==> app.region_focus != Some((#[trigger] gone[i]).region_id))
                ==> after.region_focus == app.region_focus
            &&& after == (AppView {
                terminals: after.terminals,
                resize_locks: after.resize_locks,
                stopping: after.stopping,
                region_focus: after.region_focus,
                ..app
            })
        }),
    decreases gone.len(),
{
    let after = app.all_released(gone);
    if gone.len() == 0 {
        assert(after.stopping.take(app.stopping.len() as int) =~= app.stopping);
    } else {
        let rest = gone.drop_last();
        let before = app.all_released(rest);
        let last = gone.last();
        lemma_all_released(app, rest);
        assert(forall|i: int| 0 <= i < rest.len() ==> rest[i] == #[trigger] gone[i]);
        assert(gone[rest.len() as int] == last);
        assert(after.stopping.take(app.stopping.len() as int) =~= before.stopping.take(
            app.stopping.len() as int,
        ));
        assert forall|terminal: u64| #[trigger]
            after.terminals.contains_key(terminal) <==> app.terminals.contains_key(terminal)
                && forall|i: int|
                0 <= i < gone.len() ==> (#[trigger] gone[i]).terminal_id.0 != terminal by {
            assert(after.terminals.contains_key(terminal) <==> before.terminals.contains_key(
                terminal,
            ) && terminal != last.terminal_id.0);
            assert((forall|i: int|
                0 <= i < gone.len() ==> (#[trigger] gone[i]).terminal_id.0 != terminal) <==> (
            forall|i: int| 0 <= i < rest.len() ==> (#[trigger] rest[i]).terminal_id.0 != terminal)
                && last.terminal_id.0 != terminal);
        }
        assert forall|terminal: u64| #[trigger]
            after.terminals.contains_key(terminal) implies after.terminals[terminal]
            == app.terminals[terminal] by {
            assert(before.terminals.contains_key(terminal));
        }
        assert forall|terminal: u64| #[trigger]
            after.resize_locks.contains(terminal) <==> app.resize_locks.contains(terminal)
                && forall|i: int|
                0 <= i < gone.len() ==> (#[trigger] gone[i]).terminal_id.0 != terminal by {
            assert(after.resize_locks.contains(terminal) <==> before.resize_locks.contains(
                terminal,
            ) && terminal != last.terminal_id.0);
            assert((forall|i: int|
                0 <= i < gone.len() ==> (#[trigger] gone[i]).terminal_id.0 != terminal) <==> (
            forall|i: int| 0 <= i < rest.len() ==> (#[trigger] rest[i]).terminal_id.0 != terminal)
                && last.terminal_id.0 != terminal);
        }
        assert forall|i: int| 0 <= i < gone.len() implies after.stopping[app.stopping.len() + i]
            == (#[trigger] gone[i]).terminal_id by {
            if i < rest.len() {
                assert(rest[i] == gone[i]);
                assert(after.stopping[app.stopping.len() + i] == before.stopping[app.stopping.len()
                    + i]);
            }
        }
        assert forall|i: int| 0 <= i < gone.len() implies after.region_focus != Some(
            (#[trigger] gone[i]).region_id,
        ) by {
            if i < rest.len() {
                assert(rest[i] == gone[i]);
            }
        }
        if forall|i: int|
            0 <= i < gone.len() ==> app.region_focus != Some((#[trigger] gone[i]).region_id) {
            assert forall|i: int| 0 <= i < rest.len() implies app.region_focus != Some(
                (#[trigger] rest[i]).region_id,
            ) by {
                assert(rest[i] == gone[i]);
            }
        }
    }
}

/// Closing a plugin's regions takes exactly the regions that the plugin owns,
/// counts them, drops their terminals and resize locks and no others, and has
/// their programs stopped, in slot order. Focus leaves them, and only them. The
/// session is to be saved and drawn, and nothing else changes.
pub proof fn closing_a_plugin_takes_its_regions_and_what_is_their_own(
    app: AppView,
    plugin_id: Seq<char>,
    anchor: RegionAnchor,
)
    requires
        owns(app, plugin_id, anchor),
    ensures
        ({
            let after = app.closed_for_plugin(plugin_id);
            let gone = app.regions_of(plugin_id);
            let before = app.stopping.len();
            &&& gone.contains(app.regions[anchor])
            &&& exists|anchors: Seq<RegionAnchor>| #[trigger]
                stand_in_order(app.regions, anchors, gone)
            &&& forall|i: int| 0 <= i < gone.len() ==> (#[trigger] gone[i]).plugin_id == plugin_id
            &&& forall|other: RegionAnchor| #[trigger]
                after.regions.contains_key(other) <==> app.regions.contains_key(other) && !owns(
                    app,
                    plugin_id,
                    other,
                )
            &&& forall|other: RegionAnchor| #[trigger]
                after.regions.contains_key(other) ==> after.regions[other] == app.regions[other]
            &&& forall|terminal: u64| #[trigger]
                after.terminals.contains_key(terminal) <==> app.terminals.contains_key(terminal)
                    && forall|other: RegionAnchor| #[trigger]
                    owns(app, plugin_id, other) ==> app.regions[other].terminal_id.0 != terminal
            &&& forall|terminal: u64| #[trigger]
                after.terminals.contains_key(terminal) ==> after.terminals[terminal]
                    == app.terminals[terminal]
            &&& forall|terminal: u64| #[trigger]
                after.resize_locks.contains(terminal) <==> app.resize_locks.contains(terminal)
                    && forall|other: RegionAnchor| #[trigger]
                    owns(app, plugin_id, other) ==> app.regions[other].terminal_id.0 != terminal
            &&& after.stopping.len() == before + gone.len()
            &&& after.stopping.take(before as int) == app.stopping
            &&& forall|i: int|
                0 <= i < gone.len() ==> after.stopping[before + i] == (
                #[trigger] gone[i]).terminal_id
            &&& app.region_focus == Some(app.regions[anchor].region_id) ==> after.region_focus
                is None
            &&& (forall|other: RegionAnchor| #[trigger]
                owns(app, plugin_id, other) ==> app.region_focus != Some(
                    app.regions[other].region_id,
                )) ==> after.region_focus == app.region_focus
            &&& after.session_dirty && after.redraw
            &&& after.toast == app.toast
            &&& after.plugins == app.plugins
            &&& after.config == app.config
        }),
{
    a_plugin_loses_exactly_its_own_regions(app.regions, plugin_id);
    let gone = app.regions_of(plugin_id);
    let anchors = choose|anchors: Seq<RegionAnchor>|
        #![trigger stand_in_order(app.regions, anchors, gone)]
        {
            &&& stand_in_order(app.regions, anchors, gone)
            &&& forall|anchor: RegionAnchor| #[trigger]
                app.regions.contains_key(anchor) && app.regions[anchor].plugin_id == plugin_id
                    ==> anchors.contains(anchor)
        };
    assert forall|other: RegionAnchor| #[trigger] owns(app, plugin_id, other) implies exists|i: int|
        0 <= i < gone.len() && #[trigger] gone[i] == app.regions[other] by {
        assert(app.regions.contains_key(other));
        assert(anchors.contains(other));
        let i = choose|i: int| 0 <= i < anchors.len() && anchors[i] == other;
        assert(gone[i] == app.regions[other]);
    }
    assert forall|i: int| 0 <= i < gone.len() implies (exists|other: RegionAnchor|
        owns(app, plugin_id, other) && app.regions[other] == #[trigger] gone[i]) by {
        assert(gone[i] == app.regions[anchors[i]]);
        assert(gone[i].plugin_id == plugin_id);
        assert(owns(app, plugin_id, anchors[i]));
    }
    let left = AppView { regions: without(app.regions, of_plugin(plugin_id)), ..app };
    lemma_all_released(left, gone);
    let i = choose|i: int| 0 <= i < gone.len() && #[trigger] gone[i] == app.regions[anchor];
    assert(gone[i] == app.regions[anchor]);
    let after = app.closed_for_plugin(plugin_id);
    let released = left.all_released(gone);
    assert(after == released.changed());
    assert forall|terminal: u64|
        (forall|i: int| 0 <= i < gone.len() ==> (#[trigger] gone[i]).terminal_id.0 != terminal)
            <==> #[trigger] spares(app, plugin_id, terminal) by {
        if spares(app, plugin_id, terminal) {
            assert forall|i: int| 0 <= i < gone.len() implies (#[trigger] gone[i]).terminal_id.0
                != terminal by {
                let other = choose|other: RegionAnchor|
                    owns(app, plugin_id, other) && app.regions[other] == gone[i];
                assert(owns(app, plugin_id, other));
            }
        }
    }
    assert forall|terminal: u64| #[trigger]
        after.terminals.contains_key(terminal) <==> app.terminals.contains_key(terminal)
            && forall|other: RegionAnchor| #[trigger]
            owns(app, plugin_id, other) ==> app.regions[other].terminal_id.0 != terminal by {
        assert(released.terminals.contains_key(terminal) == after.terminals.contains_key(terminal));
        assert(spares(app, plugin_id, terminal) || !spares(app, plugin_id, terminal));
    }
    assert forall|terminal: u64| #[trigger]
        after.resize_locks.contains(terminal) <==> app.resize_locks.contains(terminal)
            && forall|other: RegionAnchor| #[trigger]
            owns(app, plugin_id, other) ==> app.regions[other].terminal_id.0 != terminal by {
        assert(released.resize_locks.contains(terminal) == after.resize_locks.contains(terminal));
        assert(spares(app, plugin_id, terminal) || !spares(app, plugin_id, terminal));
    }
    if forall|other: RegionAnchor| #[trigger]
        owns(app, plugin_id, other) ==> app.region_focus != Some(app.regions[other].region_id) {
        assert forall|i: int| 0 <= i < gone.len() implies app.region_focus != Some(
            (#[trigger] gone[i]).region_id,
        ) by {
            let other = choose|other: RegionAnchor|
                owns(app, plugin_id, other) && app.regions[other] == gone[i];
            assert(owns(app, plugin_id, other));
        }
    }
    assert forall|other: RegionAnchor| #[trigger]
        after.regions.contains_key(other) <==> app.regions.contains_key(other) && !owns(
            app,
            plugin_id,
            other,
        ) by {
        assert(after.regions == left.regions);
    }
}

/// Whether no region of a plugin runs in a terminal.
spec fn spares(app: AppView, plugin_id: Seq<char>, terminal: u64) -> bool {
    forall|other: RegionAnchor| #[trigger]
        owns(app, plugin_id, other) ==> app.regions[other].terminal_id.0 != terminal
}

/// A plugin that owns no region loses none, and nothing changes.
pub proof fn closing_a_plugin_without_regions_changes_nothing(app: AppView, plugin_id: Seq<char>)
    requires
        forall|anchor: RegionAnchor| !#[trigger] owns(app, plugin_id, anchor),
    ensures
        app.regions_of(plugin_id).len() == 0,
        app.closed_for_plugin(plugin_id) == app,
{
    a_plugin_loses_exactly_its_own_regions(app.regions, plugin_id);
    let gone = app.regions_of(plugin_id);
    let anchors = choose|anchors: Seq<RegionAnchor>|
        #![trigger stand_in_order(app.regions, anchors, gone)]
        {
            &&& stand_in_order(app.regions, anchors, gone)
            &&& forall|anchor: RegionAnchor| #[trigger]
                app.regions.contains_key(anchor) && app.regions[anchor].plugin_id == plugin_id
                    ==> anchors.contains(anchor)
        };
    if gone.len() > 0 {
        assert(gone[0].plugin_id == plugin_id);
        assert(gone[0] == app.regions[anchors[0]]);
        assert(owns(app, plugin_id, anchors[0]));
    }
}

/// The end of the program in a pane that shows a region closes that region. An
/// exit code other than zero is reported by a toast that names the region's
/// title, its plugin and the code, at the usual place and with nothing to
/// focus. Otherwise there is no new toast.
pub proof fn the_end_of_a_program_is_reported_where_it_failed(
    app: AppView,
    anchor: RegionAnchor,
    pane_id: PaneId,
    exit_code: Option<i32>,
)
    requires
        app.regions.contains_key(anchor),
        app.regions[anchor].pane_id == Some(pane_id),
    ensures
        ({
            let region = app.regions[anchor];
            let after = app.pane_exited(pane_id, exit_code);
            &&& app.shown_by(pane_id) == Some(region)
            &&& after == (AppView { toast: after.toast, ..app.closed_by_id(region.region_id) })
            &&& after.regions == app.regions.remove(anchor)
            &&& after.redraw
            &&& exit_code is None || exit_code == Some(0i32) ==> after.toast == app.toast
            &&& exit_code matches Some(code) ==> code != 0 ==> {
                &&& after.toast matches Some(toast)
                &&& toast.kind == ToastKind::NeedsAttention
                &&& toast.title == region.title + " closed"@
                &&& toast.context == region.plugin_id + " exited with status "@ + decimal_text(
                    code as int,
                )
                &&& toast.position is None
                &&& toast.target is None
            }
        }),
{
    lemma_found(app.regions, anchor);
}

/// The end of the program in a pane that shows no region changes nothing.
pub proof fn the_end_of_another_program_changes_nothing(
    app: AppView,
    pane_id: PaneId,
    exit_code: Option<i32>,
)
    requires
        forall|anchor: RegionAnchor| #[trigger]
            app.regions.contains_key(anchor) ==> app.regions[anchor].pane_id != Some(pane_id),
    ensures
        app.shown_by(pane_id) is None,
        app.pane_exited(pane_id, exit_code) == app,
{
    a_region_is_found_by_its_pane(app.regions, pane_id);
}

/// A request is refused for the first thing that is wrong with it: the registry
/// cannot be read, the plugin's name has no normal form, no such plugin is
/// installed, it is disabled, the entrypoint has no normal form, or the plugin
/// declares no such region.
pub proof fn a_request_is_refused_for_what_is_wrong_first(
    app: AppView,
    refreshed: Result<(), Seq<char>>,
    plugin_id: Option<Seq<char>>,
    entrypoint: Option<Seq<char>>,
)
    ensures
        ({
            let resolved = app.resolved(refreshed, plugin_id, entrypoint);
            &&& refreshed matches Err(reason) ==> resolved == Err::<(PluginView, ManifestView), _>(
                ErrorView { code: "plugin_registry_load_failed"@, message: reason },
            )
            &&& refreshed is Ok && plugin_id is None ==> resolved == Err::<
                (PluginView, ManifestView),
                _,
            >(ErrorView { code: "invalid_plugin_id"@, message: "invalid plugin id"@ })
            &&& refreshed is Ok ==> (plugin_id matches Some(name) ==> {
                &&& !app.plugins.contains_key(name) ==> resolved == Err::<
                    (PluginView, ManifestView),
                    _,
                >(ErrorView { code: "plugin_not_found"@, message: "plugin not found"@ })
                &&& app.plugins.contains_key(name) && !app.plugins[name].enabled ==> resolved
                    == Err::<(PluginView, ManifestView), _>(
                    ErrorView {
                        code: "plugin_disabled"@,
                        message: "plugin "@ + name + " is disabled"@,
                    },
                )
                &&& app.plugins.contains_key(name) && app.plugins[name].enabled && entrypoint
                    is None ==> resolved == Err::<(PluginView, ManifestView), _>(
                    ErrorView {
                        code: "invalid_plugin_entrypoint"@,
                        message: "invalid entrypoint id"@,
                    },
                )
                &&& app.plugins.contains_key(name) && app.plugins[name].enabled ==> (entrypoint
                    matches Some(entry) ==> (forall|i: int|
                    0 <= i < app.plugins[name].regions.len() ==> (
                    #[trigger] app.plugins[name].regions[i]).id != entry) ==> resolved == Err::<
                    (PluginView, ManifestView),
                    _,
                >(
                    ErrorView {
                        code: "plugin_region_not_found"@,
                        message: "plugin region entrypoint '"@ + entry + "' not found"@,
                    },
                ))
            })
        }),
{
    if plugin_id is Some && entrypoint is Some {
        only_declared_regions_are_found(app.plugins[plugin_id->0].regions, entrypoint->0);
    }
}

/// Whether a plugin is installed and enabled under a name, and declares the
/// region at a place of its manifest before any other of that entrypoint.
pub open spec fn declares(app: AppView, name: Seq<char>, place: int) -> bool {
    let regions = app.plugins[name].regions;
    &&& app.plugins.contains_key(name)
    &&& app.plugins[name].enabled
    &&& 0 <= place < regions.len()
    &&& forall|earlier: int|
        0 <= earlier < place ==> (#[trigger] regions[earlier]).id != regions[place].id
}

/// A request for a region that an enabled plugin declares is resolved to that
/// plugin and that region.
pub proof fn a_declared_region_is_resolved(app: AppView, name: Seq<char>, place: int)
    requires
        declares(app, name, place),
    ensures
        ({
            let plugin = app.plugins[name];
            let manifest = plugin.regions[place];
            app.resolved(Ok(()), Some(name), Some(manifest.id)) == Ok::<_, ErrorView>(
                (plugin, manifest),
            )
        }),
{
    the_first_declared_region_is_found(app.plugins[name].regions, place);
}

/// A resolved request is admitted exactly when the platform is supported, the
/// anchor is enabled and the slot is free. What stands in the way is told, the
/// platform first and the slot last.
pub proof fn a_request_is_admitted_where_nothing_stands_in_the_way(
    app: AppView,
    plugin: PluginView,
    manifest: ManifestView,
    platform: Result<(), ErrorView>,
    size: Option<u16>,
    focus: bool,
)
    ensures
        ({
            let admitted = app.admitted(plugin, manifest, platform, size, focus);
            let taken = app.regions.contains_key(manifest.anchor);
            &&& admitted is Ok <==> platform is Ok && app.config.right.enabled && !taken
            &&& platform matches Err(unsupported) ==> admitted == Err::<RequestView, _>(
                unsupported,
            )
            &&& platform is Ok && !app.config.right.enabled ==> admitted == Err::<RequestView, _>(
                ErrorView {
                    code: "region_anchor_disabled"@,
                    message: "the right region is disabled by configuration"@,
                },
            )
            &&& platform is Ok && app.config.right.enabled && taken ==> admitted == Err::<
                RequestView,
                _,
            >(
                ErrorView {
                    code: "region_slot_occupied"@,
                    message: "a region is already open at this anchor and scope"@,
                },
            )
        }),
{
}

/// An admitted request asks for the size that was named, whatever configuration
/// and manifest say; for the configured one only where none was named; for the
/// manifest's only where neither is given; and for the default otherwise. Its
/// bounds follow from the manifest's limits, it belongs to the plugin and names
/// the manifest's region, and it asks for focus where that was asked for.
pub proof fn an_admitted_request_asks_for_what_was_asked(
    app: AppView,
    plugin: PluginView,
    manifest: ManifestView,
    platform: Result<(), ErrorView>,
    size: Option<u16>,
    focus: bool,
    request: RequestView,
)
    requires
        app.admitted(plugin, manifest, platform, size, focus) == Ok::<_, ErrorView>(request),
    ensures
        size matches Some(named) ==> request.size == named,
        size is None ==> (app.config.right.size matches Some(configured) ==> request.size
            == configured),
        size is None && app.config.right.size is None ==> (manifest.size matches Some(preferred)
            ==> request.size == preferred),
        size is None && app.config.right.size is None && manifest.size is None ==> request.size
            == DEFAULT_REGION_SIZE,
        follow_from(request.bounds, manifest.min_size, manifest.max_size),
        request.plugin_id == plugin.plugin_id,
        request.manifest == manifest,
        request.focus == focus,
{
}

/// A program is launched for its request as it stands: in the next pane and the
/// next terminal, with the rows of the frame and the columns inside the border
/// of the region's size, at least one of each, in the directory and with the
/// environment given, neither watched for an agent nor told of its pane.
pub proof fn a_launch_carries_what_was_prepared(
    ids: IdsView,
    request: RequestView,
    rows: u16,
    cwd: Seq<char>,
    env: Seq<(Seq<char>, Seq<char>)>,
    size: u16,
)
    requires
        is_nearest(size, request.size, request.bounds.min, request.bounds.max),
    ensures
        ({
            let launch = LaunchView::prepared(ids, request, rows, cwd, env);
            &&& launch.request == request
            &&& launch.pane_id == PaneId(ids.pane)
            &&& launch.terminal_id == TerminalId(ids.terminal)
            &&& rows >= 1 ==> launch.rows == rows
            &&& rows == 0 ==> launch.rows == 1
            &&& size >= 3 ==> launch.cols == size - 2
            &&& size < 3 ==> launch.cols == 1
            &&& launch.cwd == cwd
            &&& launch.env == env
            &&& !launch.agent_detection
            &&& !launch.pane_identity
        }),
{
}

/// Whether a region is the one that a launch was for.
pub open spec fn is_region_of(region: RegionView, launch: LaunchView) -> bool {
    let manifest = launch.request.manifest;
    &&& region.plugin_id == launch.request.plugin_id
    &&& region.entrypoint == manifest.id
    &&& region.title == manifest.title
    &&& region.anchor == manifest.anchor
    &&& region.scope == manifest.scope
    &&& region.terminal_id == launch.terminal_id
    &&& region.pane_id == Some(launch.pane_id)
    &&& region.bounds == launch.request.bounds
    &&& is_nearest(region.size, launch.request.size, region.bounds.min, region.bounds.max)
}

/// A launched program whose slot is free gets its region there, under the
/// identifier given, shown unless regions are configured to start hidden. Its
/// terminal is known with its directory, its command and the region's title. A
/// shown region takes focus where that was asked for, and no other does. The
/// session is to be saved and drawn, and nothing else changes.
pub proof fn a_launched_program_gets_its_region(
    app: AppView,
    launch: LaunchView,
    region_id: Seq<char>,
)
    requires
        !app.regions.contains_key(launch.request.manifest.anchor),
        launch.request.bounds.min <= launch.request.bounds.max,
    ensures
        ({
            let manifest = launch.request.manifest;
            let after = app.placed(launch, region_id);
            let region = after.regions[manifest.anchor];
            let terminal = after.terminals[launch.terminal_id.0];
            &&& after.regions.contains_key(manifest.anchor)
            &&& after.regions == app.regions.insert(manifest.anchor, region)
            &&& region.region_id == region_id
            &&& is_region_of(region, launch)
            &&& region.visible <==> !app.config.right.start_hidden
            &&& after.terminals == app.terminals.insert(launch.terminal_id.0, terminal)
            &&& terminal.cwd == launch.cwd
            &&& terminal.launch_argv == manifest.command
            &&& terminal.manual_label == Some(manifest.title)
            &&& launch.request.focus && region.visible ==> after.region_focus == Some(region_id)
            &&& !(launch.request.focus && region.visible) ==> after.region_focus
                == app.region_focus
            &&& after.session_dirty && after.redraw
            &&& after.resize_locks == app.resize_locks
            &&& after.toast == app.toast
            &&& after.plugins == app.plugins
            &&& after.config == app.config
            &&& after.stopping == app.stopping
        }),
{
}

/// A launched program whose slot is taken is stopped and gets no terminal, and
/// nothing else changes.
pub proof fn a_launched_program_without_a_slot_is_stopped(
    app: AppView,
    launch: LaunchView,
    region_id: Seq<char>,
)
    requires
        app.regions.contains_key(launch.request.manifest.anchor),
    ensures
        ({
            let after = app.placed(launch, region_id);
            &&& after.stopping == app.stopping.push(launch.terminal_id)
            &&& after.terminals == app.terminals.remove(launch.terminal_id.0)
            &&& after == (AppView {
                stopping: after.stopping,
                terminals: after.terminals,
                ..app
            })
        }),
{
}

/// An opening that came to a live region is answered with that region; one that
/// failed with its reason.
pub proof fn an_opening_is_answered_with_its_region(
    app: AppView,
    id: Seq<char>,
    anchor: RegionAnchor,
    reason: Seq<char>,
)
    ensures
        app.regions.contains_key(anchor) ==> {
            let response = app.open_answer(id, Ok(app.regions[anchor].region_id));
            &&& response.id == id
            &&& response.outcome matches Ok(ResultView::RegionOpened { region })
            &&& tells_of(region, app.regions[anchor], app.region_focus)
        },
        app.open_answer(id, Err(reason)) == (ResponseView {
            id,
            outcome: Err(ErrorView { code: "region_open_failed"@, message: reason }),
        }),
{
    if app.regions.contains_key(anchor) {
        lemma_found(app.regions, anchor);
    }
}

/// An opening whose region is gone by the time it is answered has failed.
pub proof fn an_opening_without_its_region_has_failed(
    app: AppView,
    id: Seq<char>,
    region_id: Seq<char>,
)
    requires
        forall|anchor: RegionAnchor| #[trigger]
            app.regions.contains_key(anchor) ==> app.regions[anchor].region_id != region_id,
    ensures
        app.open_answer(id, Ok(region_id)) == (ResponseView {
            id,
            outcome: Err(
                ErrorView {
                    code: "region_open_failed"@,
                    message: "region disappeared after open"@,
                },
            ),
        }),
{
    a_region_is_found_by_its_identifier(app.regions, region_id);
}

/// The opening of a request, in a phase.
pub open spec fn opening_at(
    id: Seq<char>,
    size: Option<u16>,
    focus: bool,
    phase: PhaseView,
) -> OpeningView {
    OpeningView { id, size, focus, phase }
}

/// A request whose names are refused, whose platform, anchor or slot is refused,
/// whose environment cannot be projected, or whose program cannot be started is
/// answered with the reason, under its own identifier. Neither the session nor
/// the counters change.
pub proof fn a_refused_request_is_told_why(
    app: AppView,
    ids: IdsView,
    id: Seq<char>,
    size: Option<u16>,
    focus: bool,
    region_id: Seq<char>,
    refreshed: Result<(), Seq<char>>,
    plugin_id: Option<Seq<char>>,
    entrypoint: Option<Seq<char>>,
    plugin: PluginView,
    manifest: ManifestView,
    platform: Result<(), ErrorView>,
    request: RequestView,
    rows: u16,
    cwd: Seq<char>,
    failed: ErrorView,
    launch: LaunchView,
    reason: Seq<char>,
)
    ensures
        app.resolved(refreshed, plugin_id, entrypoint) matches Err(error) ==> app.opening_step(
            ids,
            opening_at(id, size, focus, PhaseView::Asked),
            EventView::Named { refreshed, plugin_id, entrypoint },
            region_id,
        ) == (
            app,
            ids,
            opening_at(
                id,
                size,
                focus,
                PhaseView::Answered(ResponseView { id, outcome: Err(error) }),
            ),
        ),
        app.admitted(plugin, manifest, platform, size, focus) matches Err(error)
            ==> app.opening_step(
            ids,
            opening_at(id, size, focus, PhaseView::Resolved(plugin, manifest)),
            EventView::PlatformChecked(platform),
            region_id,
        ) == (
            app,
            ids,
            opening_at(
                id,
                size,
                focus,
                PhaseView::Answered(ResponseView { id, outcome: Err(error) }),
            ),
        ),
        app.opening_step(
            ids,
            opening_at(id, size, focus, PhaseView::Admitted(request)),
            EventView::Prepared { rows, cwd, env: Err(failed) },
            region_id,
        ) == (
            app,
            ids,
            opening_at(
                id,
                size,
                focus,
                PhaseView::Answered(
                    ResponseView {
                        id,
                        outcome: Err(
                            ErrorView {
                                code: "region_open_failed"@,
                                message: failed.code + ": "@ + failed.message,
                            },
                        ),
                    },
                ),
            ),
        ),
        app.opening_step(
            ids,
            opening_at(id, size, focus, PhaseView::Launched(launch)),
            EventView::Spawned(Err(reason)),
            region_id,
        ) == (
            app,
            ids,
            opening_at(
                id,
                size,
                focus,
                PhaseView::Answered(
                    ResponseView {
                        id,
                        outcome: Err(ErrorView { code: "region_open_failed"@, message: reason }),
                    },
                ),
            ),
        ),
{
}

/// A request whose program runs but finds its slot taken is answered with that,
/// and the program is stopped.
pub proof fn a_request_without_a_slot_is_told_so(
    app: AppView,
    ids: IdsView,
    id: Seq<char>,
    size: Option<u16>,
    focus: bool,
    launch: LaunchView,
    region_id: Seq<char>,
)
    requires
        app.regions.contains_key(launch.request.manifest.anchor),
    ensures
        ({
            let (after, counted, moved) = app.opening_step(
                ids,
                opening_at(id, size, focus, PhaseView::Launched(launch)),
                EventView::Spawned(Ok(())),
                region_id,
            );
            &&& moved == opening_at(
                id,
                size,
                focus,
                PhaseView::Answered(
                    ResponseView {
                        id,
                        outcome: Err(
                            ErrorView {
                                code: "region_open_failed"@,
                                message: "region slot occupied"@,
                            },
                        ),
                    },
                ),
            )
            &&& after.regions == app.regions
            &&& after.region_focus == app.region_focus
            &&& after.stopping == app.stopping.push(launch.terminal_id)
            &&& after == app.placed(launch, region_id)
            &&& counted == ids.identified()
        }),
{
}

/// A request that nothing stands in the way of goes on from its names to its
/// region, through what was found, admitted and launched for it, and keeps its
/// identifier, the size it named and whether it asks for focus. Until the
/// program runs, the session does not change.
pub proof fn a_request_goes_on_with_what_was_found_for_it(
    app: AppView,
    ids: IdsView,
    id: Seq<char>,
    size: Option<u16>,
    focus: bool,
    region_id: Seq<char>,
    plugin_id: Option<Seq<char>>,
    entrypoint: Option<Seq<char>>,
    plugin: PluginView,
    manifest: ManifestView,
    request: RequestView,
    rows: u16,
    cwd: Seq<char>,
    env: Seq<(Seq<char>, Seq<char>)>,
    launch: LaunchView,
)
    ensures
        app.resolved(Ok(()), plugin_id, entrypoint) matches Ok((found, declared))
            ==> app.opening_step(
            ids,
            opening_at(id, size, focus, PhaseView::Asked),
            EventView::Named { refreshed: Ok(()), plugin_id, entrypoint },
            region_id,
        ) == (app, ids, opening_at(id, size, focus, PhaseView::Resolved(found, declared))),
        app.admitted(plugin, manifest, Ok(()), size, focus) matches Ok(admitted)
            ==> app.opening_step(
            ids,
            opening_at(id, size, focus, PhaseView::Resolved(plugin, manifest)),
            EventView::PlatformChecked(Ok(())),
            region_id,
        ) == (app, ids, opening_at(id, size, focus, PhaseView::Admitted(admitted))),
        app.opening_step(
            ids,
            opening_at(id, size, focus, PhaseView::Admitted(request)),
            EventView::Prepared { rows, cwd, env: Ok(env) },
            region_id,
        ) == (
            app,
            ids.launching(),
            opening_at(
                id,
                size,
                focus,
                PhaseView::Launched(LaunchView::prepared(ids, request, rows, cwd, env)),
            ),
        ),
        !app.regions.contains_key(launch.request.manifest.anchor) ==> {
            let (after, counted, moved) = app.opening_step(
                ids,
                opening_at(id, size, focus, PhaseView::Launched(launch)),
                EventView::Spawned(Ok(())),
                region_id,
            );
            let region = after.regions[launch.request.manifest.anchor];
            &&& after == app.placed(launch, region_id)
            &&& counted == ids.identified()
            &&& (moved.id, moved.size, moved.focus) == (id, size, focus)
            &&& moved.phase matches PhaseView::Answered(response)
            &&& response.id == id
            &&& response.outcome matches Ok(ResultView::RegionOpened { region: entry })
            &&& tells_of(entry, region, after.region_focus)
        },
{
    let after = app.placed(launch, region_id);
    let anchor = launch.request.manifest.anchor;
    if !app.regions.contains_key(anchor) {
        an_opening_is_answered_with_its_region(after, id, anchor, Seq::empty());
    }
}

/// A request for a region that an enabled plugin declares, on a supported
/// platform, with an enabled anchor and a free slot, opens that region once its
/// program runs: the plugin's own, with what the manifest declares of it, and
/// with the size named, or else configured, or else preferred, or else the
/// default, as near as the manifest's limits admit it. It is answered with the
/// region as it then stands. One pane, one terminal and one region identifier
/// are taken.
pub proof fn a_request_opens_the_region_it_names(
    app: AppView,
    ids: IdsView,
    id: Seq<char>,
    size: Option<u16>,
    focus: bool,
    name: Seq<char>,
    place: int,
    rows: u16,
    cwd: Seq<char>,
    env: Seq<(Seq<char>, Seq<char>)>,
    region_id: Seq<char>,
)
    requires
        declares(app, name, place),
        app.config.right.enabled,
        !app.regions.contains_key(app.plugins[name].regions[place].anchor),
    ensures
        ({
            let plugin = app.plugins[name];
            let manifest = plugin.regions[place];
            let asked = opening_at(id, size, focus, PhaseView::Asked);
            let (app1, ids1, named) = app.opening_step(
                ids,
                asked,
                EventView::Named {
                    refreshed: Ok(()),
                    plugin_id: Some(name),
                    entrypoint: Some(manifest.id),
                },
                region_id,
            );
            let (app2, ids2, checked) = app1.opening_step(
                ids1,
                named,
                EventView::PlatformChecked(Ok(())),
                region_id,
            );
            let (app3, ids3, prepared) = app2.opening_step(
                ids2,
                checked,
                EventView::Prepared { rows, cwd, env: Ok(env) },
                region_id,
            );
            let (after, counted, answered) = app3.opening_step(
                ids3,
                prepared,
                EventView::Spawned(Ok(())),
                region_id,
            );
            &&& named.phase == PhaseView::Resolved(plugin, manifest)
            &&& checked.phase is Admitted
            &&& app3 == app
            &&& prepared.phase matches PhaseView::Launched(launch)
            &&& launch == LaunchView::prepared(ids, launch.request, rows, cwd, env)
            &&& launch.request.plugin_id == plugin.plugin_id
            &&& launch.request.manifest == manifest
            &&& launch.request.focus == focus
            &&& answered.phase matches PhaseView::Answered(response)
            &&& response.id == id
            &&& response.outcome matches Ok(ResultView::RegionOpened { region: entry })
            &&& after.regions.contains_key(manifest.anchor)
            &&& after == app.placed(launch, region_id)
            &&& tells_of(entry, after.regions[manifest.anchor], after.region_focus)
            &&& is_region_of(after.regions[manifest.anchor], launch)
            &&& entry.region_id == region_id
            &&& entry.plugin_id == plugin.plugin_id
            &&& entry.entrypoint == manifest.id
            &&& entry.title == manifest.title
            &&& entry.anchor == manifest.anchor
            &&& entry.scope == manifest.scope
            &&& follow_from(
                SizeRange { min: entry.min_size, max: entry.max_size },
                manifest.min_size,
                manifest.max_size,
            )
            &&& size matches Some(wished) ==> is_nearest(
                entry.size,
                wished,
                entry.min_size,
                entry.max_size,
            )
            &&& size is None ==> (app.config.right.size matches Some(wished) ==> is_nearest(
                entry.size,
                wished,
                entry.min_size,
                entry.max_size,
            ))
            &&& size is None && app.config.right.size is None ==> (manifest.size matches Some(
                wished,
            ) ==> is_nearest(entry.size, wished, entry.min_size, entry.max_size))
            &&& size is None && app.config.right.size is None && manifest.size is None
                ==> is_nearest(
                entry.size,
                DEFAULT_REGION_SIZE,
                entry.min_size,
                entry.max_size,
            )
            &&& entry.visible <==> !app.config.right.start_hidden
            &&& focus && entry.visible ==> entry.focused
            &&& counted == ids.launching().identified()
        }),
{
    let plugin = app.plugins[name];
    let manifest = plugin.regions[place];
    a_declared_region_is_resolved(app, name, place);
    let request = app.admitted(plugin, manifest, Ok(()), size, focus)->Ok_0;
    an_admitted_request_asks_for_what_was_asked(
        app,
        plugin,
        manifest,
        Ok(()),
        size,
        focus,
        request,
    );
    let launch = LaunchView::prepared(ids, request, rows, cwd, env);
    a_launched_program_gets_its_region(app, launch, region_id);
    an_opening_is_answered_with_its_region(
        app.placed(launch, region_id),
        id,
        manifest.anchor,
        Seq::empty(),
    );
}

/// Showing or hiding a live region changes nothing but whether it is visible,
/// and so whether the layout takes its size.
pub proof fn showing_or_hiding_changes_only_visibility(
    app: AppView,
    anchor: RegionAnchor,
    visible: bool,
)
    requires
        app.regions.contains_key(anchor),
    ensures
        ({
            let region = app.regions[anchor];
            let after = app.with_visibility(region.region_id, visible);
            &&& after.regions.contains_key(anchor)
            &&& after.regions[anchor] == (RegionView { visible, ..region })
            &&& after.regions.remove(anchor) == app.regions.remove(anchor)
            &&& after == (AppView { regions: after.regions, ..app })
            &&& shown_size_of(after.regions, anchor) == if visible {
                Some(region.size)
            } else {
                None
            }
        }),
{
    lemma_found(app.regions, anchor);
    let after = app.with_visibility(app.regions[anchor].region_id, visible);
    assert(after.regions.remove(anchor) =~= app.regions.remove(anchor));
}

/// Showing or hiding a region that is not open changes nothing.
pub proof fn what_is_not_open_is_neither_shown_nor_hidden(
    app: AppView,
    region_id: Seq<char>,
    visible: bool,
)
    requires
        forall|anchor: RegionAnchor| #[trigger]
            app.regions.contains_key(anchor) ==> app.regions[anchor].region_id != region_id,
    ensures
        app.with_visibility(region_id, visible) == app,
{
    a_region_is_found_by_its_identifier(app.regions, region_id);
}

/// A saved region is asked for again as its plugin declares it now: it belongs to
/// the plugin that is installed under the saved name, has the bounds that follow
/// from the manifest's limits, asks for the saved size, and for no focus.
pub proof fn a_saved_region_is_asked_for_as_declared(
    app: AppView,
    snapshot: SnapshotView,
    place: int,
)
    requires
        declares(app, snapshot.plugin_id, place),
        app.plugins[snapshot.plugin_id].regions[place].id == snapshot.entrypoint,
    ensures
        ({
            let plugin = app.plugins[snapshot.plugin_id];
            let manifest = plugin.regions[place];
            &&& app.restorable(snapshot) matches Ok(request)
            &&& request.plugin_id == plugin.plugin_id
            &&& request.manifest == manifest
            &&& follow_from(request.bounds, manifest.min_size, manifest.max_size)
            &&& request.size == snapshot.size
            &&& !request.focus
        }),
{
    the_first_declared_region_is_found(app.plugins[snapshot.plugin_id].regions, place);
}

/// A saved region is dropped for the first thing that is wrong with it: its
/// plugin is no longer installed, is disabled, or no longer declares it.
pub proof fn a_stale_region_is_dropped_for_what_is_wrong_first(
    app: AppView,
    snapshot: SnapshotView,
)
    ensures
        ({
            let plugin = app.plugins[snapshot.plugin_id];
            let restorable = app.restorable(snapshot);
            &&& !app.plugins.contains_key(snapshot.plugin_id) ==> restorable == Err::<
                RequestView,
                _,
            >(RestoreDrop::PluginNotInstalled)
            &&& app.plugins.contains_key(snapshot.plugin_id) && !plugin.enabled ==> restorable
                == Err::<RequestView, _>(RestoreDrop::PluginDisabled)
            &&& app.plugins.contains_key(snapshot.plugin_id) && plugin.enabled && (forall|i: int|
                0 <= i < plugin.regions.len() ==> (#[trigger] plugin.regions[i]).id
                    != snapshot.entrypoint) ==> restorable == Err::<RequestView, _>(
                RestoreDrop::EntrypointNotDeclared,
            )
        }),
{
    only_declared_regions_are_found(
        app.plugins[snapshot.plugin_id].regions,
        snapshot.entrypoint,
    );
}

/// A restore takes the saved regions one by one and in order, whatever became of
/// the one before: the next one is asked for, with its saved visibility, or is
/// dropped with its reason, and the others are left. It is done when none is.
pub proof fn saved_regions_are_taken_in_order(
    app: AppView,
    ids: IdsView,
    restore: RestoreView,
    region_id: Seq<char>,
)
    requires
        restore.phase is Waiting || restore.phase is Restored || restore.phase is Dropped
            || restore.phase is Failed,
    ensures
        ({
            let (after, counted, moved) = app.restore_step(
                ids,
                restore,
                RestoreEventView::Next,
                region_id,
            );
            &&& after == app
            &&& counted == ids
            &&& restore.left.len() == 0 ==> moved.phase is Done && moved.left.len() == 0
            &&& restore.left.len() > 0 ==> {
                let snapshot = restore.left[0];
                &&& moved.left == restore.left.skip(1)
                &&& app.restorable(snapshot) matches Ok(request) ==> moved.phase
                    == RestorePhaseView::Admitted { request, visible: snapshot.visible }
                &&& app.restorable(snapshot) matches Err(reason) ==> moved.phase
                    == RestorePhaseView::Dropped { snapshot, reason }
            }
        }),
{
    if restore.left.len() > 0 {
        assert(restore.left.drop_first() =~= restore.left.skip(1));
    }
}

/// A saved region whose environment cannot be projected or whose program cannot
/// be started has failed for that reason, and neither the session nor the
/// counters change. One whose slot is taken has failed too, and its program is
/// stopped. The regions left are left.
pub proof fn a_saved_region_that_fails_is_told_why(
    app: AppView,
    ids: IdsView,
    left: Seq<SnapshotView>,
    region_id: Seq<char>,
    request: RequestView,
    visible: bool,
    rows: u16,
    cwd: Seq<char>,
    failed: ErrorView,
    launch: LaunchView,
    reason: Seq<char>,
)
    ensures
        app.restore_step(
            ids,
            RestoreView { left, phase: RestorePhaseView::Admitted { request, visible } },
            RestoreEventView::Prepared { rows, cwd, env: Err(failed) },
            region_id,
        ) == (
            app,
            ids,
            RestoreView {
                left,
                phase: RestorePhaseView::Failed {
                    message: failed.code + ": "@ + failed.message,
                },
            },
        ),
        app.restore_step(
            ids,
            RestoreView { left, phase: RestorePhaseView::Launched { launch, visible } },
            RestoreEventView::Spawned(Err(reason)),
            region_id,
        ) == (
            app,
            ids,
            RestoreView { left, phase: RestorePhaseView::Failed { message: reason } },
        ),
        app.regions.contains_key(launch.request.manifest.anchor) ==> app.restore_step(
            ids,
            RestoreView { left, phase: RestorePhaseView::Launched { launch, visible } },
            RestoreEventView::Spawned(Ok(())),
            region_id,
        ) == (
            app.placed(launch, region_id),
            ids.identified(),
            RestoreView {
                left,
                phase: RestorePhaseView::Failed { message: "region slot occupied"@ },
            },
        ),
{
}

/// A saved region that nothing stands in the way of is launched as it was asked
/// for, and then opened with its saved visibility, whatever is configured for
/// new regions. The regions left are left.
pub proof fn a_saved_region_goes_on_with_what_was_found_for_it(
    app: AppView,
    ids: IdsView,
    left: Seq<SnapshotView>,
    region_id: Seq<char>,
    request: RequestView,
    visible: bool,
    rows: u16,
    cwd: Seq<char>,
    env: Seq<(Seq<char>, Seq<char>)>,
    launch: LaunchView,
)
    ensures
        app.restore_step(
            ids,
            RestoreView { left, phase: RestorePhaseView::Admitted { request, visible } },
            RestoreEventView::Prepared { rows, cwd, env: Ok(env) },
            region_id,
        ) == (
            app,
            ids.launching(),
            RestoreView {
                left,
                phase: RestorePhaseView::Launched {
                    launch: LaunchView::prepared(ids, request, rows, cwd, env),
                    visible,
                },
            },
        ),
        !app.regions.contains_key(launch.request.manifest.anchor) ==> {
            let (after, counted, moved) = app.restore_step(
                ids,
                RestoreView { left, phase: RestorePhaseView::Launched { launch, visible } },
                RestoreEventView::Spawned(Ok(())),
                region_id,
            );
            let anchor = launch.request.manifest.anchor;
            let opened = app.placed(launch, region_id);
            &&& moved == (RestoreView { left, phase: RestorePhaseView::Restored { region_id } })
            &&& counted == ids.identified()
            &&& after.regions.contains_key(anchor)
            &&& after.regions[anchor] == (RegionView { visible, ..opened.regions[anchor] })
            &&& after == (AppView {
                regions: app.regions.insert(anchor, after.regions[anchor]),
                ..opened
            })
        },
{
    let anchor = launch.request.manifest.anchor;
    if !app.regions.contains_key(anchor) {
        let opened = app.placed(launch, region_id);
        lemma_found(opened.regions, anchor);
        let after = opened.with_visibility(region_id, visible);
        assert(after.regions =~= app.regions.insert(anchor, after.regions[anchor]));
    }
}

/// A saved region whose plugin is enabled and still declares it, and whose slot
/// is free, comes back once its program runs: as a region of the plugin that is
/// installed under the saved name, with what the manifest declares of it now,
/// with the saved visibility, and with the saved size as near as the manifest's
/// limits admit it. It takes no focus. Closing that plugin's regions closes it.
pub proof fn a_saved_region_comes_back(
    app: AppView,
    ids: IdsView,
    restore: RestoreView,
    place: int,
    rows: u16,
    cwd: Seq<char>,
    env: Seq<(Seq<char>, Seq<char>)>,
    region_id: Seq<char>,
)
    requires
        restore.phase is Waiting || restore.phase is Restored || restore.phase is Dropped
            || restore.phase is Failed,
        restore.left.len() > 0,
        declares(app, restore.left[0].plugin_id, place),
        app.plugins[restore.left[0].plugin_id].regions[place].id == restore.left[0].entrypoint,
        !app.regions.contains_key(app.plugins[restore.left[0].plugin_id].regions[place].anchor),
    ensures
        ({
            let snapshot = restore.left[0];
            let plugin = app.plugins[snapshot.plugin_id];
            let manifest = plugin.regions[place];
            let (app1, ids1, taken) = app.restore_step(
                ids,
                restore,
                RestoreEventView::Next,
                region_id,
            );
            let (app2, ids2, prepared) = app1.restore_step(
                ids1,
                taken,
                RestoreEventView::Prepared { rows, cwd, env: Ok(env) },
                region_id,
            );
            let (after, counted, moved) = app2.restore_step(
                ids2,
                prepared,
                RestoreEventView::Spawned(Ok(())),
                region_id,
            );
            let region = after.regions[manifest.anchor];
            &&& prepared.phase matches RestorePhaseView::Launched { launch, visible }
            &&& launch == LaunchView::prepared(ids, launch.request, rows, cwd, env)
            &&& moved == (RestoreView {
                left: restore.left.skip(1),
                phase: RestorePhaseView::Restored { region_id },
            })
            &&& after.regions == app.regions.insert(manifest.anchor, region)
            &&& region.region_id == region_id
            &&& region.plugin_id == plugin.plugin_id
            &&& region.entrypoint == snapshot.entrypoint
            &&& region.title == manifest.title
            &&& region.anchor == manifest.anchor
            &&& region.scope == manifest.scope
            &&& region.terminal_id == TerminalId(ids.terminal)
            &&& region.pane_id == Some(PaneId(ids.pane))
            &&& follow_from(region.bounds, manifest.min_size, manifest.max_size)
            &&& is_nearest(region.size, snapshot.size, region.bounds.min, region.bounds.max)
            &&& region.visible == snapshot.visible
            &&& after.region_focus == app.region_focus
            &&& after.terminals.contains_key(ids.terminal)
            &&& after.terminals[ids.terminal].cwd == cwd
            &&& after.terminals[ids.terminal].launch_argv == manifest.command
            &&& after.session_dirty && after.redraw
            &&& counted == ids.launching().identified()
            &&& after.regions_of(plugin.plugin_id).contains(region)
            &&& !after.closed_for_plugin(plugin.plugin_id).regions.contains_key(manifest.anchor)
        }),
{
    let snapshot = restore.left[0];
    let plugin = app.plugins[snapshot.plugin_id];
    let manifest = plugin.regions[place];
    saved_regions_are_taken_in_order(app, ids, restore, region_id);
    a_saved_region_is_asked_for_as_declared(app, snapshot, place);
    let request = app.restorable(snapshot)->Ok_0;
    let launch = LaunchView::prepared(ids, request, rows, cwd, env);
    let left = restore.left.skip(1);
    a_saved_region_goes_on_with_what_was_found_for_it(
        app,
        ids,
        left,
        region_id,
        request,
        snapshot.visible,
        rows,
        cwd,
        env,
        launch,
    );
    a_saved_region_goes_on_with_what_was_found_for_it(
        app,
        ids.launching(),
        left,
        region_id,
        request,
        snapshot.visible,
        rows,
        cwd,
        env,
        launch,
    );
    a_launched_program_gets_its_region(app, launch, region_id);
    let after = app.restore_step(
        ids.launching(),
        RestoreView {
            left,
            phase: RestorePhaseView::Launched { launch, visible: snapshot.visible },
        },
        RestoreEventView::Spawned(Ok(())),
        region_id,
    ).0;
    closing_a_plugin_takes_its_regions_and_what_is_their_own(
        after,
        plugin.plugin_id,
        manifest.anchor,
    );
}

} // verus!
