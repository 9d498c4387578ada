//! Frame layout, size bounds and slots.

use herdr_regions::geometry::{
    can_lay_out, layout_regions, region_inner_rect, Rect, RegionLayout, MIN_REGION_HEIGHT,
    MIN_TAB_SURFACE_WIDTH, REGION_SIZE_CEILING, REGION_SIZE_FLOOR,
};
use herdr_regions::ids::{IdCounter, PaneId, RegionId, TerminalId};
use herdr_regions::region::{
    RegionAnchor, RegionInstance, RegionScope, RegionSizeBounds, DEFAULT_REGION_MAX_SIZE,
    DEFAULT_REGION_MIN_SIZE,
};
use herdr_regions::state::{RegionSlotOccupied, RegionState};

fn instance(ids: &mut IdCounter, anchor: RegionAnchor, size: u16, visible: bool) -> RegionInstance {
    RegionInstance::new(
        RegionId::allocate(ids),
        "explorer".into(),
        "sidebar".into(),
        TerminalId::allocate(ids),
        anchor,
        RegionScope::Session,
        "Explorer".into(),
        size,
        RegionSizeBounds::new(Some(18), Some(60)),
        visible,
    )
}

#[test]
fn right_region_subtracts_from_the_tab_area_only() {
    let main_area = Rect::new(26, 0, 74, 20);

    let layout = layout_regions(main_area, Some(32));

    assert_eq!(layout.right, Some(Rect::new(68, 0, 32, 20)));
    assert_eq!(layout.remaining, Rect::new(26, 0, 42, 20));
}

#[test]
fn right_region_spans_the_full_height_of_the_remainder() {
    let layout = layout_regions(Rect::new(0, 0, 120, 40), Some(30));

    let right = layout.right.expect("region shown");
    assert_eq!(right.y, 0);
    assert_eq!(right.height, 40);
    assert_eq!(right.x + right.width, 120);
}

#[test]
fn no_region_leaves_geometry_untouched() {
    let main_area = Rect::new(4, 1, 80, 20);

    let layout = layout_regions(main_area, None);

    assert_eq!(layout.right, None);
    assert_eq!(layout.remaining, main_area);
}

#[test]
fn region_hides_when_the_tab_surface_would_be_unusable() {
    // 32 + MIN_TAB_SURFACE_WIDTH is the first width that still fits.
    let fits = 32 + MIN_TAB_SURFACE_WIDTH;

    let shown = layout_regions(Rect::new(0, 0, fits, 20), Some(32));
    let hidden = layout_regions(Rect::new(0, 0, fits - 1, 20), Some(32));

    assert!(shown.right.is_some());
    assert_eq!(hidden.right, None);
    assert_eq!(hidden.remaining.width, fits - 1);
}

#[test]
fn region_returns_when_the_frame_grows_back() {
    let narrow = layout_regions(Rect::new(0, 0, 40, 20), Some(32));
    let wide = layout_regions(Rect::new(0, 0, 120, 20), Some(32));

    assert_eq!(narrow.right, None);
    assert_eq!(wide.right, Some(Rect::new(88, 0, 32, 20)));
}

#[test]
fn region_hides_on_a_frame_too_short_for_bordered_content() {
    let layout = layout_regions(Rect::new(0, 0, 120, MIN_REGION_HEIGHT - 1), Some(32));

    assert_eq!(layout.right, None);
}

#[test]
fn layout_composes_deterministically_across_frame_sizes() {
    for width in [60_u16, 80, 100, 133, 240] {
        for height in [3_u16, 20, 51] {
            let main_area = Rect::new(3, 1, width, height);

            let layout = layout_regions(main_area, Some(32));

            match layout.right {
                Some(right) => {
                    assert_eq!(right.width, 32);
                    assert_eq!(layout.remaining.width + right.width, width);
                    assert_eq!(layout.remaining.x, main_area.x);
                    assert_eq!(right.x, layout.remaining.x + layout.remaining.width);
                    assert_eq!(right.height, height);
                    assert!(layout.remaining.width >= MIN_TAB_SURFACE_WIDTH);
                }
                None => assert_eq!(layout.remaining, main_area),
            }
        }
    }
}

#[test]
fn a_hostile_size_cannot_consume_the_whole_frame() {
    let main_area = Rect::new(0, 0, 120, 20);

    let layout = layout_regions(main_area, Some(u16::MAX));

    assert_eq!(layout.right, None);
    assert_eq!(layout.remaining, main_area);
}

#[test]
fn bounds_clamp_a_caller_supplied_size() {
    let bounds = RegionSizeBounds::new(Some(18), Some(60));

    assert_eq!(bounds.clamp(0), 18);
    assert_eq!(bounds.clamp(9), 18);
    assert_eq!(bounds.clamp(32), 32);
    assert_eq!(bounds.clamp(u16::MAX), 60);
}

#[test]
fn bounds_cannot_be_widened_past_the_absolute_limits() {
    let bounds = RegionSizeBounds::new(Some(0), Some(u16::MAX));

    assert_eq!(bounds.min(), REGION_SIZE_FLOOR);
    assert_eq!(bounds.max(), REGION_SIZE_CEILING);
    assert_eq!(bounds.clamp(0), REGION_SIZE_FLOOR);
    assert_eq!(bounds.clamp(u16::MAX), REGION_SIZE_CEILING);
}

#[test]
fn inverted_bounds_do_not_produce_an_empty_range() {
    let bounds = RegionSizeBounds::new(Some(60), Some(10));

    assert_eq!(bounds.min(), 60);
    assert_eq!(bounds.max(), 60);
    assert_eq!(bounds.clamp(10), 60);
}

#[test]
fn instance_size_is_clamped_on_construction_and_on_resize() {
    let mut ids = IdCounter::new();
    let mut region = instance(&mut ids, RegionAnchor::Right, u16::MAX, true);
    assert_eq!(region.size(), 60);

    assert_eq!(region.set_size(1), 18);
    assert_eq!(region.size(), 18);
    assert_eq!(region.set_size(40), 40);
}

#[test]
fn a_second_open_for_an_occupied_slot_is_refused() {
    let mut ids = IdCounter::new();
    let mut state = RegionState::default();
    let first = instance(&mut ids, RegionAnchor::Right, 32, true);
    let first_id = first.region_id.clone();
    state.insert(first).expect("first region claims the slot");

    let second = state.insert(instance(&mut ids, RegionAnchor::Right, 20, true));

    assert_eq!(second.err(), Some(RegionSlotOccupied));
    assert_eq!(state.len(), 1);
    assert_eq!(
        state.get(RegionAnchor::Right).map(|r| r.region_id.clone()),
        Some(first_id),
        "the occupying region must not be replaced"
    );
}

#[test]
fn slot_is_released_on_close_and_can_be_claimed_again() {
    let mut ids = IdCounter::new();
    let mut state = RegionState::default();
    state
        .insert(instance(&mut ids, RegionAnchor::Right, 32, true))
        .unwrap();
    let region_id = state.get(RegionAnchor::Right).unwrap().region_id.clone();

    let removed = state.remove_by_id(region_id.as_str());

    assert!(removed.is_some());
    assert!(state.is_empty());
    assert!(state
        .insert(instance(&mut ids, RegionAnchor::Right, 32, true))
        .is_ok());
}

#[test]
fn hidden_regions_report_no_size_so_they_cost_no_layout() {
    let mut ids = IdCounter::new();
    let mut state = RegionState::default();
    state
        .insert(instance(&mut ids, RegionAnchor::Right, 32, false))
        .unwrap();

    assert_eq!(state.shown_size(RegionAnchor::Right), None);

    state.get_mut(RegionAnchor::Right).unwrap().visible = true;

    assert_eq!(state.shown_size(RegionAnchor::Right), Some(32));
}

#[test]
fn removing_by_plugin_takes_only_that_plugins_regions() {
    let mut ids = IdCounter::new();
    let mut state = RegionState::default();
    state
        .insert(instance(&mut ids, RegionAnchor::Right, 32, true))
        .unwrap();

    assert!(state.remove_by_plugin("other").is_empty());
    assert_eq!(state.len(), 1);
    assert_eq!(state.remove_by_plugin("explorer").len(), 1);
    assert!(state.is_empty());
}

#[test]
fn inner_rect_never_underflows_on_a_tiny_outer_rect() {
    assert_eq!(
        region_inner_rect(Rect::new(5, 2, 0, 0)),
        Rect::new(6, 3, 0, 0)
    );
    assert_eq!(
        region_inner_rect(Rect::new(0, 0, 32, 20)),
        Rect::new(1, 1, 30, 18)
    );
}

#[test]
fn a_rectangle_is_cut_at_the_last_coordinate() {
    let rect = Rect::new(u16::MAX - 2, u16::MAX - 1, 10, 10);

    assert_eq!(rect.x, u16::MAX - 2);
    assert_eq!(rect.y, u16::MAX - 1);
    assert_eq!(rect.width, 2);
    assert_eq!(rect.height, 1);
    let plain = ratatui::layout::Rect::new(u16::MAX - 2, u16::MAX - 1, 10, 10);
    assert_eq!(
        (plain.x, plain.y, plain.width, plain.height),
        (rect.x, rect.y, rect.width, rect.height)
    );
}

#[test]
fn a_shown_region_and_the_rest_tile_the_frame_cell_by_cell() {
    let frame = Rect::new(2, 1, 40, 5);
    let layout = layout_regions(frame, Some(10));
    let right = layout.right.unwrap();
    let covers = |rect: Rect, x: u16, y: u16| {
        rect.x <= x && x < rect.x + rect.width && rect.y <= y && y < rect.y + rect.height
    };

    for x in 0..50 {
        for y in 0..10 {
            let parts =
                covers(right, x, y) as usize + covers(layout.remaining, x, y) as usize;
            assert_eq!(parts, covers(frame, x, y) as usize);
        }
    }
}

#[test]
fn a_tiny_request_is_raised_to_the_floor() {
    let layout = layout_regions(Rect::new(0, 0, 24, 3), Some(0));

    assert_eq!(layout.right, Some(Rect::new(20, 0, 4, 3)));
    assert_eq!(layout.remaining, Rect::new(0, 0, 20, 3));
    assert_eq!(layout_regions(Rect::new(0, 0, 23, 3), Some(0)).right, None);
}

#[test]
fn a_huge_frame_gives_a_region_no_more_than_the_ceiling() {
    let layout = layout_regions(Rect::new(0, 0, 1000, 10), Some(u16::MAX));

    assert_eq!(layout.right, Some(Rect::new(600, 0, 400, 10)));
}

#[test]
fn an_empty_layout_is_the_default() {
    assert_eq!(
        RegionLayout::default(),
        RegionLayout { right: None, remaining: Rect::default() }
    );
}

#[test]
fn undeclared_bounds_are_the_defaults() {
    let bounds = RegionSizeBounds::default();

    assert_eq!(bounds.min(), DEFAULT_REGION_MIN_SIZE);
    assert_eq!(bounds.max(), DEFAULT_REGION_MAX_SIZE);
    assert_eq!(RegionSizeBounds::new(Some(300), None).max(), 300);
}

#[test]
fn a_region_is_found_by_its_id_and_by_its_pane() {
    let mut ids = IdCounter::new();
    let mut state = RegionState::default();
    let region = instance(&mut ids, RegionAnchor::Right, 32, true).in_pane(PaneId(7));
    let id = region.region_id.to_string();
    state.insert(region).unwrap();

    assert_eq!(state.get_by_id(&id).unwrap().plugin_id, "explorer");
    assert!(state.get_by_id("region_0").is_none());
    assert_eq!(state.find_by_pane(PaneId(7)).unwrap().entrypoint, "sidebar");
    assert!(state.find_by_pane(PaneId(8)).is_none());
    assert!(state.remove_by_id("region_0").is_none());
    assert_eq!(state.len(), 1);
    state.get_by_id_mut(&id).unwrap().set_size(0);
    assert_eq!(state.get(RegionAnchor::Right).unwrap().size(), 18);
    assert!(state.get_by_id_mut("region_0").is_none());
    assert_eq!(state.iter().len(), 1);
    assert_eq!(state.iter()[0].region_id.as_str(), id);
}

#[test]
fn an_unclaimed_slot_holds_nothing() {
    let mut state = RegionState::default();

    assert!(state.is_empty());
    assert_eq!(state.len(), 0);
    assert!(state.get(RegionAnchor::Right).is_none());
    assert!(state.get_mut(RegionAnchor::Right).is_none());
    assert!(state.iter().is_empty());
    assert_eq!(state.shown_size(RegionAnchor::Right), None);
}

#[test]
fn a_frame_beyond_the_last_column_cannot_show_a_region() {
    let beyond = Rect { x: u16::MAX - 20, y: 0, width: 60, height: 10 };

    assert!(!can_lay_out(beyond, Some(32)));
    assert!(can_lay_out(beyond, None));
    assert!(can_lay_out(beyond, Some(41)));
    assert!(can_lay_out(Rect::new(u16::MAX - 60, 0, 60, 10), Some(32)));
    assert!(can_lay_out(Rect { height: 2, ..beyond }, Some(32)));
    let at_the_edge = Rect { x: u16::MAX - 28, y: 0, width: 60, height: 10 };
    assert!(can_lay_out(at_the_edge, Some(32)));
    let layout = layout_regions(at_the_edge, Some(32));
    assert_eq!(layout.right, Some(Rect { x: u16::MAX, y: 0, width: 0, height: 10 }));
}

#[test]
fn clamping_settles_and_keeps_order() {
    let bounds = RegionSizeBounds::new(Some(18), Some(60));
    let mut last = 0;
    for size in 0..500 {
        let kept = bounds.clamp(size);
        assert_eq!(bounds.clamp(kept), kept);
        assert!(last <= kept);
        last = kept;
    }
}
