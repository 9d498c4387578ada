//! Every live region, keyed by slot.

use std::collections::BTreeMap;

use vstd::prelude::*;

use crate::ids::PaneId;
use crate::region::{RegionAnchor, RegionInstance, RegionScope, RegionView};
use crate::text::same_text;

verus! {

/// Why a region could not be opened into its slot.
#[derive(Debug, Clone, Copy, PartialEq, Eq, Structural)]
pub struct RegionSlotOccupied;

/// The number of an anchor's slot: the place of the anchor among all anchors.
pub open spec fn slot_of(anchor: RegionAnchor) -> u8 {
    match anchor {
        RegionAnchor::Right => 0,
    }
}

/// Every anchor, in slot order.
pub open spec fn anchors_in_order() -> Seq<RegionAnchor> {
    seq![RegionAnchor::Right]
}

/// The live regions by the anchor whose slot they hold.
pub type Slots = Map<RegionAnchor, RegionView>;

/// The anchors whose slot holds a region that `pick` accepts, in slot order.
pub open spec fn picked(slots: Slots, pick: spec_fn(RegionView) -> bool) -> Seq<RegionAnchor> {
    anchors_in_order().filter(held_by(slots, pick))
}

/// Whether an anchor's slot holds a region that `pick` accepts.
pub open spec fn held_by(slots: Slots, pick: spec_fn(RegionView) -> bool) -> spec_fn(
    RegionAnchor,
) -> bool {
    |anchor: RegionAnchor| slots.contains_key(anchor) && pick(slots[anchor])
}

/// The regions that hold the given anchors' slots.
pub open spec fn regions_at(slots: Slots, anchors: Seq<RegionAnchor>) -> Seq<RegionView> {
    anchors.map_values(|anchor: RegionAnchor| slots[anchor])
}

/// Accepts every region.
pub open spec fn any_region() -> spec_fn(RegionView) -> bool {
    |region: RegionView| true
}

/// Accepts the regions with one identifier.
pub open spec fn with_id(region_id: Seq<char>) -> spec_fn(RegionView) -> bool {
    |region: RegionView| region.region_id == region_id
}

/// Accepts the regions of one plugin.
pub open spec fn of_plugin(plugin_id: Seq<char>) -> spec_fn(RegionView) -> bool {
    |region: RegionView| region.plugin_id == plugin_id
}

/// Accepts the regions that one pane shows.
pub open spec fn in_pane(pane_id: PaneId) -> spec_fn(RegionView) -> bool {
    |region: RegionView| region.pane_id == Some(pane_id)
}

/// The first slot in slot order whose region `pick` accepts.
pub open spec fn first_picked(slots: Slots, pick: spec_fn(RegionView) -> bool) -> Option<
    RegionAnchor,
> {
    if picked(slots, pick).len() == 0 {
        None
    } else {
        Some(picked(slots, pick)[0])
    }
}

/// The slots that are left without those whose region `pick` accepts.
pub open spec fn without(slots: Slots, pick: spec_fn(RegionView) -> bool) -> Slots {
    Map::new(
        |anchor: RegionAnchor| slots.contains_key(anchor) && !pick(slots[anchor]),
        |anchor: RegionAnchor| slots[anchor],
    )
}

/// What some regions are.
pub open spec fn views(regions: Seq<RegionInstance>) -> Seq<RegionView> {
    regions.map_values(|region: RegionInstance| region@)
}

/// What some borrowed regions are.
pub open spec fn ref_views(regions: Seq<&RegionInstance>) -> Seq<RegionView> {
    regions.map_values(|region: &RegionInstance| region@)
}

/// The size that the region at an anchor takes from the layout.
pub open spec fn shown_size_of(slots: Slots, anchor: RegionAnchor) -> Option<u16> {
    if slots.contains_key(anchor) && slots[anchor].visible {
        Some(slots[anchor].size)
    } else {
        None
    }
}

fn slot_number(anchor: RegionAnchor) -> (slot: u8)
    ensures
        slot == slot_of(anchor),
{
    match anchor {
        RegionAnchor::Right => 0,
    }
}

fn anchors() -> (anchors: Vec<RegionAnchor>)
    ensures
        anchors@ == anchors_in_order(),
{
    let mut anchors: Vec<RegionAnchor> = Vec::new();
    anchors.push(RegionAnchor::Right);
    anchors
}

/// What is looked for among the live regions.
enum Query<'a> {
    Any,
    Id(&'a str),
    Plugin(&'a str),
    Pane(PaneId),
}

impl<'a> Query<'a> {
    spec fn pick(self) -> spec_fn(RegionView) -> bool {
        match self {
            Query::Any => any_region(),
            Query::Id(region_id) => with_id(region_id@),
            Query::Plugin(plugin_id) => of_plugin(plugin_id@),
            Query::Pane(pane_id) => in_pane(pane_id),
        }
    }

    fn accepts(&self, region: &RegionInstance) -> (accepted: bool)
        ensures
            accepted == (self.pick())(region@),
    {
        match self {
            Query::Any => true,
            Query::Id(region_id) => same_text(region.region_id.as_str(), region_id),
            Query::Plugin(plugin_id) => same_text(region.plugin_id.as_str(), plugin_id),
            Query::Pane(pane_id) => match region.pane_id {
                Some(shown_by) => shown_by == *pane_id,
                None => false,
            },
        }
    }
}

/// `BTreeMap::get_mut`: a mutable reference to the value under the key, `None`
/// where the key is not in the map. What is written through the reference
/// becomes the value under the key; nothing else in the map changes.
#[verifier::external_body]
fn slot_mut(session: &mut BTreeMap<u8, RegionInstance>, slot: u8) -> (found: Option<
    &mut RegionInstance,
>)
    ensures
        match found {
            Some(region) => {
                &&& old(session)@.contains_key(slot)
                &&& *region == old(session)@[slot]
                &&& final(session)@ == old(session)@.insert(slot, *final(region))
            },
            None => !old(session)@.contains_key(slot) && final(session)@ == old(session)@,
        },
{
    session.get_mut(&slot)
}

/// Every live region, keyed by slot.
///
/// The invariant is one region per (scope-instance, anchor). A second open
/// request for an occupied slot is an error rather than a silent replace: two
/// providers fighting over one edge has no correct resolution, and the failure
/// must be visible to the plugin author.
#[derive(Debug)]
pub struct RegionState {
    session: BTreeMap<u8, RegionInstance>,
}

impl View for RegionState {
    type V = Slots;

    closed spec fn view(&self) -> Slots {
        Map::new(
            |anchor: RegionAnchor| self.session@.contains_key(slot_of(anchor)),
            |anchor: RegionAnchor| self.session@[slot_of(anchor)]@,
        )
    }
}

impl RegionState {
    /// Whether every region is held under the number of some anchor's slot.
    pub closed spec fn wf(self) -> bool {
        forall|slot: u8| #[trigger]
            self.session@.contains_key(slot) ==> exists|anchor: RegionAnchor|
                slot_of(anchor) == slot
    }

    /// Claim a slot for a new region.
    pub fn insert(&mut self, instance: RegionInstance) -> (claimed: Result<
        &RegionInstance,
        RegionSlotOccupied,
    >)
        ensures
            old(self).wf() ==> final(self).wf(),
            match claimed {
                Ok(region) => {
                    &&& !old(self)@.contains_key(instance@.anchor)
                    &&& region@ == instance@
                    &&& final(self)@ == old(self)@.insert(instance@.anchor, instance@)
                },
                Err(_) => {
                    &&& old(self)@.contains_key(instance@.anchor)
                    &&& final(self)@ == old(self)@
                },
            },
    {
        let slot: u8 = slot_number(instance.anchor);
        match instance.scope {
            RegionScope::Session => {
                if self.session.contains_key(&slot) {
                    return Err(RegionSlotOccupied);
                }
                self.session.insert(slot, instance);
                Ok(self.session.get(&slot).unwrap())
            },
        }
    }

    pub fn get(&self, anchor: RegionAnchor) -> (found: Option<&RegionInstance>)
        ensures
            match found {
                Some(region) => self@.contains_key(anchor) && region@ == self@[anchor],
                None => !self@.contains_key(anchor),
            },
    {
        self.session.get(&slot_number(anchor))
    }

    pub fn get_mut(&mut self, anchor: RegionAnchor) -> (found: Option<&mut RegionInstance>)
        ensures
            old(self).wf() ==> final(self).wf(),
            match found {
                Some(region) => {
                    &&& old(self)@.contains_key(anchor)
                    &&& region@ == old(self)@[anchor]
                    &&& final(self)@ == old(self)@.insert(anchor, final(region)@)
                },
                None => !old(self)@.contains_key(anchor) && final(self)@ == old(self)@,
            },
    {
        slot_mut(&mut self.session, slot_number(anchor))
    }

    pub fn is_empty(&self) -> (empty: bool)
        requires
            self.wf(),
        ensures
            empty == (self@ == Slots::empty()),
    {
        proof {
            if self.session@.dom().is_empty() {
                assert(self@ =~= Slots::empty());
            } else {
                let slot = self.session@.dom().choose();
                assert(self.session@.contains_key(slot));
                let anchor = choose|anchor: RegionAnchor| slot_of(anchor) == slot;
                assert(self@.contains_key(anchor));
            }
        }
        self.session.is_empty()
    }

    pub fn len(&self) -> (len: usize)
        requires
            self.wf(),
        ensures
            len == self@.len(),
    {
        proof {
            self.lemma_counts();
        }
        self.session.len()
    }

    proof fn lemma_counts(&self)
        requires
            self.wf(),
        ensures
            self@.dom().finite(),
            self@.len() == self.session@.len(),
    {
        lemma_slots_are_counted(self@.dom(), self.session@.dom());
    }

    /// The anchors whose region the query accepts, in slot order.
    fn slots(&self, query: &Query) -> (found: Vec<RegionAnchor>)
        ensures
            found@ == picked(self@, query.pick()),
    {
        let all = anchors();
        let ghost held = held_by(self@, query.pick());
        let mut found: Vec<RegionAnchor> = Vec::new();
        let mut next: usize = 0;
        proof {
            reveal(Seq::filter);
            assert(all@.take(0).filter(held) =~= Seq::<RegionAnchor>::empty());
        }
        while next < all.len()
            invariant
                next <= all@.len(),
                all@ == anchors_in_order(),
                held == held_by(self@, query.pick()),
                found@ == all@.take(next as int).filter(held),
            decreases all@.len() - next,
        {
            let anchor = all[next];
            proof {
                reveal(Seq::filter);
                assert(all@.take(next + 1).drop_last() =~= all@.take(next as int));
            }
            match self.get(anchor) {
                Some(region) => {
                    if query.accepts(region) {
                        found.push(anchor);
                    }
                },
                None => {},
            }
            next += 1;
        }
        proof {
            assert(all@.take(next as int) =~= all@);
        }
        found
    }

    /// The first anchor in slot order whose region the query accepts.
    fn first_slot(&self, query: &Query) -> (found: Option<RegionAnchor>)
        ensures
            found == first_picked(self@, query.pick()),
            found matches Some(anchor) ==> self@.contains_key(anchor) && (query.pick())(
                self@[anchor],
            ),
    {
        let found = self.slots(query);
        proof {
            lemma_picked_are_held(self@, query.pick());
        }
        if found.len() == 0 {
            None
        } else {
            Some(found[0])
        }
    }

    pub fn get_by_id(&self, region_id: &str) -> (found: Option<&RegionInstance>)
        ensures
            match first_picked(self@, with_id(region_id@)) {
                Some(anchor) => {
                    &&& found matches Some(region)
                    &&& region@ == self@[anchor]
                    &&& region@.region_id == region_id@
                },
                None => found is None,
            },
    {
        match self.first_slot(&Query::Id(region_id)) {
            Some(anchor) => self.get(anchor),
            None => None,
        }
    }

    pub fn get_by_id_mut(&mut self, region_id: &str) -> (found: Option<&mut RegionInstance>)
        ensures
            old(self).wf() ==> final(self).wf(),
            match first_picked(old(self)@, with_id(region_id@)) {
                Some(anchor) => {
                    &&& found matches Some(region)
                    &&& region@ == old(self)@[anchor]
                    &&& final(self)@ == old(self)@.insert(anchor, final(region)@)
                },
                None => found is None && final(self)@ == old(self)@,
            },
    {
        match self.first_slot(&Query::Id(region_id)) {
            Some(anchor) => self.get_mut(anchor),
            None => None,
        }
    }

    /// The region that a pane shows.
    pub fn find_by_pane(&self, pane_id: PaneId) -> (found: Option<&RegionInstance>)
        ensures
            match first_picked(self@, in_pane(pane_id)) {
                Some(anchor) => {
                    &&& found matches Some(region)
                    &&& region@ == self@[anchor]
                    &&& region@.pane_id == Some(pane_id)
                },
                None => found is None,
            },
    {
        match self.first_slot(&Query::Pane(pane_id)) {
            Some(anchor) => self.get(anchor),
            None => None,
        }
    }

    fn remove(&mut self, anchor: RegionAnchor) -> (removed: Option<RegionInstance>)
        ensures
            old(self).wf() ==> final(self).wf(),
            final(self)@ == old(self)@.remove(anchor),
            match removed {
                Some(region) => old(self)@.contains_key(anchor) && region@ == old(self)@[anchor],
                None => !old(self)@.contains_key(anchor),
            },
    {
        self.session.remove(&slot_number(anchor))
    }

    pub fn remove_by_id(&mut self, region_id: &str) -> (removed: Option<RegionInstance>)
        ensures
            old(self).wf() ==> final(self).wf(),
            match first_picked(old(self)@, with_id(region_id@)) {
                Some(anchor) => {
                    &&& removed matches Some(region)
                    &&& region@ == old(self)@[anchor]
                    &&& region@.region_id == region_id@
                    &&& final(self)@ == old(self)@.remove(anchor)
                },
                None => removed is None && final(self)@ == old(self)@,
            },
    {
        match self.first_slot(&Query::Id(region_id)) {
            Some(anchor) => self.remove(anchor),
            None => None,
        }
    }

    /// Remove every region owned by one plugin, returning them in slot order.
    pub fn remove_by_plugin(&mut self, plugin_id: &str) -> (removed: Vec<RegionInstance>)
        ensures
            old(self).wf() ==> final(self).wf(),
            views(removed@) == regions_at(old(self)@, picked(old(self)@, of_plugin(plugin_id@))),
            final(self)@ == without(old(self)@, of_plugin(plugin_id@)),
    {
        let anchors = self.slots(&Query::Plugin(plugin_id));
        let ghost slots = self@;
        proof {
            lemma_picked_are_held(slots, of_plugin(plugin_id@));
            lemma_picked_are_distinct(slots, of_plugin(plugin_id@));
        }
        let mut removed: Vec<RegionInstance> = Vec::new();
        let mut next: usize = 0;
        while next < anchors.len()
            invariant
                next <= anchors@.len(),
                anchors@.no_duplicates(),
                forall|i: int|
                    0 <= i < anchors@.len() ==> slots.contains_key(#[trigger] anchors@[i]),
                views(removed@) == regions_at(slots, anchors@.take(next as int)),
                self@ == slots.remove_keys(anchors@.take(next as int).to_set()),
                slots == old(self)@,
                old(self).wf() ==> self.wf(),
            decreases anchors@.len() - next,
        {
            let anchor = anchors[next];
            proof {
                assert(!anchors@.take(next as int).contains(anchor));
            }
            let ghost before = anchors@.take(next as int);
            match self.remove(anchor) {
                Some(region) => removed.push(region),
                None => {},
            }
            next += 1;
            proof {
                assert(anchors@.take(next as int) =~= before.push(anchor));
                assert(views(removed@) =~= regions_at(slots, before).push(slots[anchor]));
                assert(regions_at(slots, before.push(anchor)) =~= regions_at(slots, before).push(
                    slots[anchor],
                ));
                assert(before.push(anchor).to_set() =~= before.to_set().insert(anchor)) by {
                    before.lemma_push_to_set_commute(anchor);
                }
                assert(self@ =~= slots.remove_keys(before.push(anchor).to_set()));
            }
        }
        proof {
            assert(anchors@.take(next as int) =~= anchors@);
            assert(self@ =~= without(slots, of_plugin(plugin_id@)));
        }
        removed
    }

    /// The live regions, in slot order.
    pub fn iter(&self) -> (regions: Vec<&RegionInstance>)
        ensures
            ref_views(regions@) == regions_at(self@, picked(self@, any_region())),
    {
        let anchors = self.slots(&Query::Any);
        proof {
            lemma_picked_are_held(self@, any_region());
        }
        let mut regions: Vec<&RegionInstance> = Vec::new();
        let mut next: usize = 0;
        while next < anchors.len()
            invariant
                next <= anchors@.len(),
                forall|i: int|
                    0 <= i < anchors@.len() ==> self@.contains_key(#[trigger] anchors@[i]),
                ref_views(regions@) == regions_at(self@, anchors@.take(next as int)),
            decreases anchors@.len() - next,
        {
            let anchor = anchors[next];
            let ghost before = anchors@.take(next as int);
            match self.get(anchor) {
                Some(region) => regions.push(region),
                None => {},
            }
            next += 1;
            proof {
                assert(anchors@.take(next as int) =~= before.push(anchor));
                assert(ref_views(regions@) =~= regions_at(self@, before).push(self@[anchor]));
                assert(regions_at(self@, before.push(anchor)) =~= regions_at(self@, before).push(
                    self@[anchor],
                ));
            }
        }
        proof {
            assert(anchors@.take(next as int) =~= anchors@);
        }
        regions
    }

    /// Size of the shown region at one anchor, by key rather than by scan.
    ///
    /// Returns `None` when the slot is empty or the region is hidden, so a
    /// hidden region costs no layout and no resize work.
    pub fn shown_size(&self, anchor: RegionAnchor) -> (size: Option<u16>)
        ensures
            size == shown_size_of(self@, anchor),
    {
        match self.get(anchor) {
            Some(region) => {
                if region.visible {
                    Some(region.size())
                } else {
                    None
                }
            },
            None => None,
        }
    }
}

impl Clone for RegionState {
    fn clone(&self) -> (copy: RegionState)
        ensures
            copy@ == self@,
            self.wf() ==> copy.wf(),
    {
        RegionState { session: self.session.clone() }
    }
}

impl Default for RegionState {
    fn default() -> (state: RegionState)
        ensures
            state.wf(),
            state@ == Slots::empty(),
    {
        let state = RegionState { session: BTreeMap::new() };
        assert(state@ =~= Slots::empty());
        state
    }
}

proof fn lemma_slots_are_counted(anchors: Set<RegionAnchor>, numbers: Set<u8>)
    requires
        numbers.finite(),
        forall|anchor: RegionAnchor| #[trigger]
            anchors.contains(anchor) <==> numbers.contains(slot_of(anchor)),
        forall|number: u8| #[trigger]
            numbers.contains(number) ==> exists|anchor: RegionAnchor| slot_of(anchor) == number,
    ensures
        anchors.finite(),
        anchors.len() == numbers.len(),
    decreases numbers.len(),
{
    if numbers.len() == 0 {
        assert(anchors =~= Set::empty());
    } else {
        let number = numbers.choose();
        let anchor = choose|anchor: RegionAnchor| slot_of(anchor) == number;
        lemma_slots_are_counted(anchors.remove(anchor), numbers.remove(number));
        assert(anchors =~= anchors.remove(anchor).insert(anchor));
    }
}

pub(crate) proof fn lemma_picked_are_held(slots: Slots, pick: spec_fn(RegionView) -> bool)
    ensures
        forall|i: int|
            0 <= i < picked(slots, pick).len() ==> slots.contains_key(
                #[trigger] picked(slots, pick)[i],
            ) && pick(slots[picked(slots, pick)[i]]),
        forall|anchor: RegionAnchor|
            slots.contains_key(anchor) && pick(slots[anchor]) ==> #[trigger] picked(
                slots,
                pick,
            ).contains(anchor),
{
    broadcast use vstd::seq_lib::group_filter_ensures;

    let held = held_by(slots, pick);
    assert forall|i: int| 0 <= i < picked(slots, pick).len() implies slots.contains_key(
        #[trigger] picked(slots, pick)[i],
    ) && pick(slots[picked(slots, pick)[i]]) by {
        assert(held(anchors_in_order().filter(held)[i]));
    }
    assert forall|anchor: RegionAnchor|
        slots.contains_key(anchor) && pick(slots[anchor]) implies #[trigger] picked(
        slots,
        pick,
    ).contains(anchor) by {
        let place = slot_of(anchor) as int;
        assert(anchors_in_order()[place] == anchor);
        assert(held(anchors_in_order()[place]));
    }
}

proof fn lemma_filter_keeps_distinct(anchors: Seq<RegionAnchor>, held: spec_fn(RegionAnchor) -> bool)
    requires
        anchors.no_duplicates(),
    ensures
        anchors.filter(held).no_duplicates(),
        forall|anchor: RegionAnchor|
            anchors.filter(held).contains(anchor) ==> anchors.contains(anchor),
    decreases anchors.len(),
{
    reveal(Seq::filter);
    if anchors.len() > 0 {
        lemma_filter_keeps_distinct(anchors.drop_last(), held);
        let kept = anchors.drop_last().filter(held);
        assert(!kept.contains(anchors.last()));
        assert forall|anchor: RegionAnchor|
            anchors.filter(held).contains(anchor) implies anchors.contains(anchor) by {
            if kept.contains(anchor) {
                assert(anchors.drop_last().contains(anchor));
            }
        }
    }
}

proof fn lemma_picked_are_distinct(slots: Slots, pick: spec_fn(RegionView) -> bool)
    ensures
        picked(slots, pick).no_duplicates(),
{
    lemma_filter_keeps_distinct(anchors_in_order(), held_by(slots, pick));
}

/// A search gives the matching region in the first slot, and gives none only
/// where no live region matches.
pub proof fn a_search_gives_the_first_match(slots: Slots, pick: spec_fn(RegionView) -> bool)
    ensures
        match first_picked(slots, pick) {
            Some(anchor) => {
                &&& slots.contains_key(anchor)
                &&& pick(slots[anchor])
                &&& forall|other: RegionAnchor|
                    slots.contains_key(other) && pick(#[trigger] slots[other]) ==> slot_of(anchor)
                        <= slot_of(other)
            },
            None => forall|anchor: RegionAnchor| #[trigger]
                slots.contains_key(anchor) ==> !pick(slots[anchor]),
        },
{
    lemma_picked_are_held(slots, pick);
    assert forall|anchor: RegionAnchor|
        picked(slots, pick).len() == 0 && #[trigger] slots.contains_key(anchor) implies !pick(
        slots[anchor],
    ) by {
        if pick(slots[anchor]) {
            assert(picked(slots, pick).contains(anchor));
        }
    }
}

/// Releasing a slot undoes claiming it, and frees it to be claimed again.
pub proof fn releasing_undoes_claiming(slots: Slots, region: RegionView)
    requires
        !slots.contains_key(region.anchor),
    ensures
        ({
            let claimed = slots.insert(region.anchor, region);
            &&& claimed.contains_key(region.anchor)
            &&& first_picked(claimed, with_id(region.region_id)) == Some(region.anchor)
            &&& claimed.remove(region.anchor) == slots
        }),
{
    let claimed = slots.insert(region.anchor, region);
    a_search_gives_the_first_match(claimed, with_id(region.region_id));
    assert((with_id(region.region_id))(claimed[region.anchor]));
    assert(claimed.contains_key(region.anchor));
    assert(claimed.remove(region.anchor) =~= slots);
}

/// Removing a plugin's regions leaves none of them and every other one, and
/// finds nothing the second time.
pub proof fn removing_a_plugin_takes_only_its_regions(slots: Slots, plugin_id: Seq<char>)
    ensures
        ({
            let left = without(slots, of_plugin(plugin_id));
            &&& forall|anchor: RegionAnchor| #[trigger]
                left.contains_key(anchor) <==> slots.contains_key(anchor)
                    && slots[anchor].plugin_id != plugin_id
            &&& forall|anchor: RegionAnchor| #[trigger]
                left.contains_key(anchor) ==> left[anchor] == slots[anchor]
            &&& picked(left, of_plugin(plugin_id)).len() == 0
            &&& without(left, of_plugin(plugin_id)) == left
        }),
{
    let pick = of_plugin(plugin_id);
    let left = without(slots, pick);
    lemma_picked_are_held(left, pick);
    if picked(left, pick).len() > 0 {
        assert(left.contains_key(picked(left, pick)[0]));
    }
    assert(without(left, pick) =~= left);
}

/// A plugin without regions loses none.
pub proof fn removing_a_plugin_without_regions_changes_nothing(slots: Slots, plugin_id: Seq<char>)
    requires
        picked(slots, of_plugin(plugin_id)).len() == 0,
    ensures
        without(slots, of_plugin(plugin_id)) == slots,
{
    lemma_picked_are_held(slots, of_plugin(plugin_id));
    assert forall|anchor: RegionAnchor| slots.contains_key(anchor) implies slots[anchor].plugin_id
        != plugin_id by {
        if slots[anchor].plugin_id == plugin_id {
            assert(picked(slots, of_plugin(plugin_id)).contains(anchor));
        }
    }
    assert(without(slots, of_plugin(plugin_id)) =~= slots);
}

/// The regions listed are exactly the live ones, each once, and there are no
/// more of them than anchors.
pub proof fn every_live_region_is_listed_once(slots: Slots)
    ensures
        picked(slots, any_region()).to_set() == slots.dom(),
        picked(slots, any_region()).no_duplicates(),
        slots.len() == picked(slots, any_region()).len(),
        slots.len() <= anchors_in_order().len(),
{
    lemma_picked_are_held(slots, any_region());
    lemma_picked_are_distinct(slots, any_region());
    let listed = picked(slots, any_region());
    assert forall|anchor: RegionAnchor|
        listed.to_set().contains(anchor) <==> slots.dom().contains(anchor) by {
        if slots.contains_key(anchor) {
            assert((any_region())(slots[anchor]));
            assert(listed.contains(anchor));
        }
    }
    assert(listed.to_set() =~= slots.dom());
    listed.unique_seq_to_set();
    anchors_in_order().lemma_filter_len(held_by(slots, any_region()));
}

/// A hidden region takes no size from the layout; a shown one takes its own.
pub proof fn a_hidden_region_costs_no_layout(slots: Slots, anchor: RegionAnchor)
    requires
        slots.contains_key(anchor),
    ensures
        !slots[anchor].visible ==> shown_size_of(slots, anchor) is None,
        slots[anchor].visible ==> shown_size_of(slots, anchor) == Some(slots[anchor].size),
{
}

/// An empty slot takes no size from the layout.
pub proof fn an_empty_slot_costs_no_layout(slots: Slots, anchor: RegionAnchor)
    requires
        !slots.contains_key(anchor),
    ensures
        shown_size_of(slots, anchor) is None,
{
}

/// A search by identifier gives a live region with that identifier, and gives
/// none only where no live region has it.
pub proof fn a_region_is_found_by_its_identifier(slots: Slots, region_id: Seq<char>)
    ensures
        match first_picked(slots, with_id(region_id)) {
            Some(anchor) => slots.contains_key(anchor) && slots[anchor].region_id == region_id,
            None => forall|anchor: RegionAnchor| #[trigger]
                slots.contains_key(anchor) ==> slots[anchor].region_id != region_id,
        },
{
    a_search_gives_the_first_match(slots, with_id(region_id));
}

/// A search by pane gives a live region that the pane shows, and gives none only
/// where the pane shows none.
pub proof fn a_region_is_found_by_its_pane(slots: Slots, pane_id: PaneId)
    ensures
        match first_picked(slots, in_pane(pane_id)) {
            Some(anchor) => slots.contains_key(anchor) && slots[anchor].pane_id == Some(pane_id),
            None => forall|anchor: RegionAnchor| #[trigger]
                slots.contains_key(anchor) ==> slots[anchor].pane_id != Some(pane_id),
        },
{
    a_search_gives_the_first_match(slots, in_pane(pane_id));
}

/// Whether `regions` are the regions in the slots of `anchors`, each anchor once
/// and in slot order.
pub open spec fn stand_in_order(
    slots: Slots,
    anchors: Seq<RegionAnchor>,
    regions: Seq<RegionView>,
) -> bool {
    &&& regions.len() == anchors.len()
    &&& forall|i: int|
        0 <= i < anchors.len() ==> slots.contains_key(#[trigger] anchors[i]) && regions[i]
            == slots[anchors[i]]
    &&& forall|i: int, j: int|
        0 <= i < j < anchors.len() ==> slot_of(#[trigger] anchors[i]) < slot_of(
            #[trigger] anchors[j],
        )
}

proof fn lemma_picked_stand_in_order(slots: Slots, pick: spec_fn(RegionView) -> bool)
    ensures
        stand_in_order(slots, picked(slots, pick), regions_at(slots, picked(slots, pick))),
{
    lemma_picked_are_held(slots, pick);
    anchors_in_order().lemma_filter_len(held_by(slots, pick));
}

/// The regions that are gone through are all the live ones, visible or not, in
/// slot order.
pub proof fn every_live_region_is_gone_through(slots: Slots)
    ensures
        ({
            let regions = regions_at(slots, picked(slots, any_region()));
            &&& regions.len() == slots.len()
            &&& exists|anchors: Seq<RegionAnchor>|
                #![trigger stand_in_order(slots, anchors, regions)]
                {
                    &&& stand_in_order(slots, anchors, regions)
                    &&& forall|anchor: RegionAnchor| #[trigger]
                        slots.contains_key(anchor) ==> anchors.contains(anchor)
                }
        }),
{
    let anchors = picked(slots, any_region());
    every_live_region_is_listed_once(slots);
    lemma_picked_stand_in_order(slots, any_region());
    assert forall|anchor: RegionAnchor| #[trigger] slots.contains_key(anchor) implies
        anchors.contains(anchor) by {
        assert(anchors.to_set().contains(anchor));
    }
}

/// The regions that a plugin loses are all of its own and no other, in slot
/// order.
pub proof fn a_plugin_loses_exactly_its_own_regions(slots: Slots, plugin_id: Seq<char>)
    ensures
        ({
            let regions = regions_at(slots, picked(slots, of_plugin(plugin_id)));
            &&& forall|i: int|
                0 <= i < regions.len() ==> (#[trigger] regions[i]).plugin_id == plugin_id
            &&& exists|anchors: Seq<RegionAnchor>|
                #![trigger stand_in_order(slots, anchors, regions)]
                {
                    &&& stand_in_order(slots, anchors, regions)
                    &&& forall|anchor: RegionAnchor| #[trigger]
                        slots.contains_key(anchor) && slots[anchor].plugin_id == plugin_id
                            ==> anchors.contains(anchor)
                }
        }),
{
    let pick = of_plugin(plugin_id);
    let anchors = picked(slots, pick);
    let regions = regions_at(slots, anchors);
    lemma_picked_are_held(slots, pick);
    lemma_picked_stand_in_order(slots, pick);
    assert forall|i: int| 0 <= i < regions.len() implies (#[trigger] regions[i]).plugin_id
        == plugin_id by {
        assert(pick(slots[anchors[i]]));
    }
    assert forall|anchor: RegionAnchor| #[trigger]
        slots.contains_key(anchor) && slots[anchor].plugin_id == plugin_id implies
        anchors.contains(anchor) by {
        assert(pick(slots[anchor]));
    }
}

/// Regions are viewed one by one, in order, none left out.
pub proof fn every_region_is_viewed(
    regions: Seq<RegionInstance>,
    borrowed: Seq<&RegionInstance>,
)
    ensures
        views(regions).len() == regions.len(),
        forall|i: int| 0 <= i < regions.len() ==> #[trigger] views(regions)[i] == regions[i]@,
        ref_views(borrowed).len() == borrowed.len(),
        forall|i: int|
            0 <= i < borrowed.len() ==> #[trigger] ref_views(borrowed)[i] == borrowed[i]@,
{
}

} // verus!
