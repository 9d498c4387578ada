//! Installed plugins and the regions that their manifests declare.

use vstd::prelude::*;

use crate::region::{RegionAnchor, RegionScope};
use crate::text::{copy_texts, same_text, texts};

verus! {

/// What a manifest declares of one region.
#[verifier::ext_equal]
pub struct ManifestView {
    pub id: Seq<char>,
    pub title: Seq<char>,
    pub command: Seq<Seq<char>>,
    pub anchor: RegionAnchor,
    pub scope: RegionScope,
    pub size: Option<u16>,
    pub min_size: Option<u16>,
    pub max_size: Option<u16>,
    pub platforms: Seq<Seq<char>>,
}

/// One region that a plugin's manifest declares.
#[derive(Debug, PartialEq, Eq)]
pub struct PluginManifestRegion {
    /// The entrypoint by which the region is opened.
    pub id: String,
    pub title: String,
    /// The program and its arguments.
    pub command: Vec<String>,
    pub anchor: RegionAnchor,
    pub scope: RegionScope,
    /// Preferred size.
    pub size: Option<u16>,
    pub min_size: Option<u16>,
    pub max_size: Option<u16>,
    pub platforms: Vec<String>,
}

impl View for PluginManifestRegion {
    type V = ManifestView;

    open spec fn view(&self) -> ManifestView {
        ManifestView {
            id: self.id@,
            title: self.title@,
            command: texts(self.command@),
            anchor: self.anchor,
            scope: self.scope,
            size: self.size,
            min_size: self.min_size,
            max_size: self.max_size,
            platforms: texts(self.platforms@),
        }
    }
}

impl Clone for PluginManifestRegion {
    fn clone(&self) -> (copy: PluginManifestRegion)
        ensures
            copy@ == self@,
    {
        PluginManifestRegion {
            id: self.id.clone(),
            title: self.title.clone(),
            command: copy_texts(&self.command),
            anchor: self.anchor,
            scope: self.scope,
            size: self.size,
            min_size: self.min_size,
            max_size: self.max_size,
            platforms: copy_texts(&self.platforms),
        }
    }
}

/// What is known of one installed plugin.
#[verifier::ext_equal]
pub struct PluginView {
    pub plugin_id: Seq<char>,
    pub enabled: bool,
    pub regions: Seq<ManifestView>,
    pub platforms: Seq<Seq<char>>,
}

/// One installed plugin.
#[derive(Debug, PartialEq, Eq)]
pub struct InstalledPluginInfo {
    pub plugin_id: String,
    pub enabled: bool,
    pub regions: Vec<PluginManifestRegion>,
    pub platforms: Vec<String>,
}

/// What some manifest entries declare.
pub open spec fn manifest_views(regions: Seq<PluginManifestRegion>) -> Seq<ManifestView> {
    regions.map_values(|region: PluginManifestRegion| region@)
}

impl View for InstalledPluginInfo {
    type V = PluginView;

    open spec fn view(&self) -> PluginView {
        PluginView {
            plugin_id: self.plugin_id@,
            enabled: self.enabled,
            regions: manifest_views(self.regions@),
            platforms: texts(self.platforms@),
        }
    }
}

impl Clone for InstalledPluginInfo {
    fn clone(&self) -> (copy: InstalledPluginInfo)
        ensures
            copy@ == self@,
    {
        let regions = self.regions.clone();
        assert(manifest_views(regions@) =~= manifest_views(self.regions@)) by {
            assert forall|i: int| 0 <= i < regions@.len() implies #[trigger] regions@[i]@
                == self.regions@[i]@ by {
                assert(cloned::<PluginManifestRegion>(self.regions@[i], regions@[i]));
            }
        }
        InstalledPluginInfo {
            plugin_id: self.plugin_id.clone(),
            enabled: self.enabled,
            regions,
            platforms: copy_texts(&self.platforms),
        }
    }
}

/// The first entry with the given id, as the manifest lists them.
pub open spec fn declared_region(regions: Seq<ManifestView>, id: Seq<char>) -> Option<ManifestView>
    decreases regions.len(),
{
    if regions.len() == 0 {
        None
    } else if regions[0].id == id {
        Some(regions[0])
    } else {
        declared_region(regions.drop_first(), id)
    }
}

impl InstalledPluginInfo {
    /// The region that the manifest declares under an entrypoint.
    pub fn region(&self, entrypoint: &str) -> (found: Option<&PluginManifestRegion>)
        ensures
            match declared_region(self@.regions, entrypoint@) {
                Some(manifest) => found matches Some(region) && region@ == manifest,
                None => found is None,
            },
    {
        let ghost all = self@.regions;
        let mut next: usize = 0;
        assert(all.skip(0) =~= all);
        while next < self.regions.len()
            invariant
                next <= self.regions@.len(),
                all == manifest_views(self.regions@),
                declared_region(all, entrypoint@) == declared_region(
                    all.skip(next as int),
                    entrypoint@,
                ),
            decreases self.regions@.len() - next,
        {
            let region = &self.regions[next];
            assert(all.skip(next as int)[0] == region@);
            if same_text(region.id.as_str(), entrypoint) {
                return Some(region);
            }
            assert(all.skip(next as int).drop_first() =~= all.skip(next + 1));
            next += 1;
        }
        assert(all.skip(next as int).len() == 0);
        None
    }
}

/// Only declared regions are found, and every declared id finds one.
pub proof fn only_declared_regions_are_found(regions: Seq<ManifestView>, id: Seq<char>)
    ensures
        match declared_region(regions, id) {
            Some(manifest) => regions.contains(manifest) && manifest.id == id,
            None => forall|i: int| 0 <= i < regions.len() ==> (#[trigger] regions[i]).id != id,
        },
    decreases regions.len(),
{
    if regions.len() > 0 && regions[0].id != id {
        let rest = regions.drop_first();
        only_declared_regions_are_found(rest, id);
        match declared_region(regions, id) {
            Some(manifest) => {
                let i = choose|i: int| 0 <= i < rest.len() && rest[i] == manifest;
                assert(regions[i + 1] == manifest);
            },
            None => {
                assert forall|i: int| 0 <= i < regions.len() implies (#[trigger] regions[i]).id
                    != id by {
                    if i > 0 {
                        assert(rest[i - 1] == regions[i]);
                    }
                }
            },
        }
    }
}

/// Of several entries with one id, the one that the manifest lists first is
/// found.
pub proof fn the_first_declared_region_is_found(regions: Seq<ManifestView>, i: int)
    requires
        0 <= i < regions.len(),
        forall|j: int| 0 <= j < i ==> (#[trigger] regions[j]).id != regions[i].id,
    ensures
        declared_region(regions, regions[i].id) == Some(regions[i]),
    decreases regions.len(),
{
    if i > 0 {
        let rest = regions.drop_first();
        assert forall|j: int| 0 <= j < i - 1 implies (#[trigger] rest[j]).id != rest[i - 1].id by {
            assert(rest[j] == regions[j + 1]);
        }
        assert(regions[0].id != regions[i].id);
        the_first_declared_region_is_found(rest, i - 1);
    }
}

/// The installed plugins by their ids.
#[derive(Debug)]
pub struct PluginRegistry {
    plugins: Vec<InstalledPluginInfo>,
}

impl View for PluginRegistry {
    type V = Map<Seq<char>, PluginView>;

    closed spec fn view(&self) -> Map<Seq<char>, PluginView> {
        Map::new(
            |id: Seq<char>| exists|i: int| registered_at(self.plugins@, id, i),
            |id: Seq<char>| self.plugins@[choose|i: int| registered_at(self.plugins@, id, i)]@,
        )
    }
}

/// Whether the plugin with an id stands at a place of the list.
spec fn registered_at(plugins: Seq<InstalledPluginInfo>, id: Seq<char>, i: int) -> bool {
    0 <= i < plugins.len() && plugins[i].plugin_id@ == id
}

/// Whether no two places of the list share an id.
spec fn ids_are_distinct(plugins: Seq<InstalledPluginInfo>) -> bool {
    forall|id: Seq<char>, i: int, j: int|
        #![trigger registered_at(plugins, id, i), registered_at(plugins, id, j)]
        registered_at(plugins, id, i) && registered_at(plugins, id, j) ==> i == j
}

impl PluginRegistry {
    #[verifier::type_invariant]
    spec fn no_id_twice(self) -> bool {
        ids_are_distinct(self.plugins@)
    }

    pub fn new() -> (registry: PluginRegistry)
        ensures
            registry@ == Map::<Seq<char>, PluginView>::empty(),
    {
        let registry = PluginRegistry { plugins: Vec::new() };
        assert(registry@ =~= Map::<Seq<char>, PluginView>::empty());
        registry
    }

    fn position(&self, plugin_id: &str) -> (found: Option<usize>)
        ensures
            match found {
                Some(i) => registered_at(self.plugins@, plugin_id@, i as int),
                None => forall|i: int| !registered_at(self.plugins@, plugin_id@, i),
            },
    {
        let mut next: usize = 0;
        while next < self.plugins.len()
            invariant
                next <= self.plugins@.len(),
                forall|i: int| 0 <= i < next ==> !registered_at(self.plugins@, plugin_id@, i),
            decreases self.plugins@.len() - next,
        {
            if same_text(self.plugins[next].plugin_id.as_str(), plugin_id) {
                return Some(next);
            }
            next += 1;
        }
        None
    }

    /// Register a plugin, in place of one with the same id.
    pub fn insert(&mut self, plugin: InstalledPluginInfo)
        ensures
            final(self)@ == old(self)@.insert(plugin@.plugin_id, plugin@),
    {
        proof {
            use_type_invariant(&*self);
        }
        let place = self.position(plugin.plugin_id.as_str());
        let ghost before = *self;
        let ghost id = plugin@.plugin_id;
        let mut plugins: Vec<InstalledPluginInfo> = Vec::new();
        std::mem::swap(&mut plugins, &mut self.plugins);
        let ghost listed = plugins@;
        let ghost at: int = match place {
            Some(i) => i as int,
            None => listed.len() as int,
        };
        match place {
            Some(i) => {
                plugins.set(i, plugin);
            },
            None => {
                plugins.push(plugin);
            },
        }
        proof {
            assert forall|other: Seq<char>, i: int| #[trigger] registered_at(
                plugins@,
                other,
                i,
            ) implies (other == id && i == at) || (other != id && registered_at(listed, other, i)) by {
                if i != at {
                    assert(plugins@[i] == listed[i]);
                    assert(registered_at(listed, other, i));
                }
            }
            assert(registered_at(plugins@, id, at));
            assert forall|other: Seq<char>, i: int| other != id && registered_at(
                listed,
                other,
                i,
            ) implies registered_at(plugins@, other, i) by {
                assert(i != at);
            }
            assert(ids_are_distinct(listed));
            assert(ids_are_distinct(plugins@));
        }
        self.plugins = plugins;
        proof {
            let after = *self;
            assert forall|other: Seq<char>|
                after@.contains_key(other) <==> before@.insert(id, plugin@).contains_key(other) by {
                if other != id {
                    if after@.contains_key(other) {
                        let i = choose|i: int| registered_at(after.plugins@, other, i);
                        assert(registered_at(before.plugins@, other, i));
                    }
                    if before@.contains_key(other) {
                        let i = choose|i: int| registered_at(before.plugins@, other, i);
                        assert(registered_at(after.plugins@, other, i));
                    }
                }
            }
            assert forall|other: Seq<char>| after@.contains_key(other) implies after@[other]
                == before@.insert(id, plugin@)[other] by {
                let i = choose|i: int| registered_at(after.plugins@, other, i);
                assert(registered_at(after.plugins@, other, i));
                if other != id {
                    let j = choose|j: int| registered_at(before.plugins@, other, j);
                    assert(registered_at(before.plugins@, other, i));
                }
            }
            assert(after@ =~= before@.insert(id, plugin@));
        }
    }

    pub fn get(&self, plugin_id: &str) -> (found: Option<&InstalledPluginInfo>)
        ensures
            match found {
                Some(plugin) => {
                    &&& self@.contains_key(plugin_id@)
                    &&& plugin@ == self@[plugin_id@]
                    &&& plugin@.plugin_id == plugin_id@
                },
                None => !self@.contains_key(plugin_id@),
            },
    {
        proof {
            use_type_invariant(self);
        }
        match self.position(plugin_id) {
            Some(i) => {
                proof {
                    let j = choose|j: int| registered_at(self.plugins@, plugin_id@, j);
                    assert(registered_at(self.plugins@, plugin_id@, i as int));
                    assert(registered_at(self.plugins@, plugin_id@, j));
                }
                Some(&self.plugins[i])
            },
            None => None,
        }
    }
}

impl Default for PluginRegistry {
    fn default() -> (registry: PluginRegistry)
        ensures
            registry@ == Map::<Seq<char>, PluginView>::empty(),
    {
        PluginRegistry::new()
    }
}

} // verus!
