//! The registry of zones and the active zone.

use vstd::prelude::*;
use crate::error::AppError;
use crate::rs::strings_view;
use crate::storage::local::LocalBackend;
use crate::text::{str_eq, path_join, path_join_spec};

verus! {

/// A named zone and its on-disk layout.
#[derive(Debug)]
pub struct Zone {
    name: String,
    backend: LocalBackend,
}

impl Zone {
    pub closed spec fn spec_name(&self) -> Seq<char> {
        self.name@
    }

    pub closed spec fn spec_backend(&self) -> LocalBackend {
        self.backend
    }

    /// The zone named `name` with its layout.
    pub fn new(name: String, backend: LocalBackend) -> (z: Self)
        ensures
            z.spec_name() == name@,
            z.spec_backend() == backend,
    {
        Zone { name, backend }
    }

    /// The zone's name.
    pub fn name(&self) -> (r: &str)
        ensures
            r@ == self.spec_name(),
    {
        self.name.as_str()
    }

    /// The zone's layout on disk.
    pub fn backend(&self) -> (r: &LocalBackend)
        ensures
            *r == self.spec_backend(),
    {
        &self.backend
    }
}

/// The mathematical value of the manager: the zone names in registry order
/// and the active zone.
pub struct ManagerModel {
    pub zones: Seq<Seq<char>>,
    pub active: Option<Seq<char>>,
}

/// Manages all zones and tracks the active zone.
#[derive(Debug)]
pub struct ZoneManager {
    home: String,
    registry_path: String,
    zones: Vec<Zone>,
    active_zone: Option<String>,
}

/// The names of a list of zones.
pub open spec fn zone_names(v: Seq<Zone>) -> Seq<Seq<char>> {
    v.map_values(|z: Zone| z.spec_name())
}

/// The zone list after creating `name`: unchanged when it exists, else
/// with `name` appended.
pub open spec fn with_zone(zones: Seq<Seq<char>>, name: Seq<char>) -> Seq<Seq<char>> {
    if zones.contains(name) {
        zones
    } else {
        zones.push(name)
    }
}

/// `~/.rxiu/zones.json` under the given home directory.
pub open spec fn registry_path_spec(home: Seq<char>) -> Seq<char> {
    path_join_spec(path_join_spec(home, ".rxiu"@), "zones.json"@)
}

impl View for ZoneManager {
    type V = ManagerModel;

    closed spec fn view(&self) -> ManagerModel {
        ManagerModel {
            zones: zone_names(self.zones@),
            active: match self.active_zone {
                Some(a) => Some(a@),
                None => None,
            },
        }
    }
}

impl ZoneManager {
    /// No zone name occurs twice, and the active zone is registered.
    pub closed spec fn wf(&self) -> bool {
        &&& zone_names(self.zones@).no_duplicates()
        &&& (self.active_zone matches Some(a) ==> zone_names(self.zones@).contains(a@))
    }

    /// What well-formedness means for the manager's value: no zone is
    /// registered twice and the active zone is registered.
    pub proof fn lemma_wf(&self)
        requires
            self.wf(),
        ensures
            self@.zones.no_duplicates(),
            self@.active matches Some(a) ==> self@.zones.contains(a),
    {
    }

    pub closed spec fn spec_registry_path(&self) -> Seq<char> {
        self.registry_path@
    }

    /// A manager under the given home directory holding the zones of the
    /// registry (a name listed twice is taken once), with no active zone.
    pub fn new(home: &str, registry: &Vec<String>) -> (m: Self)
        ensures
            m.wf(),
            m@.active is None,
            m.spec_registry_path() == registry_path_spec(home@),
            forall|n: Seq<char>| m@.zones.contains(n) <==> strings_view(registry@).contains(n),
    {
        let rxiu = path_join(home, ".rxiu");
        let registry_path = path_join(rxiu.as_str(), "zones.json");
        let mut m = ZoneManager {
            home: String::from_str(home),
            registry_path,
            zones: Vec::new(),
            active_zone: None,
        };
        let mut i: usize = 0;
        while i < registry.len()
            invariant
                m.wf(),
                m@.active is None,
                m.home@ == home@,
                m.spec_registry_path() == registry_path_spec(home@),
                i <= registry@.len(),
                forall|n: Seq<char>| m@.zones.contains(n) <==> strings_view(registry@).take(i as int).contains(n),
            decreases registry@.len() - i,
        {
            let ghost before = m@.zones;
            assert(strings_view(registry@).take(i + 1) =~= strings_view(registry@).take(i as int).push(
                registry@[i as int]@,
            ));
            if !m.has_zone(registry[i].as_str()) {
                m.add_zone(registry[i].as_str());
            }
            proof {
                broadcast use vstd::seq_lib::lemma_seq_contains_after_push;
            }
            i = i + 1;
        }
        assert(strings_view(registry@).take(registry@.len() as int) =~= strings_view(registry@));
        m
    }

    fn add_zone(&mut self, name: &str)
        requires
            old(self).wf(),
            !old(self)@.zones.contains(name@),
        ensures
            final(self).wf(),
            final(self)@.zones == old(self)@.zones.push(name@),
            final(self)@.active == old(self)@.active,
            final(self).home == old(self).home,
            final(self).spec_registry_path() == old(self).spec_registry_path(),
    {
        let backend = LocalBackend::new(self.home.as_str(), name);
        let ghost prev = self.zones@;
        self.zones.push(Zone::new(String::from_str(name), backend));
        assert(zone_names(self.zones@) =~= zone_names(prev).push(name@));
        proof {
            if self.active_zone is Some {
                let a = self.active_zone->0;
                assert(zone_names(prev).contains(a@));
                let k = choose|k: int| 0 <= k < zone_names(prev).len() && zone_names(prev)[k] == a@;
                assert(zone_names(self.zones@)[k] == a@);
            }
        }
    }

    fn find(&self, name: &str) -> (r: Option<usize>)
        ensures
            match r {
                Some(i) => i < self@.zones.len() && self@.zones[i as int] == name@,
                None => !self@.zones.contains(name@),
            },
    {
        let mut i: usize = 0;
        while i < self.zones.len()
            invariant
                i <= self.zones@.len(),
                forall|j: int| 0 <= j < i ==> zone_names(self.zones@)[j] != name@,
            decreases self.zones@.len() - i,
        {
            if str_eq(self.zones[i].name(), name) {
                return Some(i);
            }
            i = i + 1;
        }
        None
    }

    /// Whether a zone of this name exists.
    pub fn has_zone(&self, name: &str) -> (r: bool)
        ensures
            r == self@.zones.contains(name@),
    {
        self.find(name).is_some()
    }

    /// Creates a zone: an error when one of that name exists.
    pub fn create_zone(&mut self, name: &str) -> (r: Result<(), AppError>)
        requires
            old(self).wf(),
        ensures
            final(self).wf(),
            final(self)@.active == old(self)@.active,
            final(self)@.zones == with_zone(old(self)@.zones, name@),
            old(self)@.zones.contains(name@) ==> (r matches Err(AppError::ZoneAlreadyExists(n)) && n@ == name@),
            !old(self)@.zones.contains(name@) ==> r is Ok,
    {
        if self.has_zone(name) {
            return Err(AppError::ZoneAlreadyExists(String::from_str(name)));
        }
        self.add_zone(name);
        Ok(())
    }

    /// Makes a zone the active one: an error when there is no such zone.
    pub fn set_active(&mut self, name: &str) -> (r: Result<(), AppError>)
        requires
            old(self).wf(),
        ensures
            final(self).wf(),
            final(self)@.zones == old(self)@.zones,
            old(self)@.zones.contains(name@) ==> r is Ok && final(self)@.active == Some(name@),
            !old(self)@.zones.contains(name@) ==> (r matches Err(AppError::ZoneNotFound(n)) && n@ == name@)
                && final(self)@.active == old(self)@.active,
    {
        if !self.has_zone(name) {
            return Err(AppError::ZoneNotFound(String::from_str(name)));
        }
        self.active_zone = Some(String::from_str(name));
        Ok(())
    }

    /// The active zone: an error when none is active.
    pub fn active_zone(&self) -> (r: Result<&Zone, AppError>)
        requires
            self.wf(),
        ensures
            match self@.active {
                Some(a) => r matches Ok(z) && z.spec_name() == a,
                None => r == Err::<&Zone, AppError>(AppError::NoActiveZone),
            },
    {
        match &self.active_zone {
            Some(name) => match self.find(name.as_str()) {
                Some(i) => Ok(&self.zones[i]),
                None => Err(AppError::NoActiveZone),
            },
            None => Err(AppError::NoActiveZone),
        }
    }

    /// The active zone's name.
    pub fn active_zone_name(&self) -> (r: Option<&str>)
        ensures
            match self@.active {
                Some(a) => r matches Some(n) && n@ == a,
                None => r is None,
            },
    {
        match &self.active_zone {
            Some(n) => Some(n.as_str()),
            None => None,
        }
    }

    /// Leaves the active zone.
    pub fn clear_active(&mut self)
        requires
            old(self).wf(),
        ensures
            final(self).wf(),
            final(self)@.active is None,
            final(self)@.zones == old(self)@.zones,
    {
        self.active_zone = None;
    }

    /// All zone names, in registry order.
    pub fn list_zones(&self) -> (r: Vec<&str>)
        ensures
            r@.len() == self@.zones.len(),
            forall|i: int| 0 <= i < r@.len() ==> (#[trigger] r@[i])@ == self@.zones[i],
    {
        let mut r: Vec<&str> = Vec::new();
        let mut i: usize = 0;
        while i < self.zones.len()
            invariant
                i <= self.zones@.len(),
                r@.len() == i,
                forall|k: int| 0 <= k < i ==> (#[trigger] r@[k])@ == self@.zones[k],
            decreases self.zones@.len() - i,
        {
            r.push(self.zones[i].name());
            i = i + 1;
        }
        r
    }

    /// The zone of this name.
    pub fn get_zone(&self, name: &str) -> (r: Option<&Zone>)
        ensures
            self@.zones.contains(name@) ==> (r matches Some(z) && z.spec_name() == name@),
            !self@.zones.contains(name@) ==> r is None,
    {
        match self.find(name) {
            Some(i) => Some(&self.zones[i]),
            None => None,
        }
    }

    /// The registry file.
    pub fn registry_path(&self) -> (r: &str)
        ensures
            r@ == self.spec_registry_path(),
    {
        self.registry_path.as_str()
    }
}

/// A zone that was just created is registered (so it can be made active),
/// and creating it again changes nothing.
pub proof fn law_create_registers(zones: Seq<Seq<char>>, name: Seq<char>)
    ensures
        with_zone(zones, name).contains(name),
        with_zone(with_zone(zones, name), name) == with_zone(zones, name),
{
    if !zones.contains(name) {
        assert(zones.push(name)[zones.len() as int] == name);
    }
}

} // verus!
