//! The registry of devices: every device under its identifier and its
//! aliases, no name standing for two devices.

use vstd::prelude::*;
use vstd::string::*;
use crate::device::CheckError;
use crate::device::DeviceSpec;
use crate::text::str_eq;

verus! {

/// A name and the place of the device that it stands for.
pub struct NameEntry {
    pub name: String,
    pub index: usize,
}

/// A name as text and the place of the device that it stands for.
pub struct Name {
    pub text: Seq<char>,
    pub index: usize,
}

/// What a registry holds: the devices in the order in which they were
/// registered, and the names in the order in which they were registered.
pub struct Registered {
    pub devices: Seq<DeviceSpec>,
    pub names: Seq<Name>,
}

/// The devices that can be built for, and the names that select them.
pub struct DeviceRegistry {
    devices: Vec<DeviceSpec>,
    registry: Vec<NameEntry>,
}

/// Why the registry cannot serve.
#[derive(Copy, Clone, Debug, PartialEq, Eq, Structural)]
pub enum RegistryError {
    /// The registry holds no device.
    Empty,
    /// No device has this identifier or alias.
    NotFound,
    /// The identifier of the device is a name of the device at `occupant`.
    DuplicateId { occupant: usize },
    /// The alias at place `alias` of the device's list is a name of the
    /// device at `occupant`.
    DuplicateAlias { alias: usize, occupant: usize },
}

/// A device that could not be registered: its place in the list, and why.
#[derive(Copy, Clone, Debug, PartialEq, Eq, Structural)]
pub struct ScanError {
    pub at: usize,
    pub cause: RegistryError,
}

/// The place that the first of `names` that reads `s` stands for.
pub open spec fn lookup(names: Seq<Name>, s: Seq<char>) -> Option<usize>
    decreases names.len(),
{
    if names.len() == 0 {
        None
    } else if names[0].text == s {
        Some(names[0].index)
    } else {
        lookup(names.drop_first(), s)
    }
}

/// The registry after the aliases of its last device from place `k` on
/// have been added as names of that device; the first alias that is a
/// name already stops it.
pub open spec fn with_aliases(r: Registered, aliases: Seq<String>, k: int) -> Result<
    Registered,
    RegistryError,
>
    decreases aliases.len() - k,
{
    if k < 0 || k >= aliases.len() {
        Ok(r)
    } else {
        match lookup(r.names, aliases[k]@) {
            Some(occupant) => Err(RegistryError::DuplicateAlias { alias: k as usize, occupant }),
            None => with_aliases(
                Registered {
                    devices: r.devices,
                    names: r.names.push(
                        Name { text: aliases[k]@, index: (r.devices.len() - 1) as usize },
                    ),
                },
                aliases,
                k + 1,
            ),
        }
    }
}

/// The registry after one more device has been registered under its
/// identifier and its aliases; a name that is taken stops it.
pub open spec fn with_device(r: Registered, device: DeviceSpec) -> Result<Registered, RegistryError> {
    match lookup(r.names, device.id@) {
        Some(occupant) => Err(RegistryError::DuplicateId { occupant }),
        None => with_aliases(
            Registered {
                devices: r.devices.push(device),
                names: r.names.push(Name { text: device.id@, index: r.devices.len() as usize }),
            },
            device.alias_list(),
            0,
        ),
    }
}

/// The registry of the first `n` of `devices`, registered in their order,
/// or the first of them that cannot be registered.
pub open spec fn scanned(devices: Seq<DeviceSpec>, n: int) -> Result<Registered, ScanError>
    decreases n,
{
    if n <= 0 {
        Ok(Registered { devices: Seq::empty(), names: Seq::empty() })
    } else {
        match scanned(devices, n - 1) {
            Err(e) => Err(e),
            Ok(r) => match with_device(r, devices[n - 1]) {
                Err(cause) => Err(ScanError { at: (n - 1) as usize, cause }),
                Ok(next) => Ok(next),
            },
        }
    }
}

/// The names of a list of entries.
pub open spec fn names_of(entries: Seq<NameEntry>) -> Seq<Name> {
    Seq::new(entries.len(), |i: int| Name { text: entries[i].name@, index: entries[i].index })
}

proof fn lemma_scan_error_stays(devices: Seq<DeviceSpec>, at: int, n: int)
    requires
        0 <= at <= n,
        scanned(devices, at) is Err,
    ensures
        scanned(devices, n) == scanned(devices, at),
    decreases n - at,
{
    if at < n {
        lemma_scan_error_stays(devices, at, n - 1);
    }
}

impl View for DeviceRegistry {
    type V = Registered;

    closed spec fn view(&self) -> Registered {
        Registered { devices: self.devices@, names: names_of(self.registry@) }
    }
}

fn find(entries: &Vec<NameEntry>, s: &str) -> (r: Option<usize>)
    ensures
        r == lookup(names_of(entries@), s@),
{
    let ghost names = names_of(entries@);
    let mut i: usize = 0;
    assert(names.skip(0) =~= names);
    while i < entries.len()
        invariant
            i <= entries.len(),
            names == names_of(entries@),
            lookup(names, s@) == lookup(names.skip(i as int), s@),
        decreases entries.len() - i,
    {
        proof {
            assert(names.skip(i as int).drop_first() =~= names.skip(i + 1));
            assert(names.skip(i as int)[0] == names[i as int]);
        }
        if str_eq(entries[i].name.as_str(), s) {
            return Some(entries[i].index);
        }
        i += 1;
    }
    assert(names.skip(entries@.len() as int).len() == 0);
    None
}

impl DeviceRegistry {
    #[verifier::type_invariant]
    spec fn wf(self) -> bool {
        forall|i: int|
            0 <= i < self.registry@.len() ==> (#[trigger] self.registry@[i]).index
                < self.devices@.len()
    }

    /// A registry without devices.
    pub fn new() -> (r: DeviceRegistry)
        ensures
            r@ == (Registered { devices: Seq::empty(), names: Seq::empty() }),
    {
        let r = DeviceRegistry { devices: Vec::new(), registry: Vec::new() };
        assert(names_of(r.registry@) =~= Seq::<Name>::empty());
        r
    }

    /// Registers a device under its identifier and its aliases. The
    /// registry is given up if one of these names is taken.
    pub fn register(self, device: DeviceSpec) -> (r: Result<DeviceRegistry, RegistryError>)
        ensures
            match r {
                Ok(next) => with_device(self@, device) == Ok::<Registered, RegistryError>(next@),
                Err(e) => with_device(self@, device) == Err::<Registered, RegistryError>(e),
            },
    {
        proof {
            use_type_invariant(&self);
        }
        let DeviceRegistry { mut devices, mut registry } = self;
        if let Some(occupant) = find(&registry, device.id.as_str()) {
            return Err(RegistryError::DuplicateId { occupant });
        }
        let index = devices.len();
        let ghost before = Registered { devices: devices@, names: names_of(registry@) };
        registry.push(NameEntry { name: device.id.clone(), index });
        let ghost aliases = device.alias_list();
        let ghost id = device.id@;
        let ghost pushed = device;
        let alias_count = match &device.aliases {
            Some(a) => a.len(),
            None => 0,
        };
        let mut k: usize = 0;
        proof {
            assert(names_of(registry@) =~= before.names.push(Name { text: id, index }));
        }
        while k < alias_count
            invariant
                k <= alias_count,
                alias_count == aliases.len(),
                aliases == device.alias_list(),
                pushed == device,
                before == self@,
                devices@ == before.devices,
                index == devices@.len(),
                forall|i: int| 0 <= i < registry@.len() ==> (#[trigger] registry@[i]).index <= index,
                with_device(before, pushed) == with_aliases(
                    Registered { devices: before.devices.push(pushed), names: names_of(registry@) },
                    aliases,
                    k as int,
                ),
            decreases alias_count - k,
        {
            let alias = match &device.aliases {
                Some(a) => a[k].clone(),
                None => String::new(),
            };
            assert(alias@ == aliases[k as int]@);
            if let Some(occupant) = find(&registry, alias.as_str()) {
                return Err(RegistryError::DuplicateAlias { alias: k, occupant });
            }
            let ghost names_before = names_of(registry@);
            registry.push(NameEntry { name: alias, index });
            proof {
                assert(names_of(registry@) =~= names_before.push(
                    Name { text: aliases[k as int]@, index },
                ));
            }
            k += 1;
        }
        devices.push(device);
        Ok(DeviceRegistry { devices, registry })
    }

    /// Registers the devices of a list, in their order. There is no
    /// registry if a name stands for two devices.
    pub fn scan(devices: Vec<DeviceSpec>) -> (r: Result<DeviceRegistry, ScanError>)
        ensures
            match r {
                Ok(registry) => scanned(devices@, devices@.len() as int) == Ok::<
                    Registered,
                    ScanError,
                >(registry@),
                Err(e) => scanned(devices@, devices@.len() as int) == Err::<Registered, ScanError>(
                    e,
                ),
            },
    {
        let mut registry = DeviceRegistry::new();
        let ghost all = devices@;
        let count = devices.len();
        let mut at: usize = 0;
        for device in it: devices
            invariant
                it.seq() == all,
                count == all.len(),
                at == it.index(),
                scanned(all, at as int) == Ok::<Registered, ScanError>(registry@),
        {
            proof {
                assert(all[at as int] == device);
            }
            match registry.register(device) {
                Err(cause) => {
                    proof {
                        assert(scanned(all, at + 1) is Err);
                        lemma_scan_error_stays(all, at + 1, all.len() as int);
                    }
                    return Err(ScanError { at, cause });
                },
                Ok(next) => {
                    registry = next;
                },
            }
            at += 1;
        }
        Ok(registry)
    }

    /// The registry of a single device, known by its identifier alone.
    pub fn from(device: DeviceSpec) -> (r: DeviceRegistry)
        ensures
            r@ == (Registered {
                devices: seq![device],
                names: seq![Name { text: device.id@, index: 0 }],
            }),
    {
        let mut devices: Vec<DeviceSpec> = Vec::new();
        let mut registry: Vec<NameEntry> = Vec::new();
        registry.push(NameEntry { name: device.id.clone(), index: 0 });
        devices.push(device);
        let r = DeviceRegistry { devices, registry };
        assert(names_of(r.registry@) =~= seq![Name { text: device.id@, index: 0 }]);
        assert(r.devices@ =~= seq![device]);
        r
    }

    /// The devices, in the order in which they were registered.
    pub fn devices(&self) -> (devices: &Vec<DeviceSpec>)
        ensures
            devices@ == self@.devices,
    {
        &self.devices
    }

    /// All devices, in the order in which they were registered. It is an
    /// error if there is none.
    pub fn get_all(self) -> (r: Result<Vec<DeviceSpec>, RegistryError>)
        ensures
            match r {
                Ok(devices) => devices@ == self@.devices && devices@.len() > 0,
                Err(e) => e == RegistryError::Empty && self@.devices.len() == 0,
            },
    {
        if self.devices.len() == 0 {
            Err(RegistryError::Empty)
        } else {
            Ok(self.devices)
        }
    }

    /// The device that a name stands for.
    pub fn get(self, name: &str) -> (r: Result<DeviceSpec, RegistryError>)
        ensures
            match r {
                Ok(device) => {
                    &&& lookup(self@.names, name@) is Some
                    &&& lookup(self@.names, name@)->0 < self@.devices.len()
                    &&& device == self@.devices[lookup(self@.names, name@)->0 as int]
                },
                Err(e) => e == RegistryError::NotFound && lookup(self@.names, name@) is None,
            },
    {
        proof {
            use_type_invariant(&self);
        }
        let DeviceRegistry { mut devices, registry } = self;
        match find(&registry, name) {
            None => Err(RegistryError::NotFound),
            Some(index) => {
                proof {
                    lemma_lookup_is_an_entry(names_of(registry@), name@);
                }
                Ok(devices.swap_remove(index))
            },
        }
    }

    /// Checks every device; `scripts` names, for each device, the files
    /// beside its description (none for a device that the list does not
    /// reach). Gives the places of the devices that break a rule, in
    /// their order, each with the rule.
    pub fn check_validity(&self, scripts: &Vec<Vec<String>>) -> (failures: Vec<(usize, CheckError)>)
        ensures
            forall|j: int|
                0 <= j < failures@.len() ==> {
                    &&& (#[trigger] failures@[j]).0 < self@.devices.len()
                    &&& self@.devices[failures@[j].0 as int].check_spec(
                        files_beside(scripts@, failures@[j].0 as int),
                    ) == Err::<(), CheckError>(failures@[j].1)
                },
            forall|i: int|
                0 <= i < self@.devices.len() && (#[trigger] self@.devices[i]).check_spec(
                    files_beside(scripts@, i),
                ) is Err ==> exists|j: int| 0 <= j < failures@.len() && failures@[j].0 == i,
            forall|j: int, k: int|
                0 <= j < k < failures@.len() ==> failures@[j].0 < failures@[k].0,
    {
        let nothing: Vec<String> = Vec::new();
        let mut failures: Vec<(usize, CheckError)> = Vec::new();
        let mut i: usize = 0;
        while i < self.devices.len()
            invariant
                i <= self.devices.len(),
                nothing@.len() == 0,
                self@.devices == self.devices@,
                forall|j: int|
                    0 <= j < failures@.len() ==> {
                        &&& (#[trigger] failures@[j]).0 < i
                        &&& self.devices@[failures@[j].0 as int].check_spec(
                            files_beside(scripts@, failures@[j].0 as int),
                        ) == Err::<(), CheckError>(failures@[j].1)
                    },
                forall|m: int|
                    0 <= m < i && (#[trigger] self.devices@[m]).check_spec(
                        files_beside(scripts@, m),
                    ) is Err ==> exists|j: int| 0 <= j < failures@.len() && failures@[j].0 == m,
                forall|j: int, k: int|
                    0 <= j < k < failures@.len() ==> failures@[j].0 < failures@[k].0,
            decreases self.devices.len() - i,
        {
            let ghost before = failures@;
            let beside = if i < scripts.len() {
                &scripts[i]
            } else {
                &nothing
            };
            assert(beside@ =~= files_beside(scripts@, i as int));
            match self.devices[i].check(beside) {
                Ok(_) => {},
                Err(e) => {
                    failures.push((i, e));
                    proof {
                        assert(failures@[before.len() as int].0 == i);
                        assert forall|m: int|
                            0 <= m < i + 1 && (#[trigger] self.devices@[m]).check_spec(
                                files_beside(scripts@, m),
                            ) is Err implies exists|j: int|
                            0 <= j < failures@.len() && failures@[j].0 == m by {
                            if m < i {
                                let j = choose|j: int| 0 <= j < before.len() && before[j].0 == m;
                                assert(failures@[j].0 == m);
                            }
                        }
                    }
                },
            }
            i += 1;
        }
        failures
    }
}

/// The files beside the description of the device at place `i`.
pub open spec fn files_beside(scripts: Seq<Vec<String>>, i: int) -> Seq<String> {
    if 0 <= i < scripts.len() {
        scripts[i]@
    } else {
        Seq::empty()
    }
}

proof fn lemma_lookup_is_an_entry(names: Seq<Name>, s: Seq<char>)
    requires
        lookup(names, s) is Some,
    ensures
        exists|i: int| 0 <= i < names.len() && (#[trigger] names[i]).index == lookup(names, s)->0,
    decreases names.len(),
{
    if names[0].text == s {
        assert(names[0].index == lookup(names, s)->0);
    } else {
        lemma_lookup_is_an_entry(names.drop_first(), s);
        let i = choose|i: int|
            0 <= i < names.drop_first().len() && (#[trigger] names.drop_first()[i]).index == lookup(
                names.drop_first(),
                s,
            )->0;
        assert(names[i + 1].index == lookup(names, s)->0);
    }
}

} // verus!
