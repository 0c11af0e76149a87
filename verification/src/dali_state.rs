//! The device-state cache: a three-level tree (router → subnets → devices)
//! holding the last known state of every observed device.  Subnet and device
//! addresses are 1-based; a subnet holds a fixed array of 64 device slots.

use vstd::prelude::*;

verus! {

/// Number of device slots per subnet.
pub const SUBNET_SLOTS: usize = 64;

/// Mathematical model of one device's cached state.
pub ghost struct DeviceStateView {
    pub address: u32,
    pub device_type: u32,
    pub intensity: u8,
    pub description: Seq<char>,
}

/// Last known state of one device.
#[derive(Debug, Clone)]
pub struct DeviceState {
    pub address: u32,
    pub device_type: u32,
    pub intensity: u8,
    pub description: String,
}

impl View for DeviceState {
    type V = DeviceStateView;

    open spec fn view(&self) -> DeviceStateView {
        DeviceStateView {
            address: self.address,
            device_type: self.device_type,
            intensity: self.intensity,
            description: self.description@,
        }
    }
}

impl DeviceState {
    /// A blank device: zero address, type and intensity, empty description.
    pub fn new() -> (d: DeviceState)
        ensures
            d@ == (DeviceStateView {
                address: 0,
                device_type: 0,
                intensity: 0,
                description: Seq::<char>::empty(),
            }),
    {
        DeviceState { address: 0, device_type: 0, intensity: 0, description: String::new() }
    }

    /// A field-for-field copy.
    pub fn duplicate(&self) -> (d: DeviceState)
        ensures
            d@ == self@,
    {
        DeviceState {
            address: self.address,
            device_type: self.device_type,
            intensity: self.intensity,
            description: self.description.clone(),
        }
    }
}

/// Mathematical model of one subnet: its index and 64 optional device slots.
#[verifier::ext_equal]
pub ghost struct SubnetStateView {
    pub index: u32,
    pub devices: Seq<Option<DeviceStateView>>,
}

/// State of one subnet: its 1-based index and a fixed array of 64 slots,
/// device address `a` in slot `a - 1`.
#[derive(Debug)]
pub struct SubnetState {
    pub index: u32,
    pub devices: Vec<Option<DeviceState>>,
}

impl View for SubnetState {
    type V = SubnetStateView;

    open spec fn view(&self) -> SubnetStateView {
        SubnetStateView {
            index: self.index,
            devices: self.devices@.map_values(
                |d: Option<DeviceState>|
                    match d {
                        Some(x) => Some(x@),
                        None => None,
                    },
            ),
        }
    }
}

/// 64 empty slots.
pub open spec fn empty_slots() -> Seq<Option<DeviceStateView>> {
    Seq::new(SUBNET_SLOTS as nat, |i: int| None)
}

impl SubnetState {
    /// The slot array always has exactly 64 entries.
    pub open spec fn wf(self) -> bool {
        self.devices@.len() == SUBNET_SLOTS
    }

    /// A subnet with the given index and all 64 slots empty.
    pub fn new(index: u32) -> (s: SubnetState)
        ensures
            s.wf(),
            s@ == (SubnetStateView { index, devices: empty_slots() }),
    {
        let mut devices: Vec<Option<DeviceState>> = Vec::new();
        let mut i: usize = 0;
        while i < SUBNET_SLOTS
            invariant
                i <= SUBNET_SLOTS,
                devices@.len() == i,
                forall|j: int| 0 <= j < i ==> devices@[j] is None,
            decreases SUBNET_SLOTS - i,
        {
            devices.push(None);
            i = i + 1;
        }
        let s = SubnetState { index, devices };
        proof {
            assert(s@.devices =~= empty_slots());
        }
        s
    }
}

/// State of the whole router: a growable sequence of optional subnets,
/// subnet index `s` in slot `s - 1`.
#[derive(Debug)]
pub struct RouterState {
    pub subnets: Vec<Option<SubnetState>>,
}

impl View for RouterState {
    type V = Seq<Option<SubnetStateView>>;

    open spec fn view(&self) -> Seq<Option<SubnetStateView>> {
        self.subnets@.map_values(
            |s: Option<SubnetState>|
                match s {
                    Some(x) => Some(x@),
                    None => None,
                },
        )
    }
}

/// The subnet with 1-based index `subnet`, if present.
pub open spec fn spec_get_subnet(v: Seq<Option<SubnetStateView>>, subnet: u32) -> Option<
    SubnetStateView,
> {
    if 1 <= subnet && subnet <= v.len() {
        v[subnet - 1]
    } else {
        None
    }
}

/// The device at 1-based address `addr` of subnet `subnet`, if present.
pub open spec fn spec_get_device(
    v: Seq<Option<SubnetStateView>>,
    subnet: u32,
    addr: u32,
) -> Option<DeviceStateView> {
    match spec_get_subnet(v, subnet) {
        None => None,
        Some(sn) => {
            if 1 <= addr && addr <= sn.devices.len() {
                sn.devices[addr - 1]
            } else {
                None
            }
        },
    }
}

/// The cache after setting the intensity of the (present) device at
/// (`subnet`, `addr`) to `level`, all else untouched.
pub open spec fn spec_set_device_intensity(
    v: Seq<Option<SubnetStateView>>,
    subnet: u32,
    addr: u32,
    level: u8,
) -> Seq<Option<SubnetStateView>> {
    let sn = v[subnet - 1].unwrap();
    let d = sn.devices[addr - 1].unwrap();
    let d2 = DeviceStateView {
        address: d.address,
        device_type: d.device_type,
        intensity: level,
        description: d.description,
    };
    v.update(
        subnet - 1,
        Some(SubnetStateView { index: sn.index, devices: sn.devices.update(addr - 1, Some(d2)) }),
    )
}

/// The cache after recording `d` at (`subnet`, `addr`): the subnet sequence
/// is grown as needed, the subnet created if absent, and the slot
/// overwritten.
pub open spec fn spec_update_device(
    v: Seq<Option<SubnetStateView>>,
    subnet: u32,
    addr: u32,
    d: DeviceStateView,
) -> Seq<Option<SubnetStateView>> {
    let grown = if v.len() <= subnet {
        v + Seq::new((subnet + 1 - v.len()) as nat, |i: int| None)
    } else {
        v
    };
    let sn = match grown[subnet - 1] {
        Some(s) => s,
        None => SubnetStateView { index: subnet, devices: empty_slots() },
    };
    let sn2 = SubnetStateView { index: sn.index, devices: sn.devices.update(addr - 1, Some(d)) };
    grown.update(subnet - 1, Some(sn2))
}

impl RouterState {
    /// Every present subnet has its full slot array.
    pub open spec fn wf(self) -> bool {
        forall|i: int|
            0 <= i < self@.len() ==> match #[trigger] self@[i] {
                Some(sn) => sn.devices.len() == SUBNET_SLOTS,
                None => true,
            }
    }

    /// An empty cache: no subnets observed yet.
    pub fn new() -> (r: RouterState)
        ensures
            r.wf(),
            r@ == Seq::<Option<SubnetStateView>>::empty(),
    {
        let r = RouterState { subnets: Vec::new() };
        proof {
            assert(r@ =~= Seq::<Option<SubnetStateView>>::empty());
        }
        r
    }

    /// Read accessor: the subnet with 1-based index `subnet`, or nothing for
    /// an out-of-range or unobserved index.  Never fails.
    pub fn get_subnet(&self, subnet: u32) -> (r: Option<&SubnetState>)
        ensures
            match r {
                Some(sn) => spec_get_subnet(self@, subnet) == Some(sn@),
                None => spec_get_subnet(self@, subnet) is None,
            },
    {
        if subnet == 0 {
            return None;
        }
        let idx = (subnet - 1) as usize;
        if idx >= self.subnets.len() {
            return None;
        }
        match &self.subnets[idx] {
            Some(sn) => Some(sn),
            None => None,
        }
    }

    /// Read accessor: the device at (`subnet`, `addr`), or nothing for any
    /// pair never written.  Never fails.
    pub fn get_device(&self, subnet: u32, addr: u32) -> (r: Option<&DeviceState>)
        ensures
            match r {
                Some(d) => spec_get_device(self@, subnet, addr) == Some(d@),
                None => spec_get_device(self@, subnet, addr) is None,
            },
    {
        let sn = match self.get_subnet(subnet) {
            Some(sn) => sn,
            None => {
                return None;
            },
        };
        if addr == 0 {
            return None;
        }
        let idx = (addr - 1) as usize;
        if idx >= sn.devices.len() {
            return None;
        }
        match &sn.devices[idx] {
            Some(d) => Some(d),
            None => None,
        }
    }

    /// Writer used by the poller: records `d` as the state of the device at
    /// (`subnet`, `addr`), growing the subnet sequence and creating the
    /// subnet's slot array on demand.
    pub fn update_device(&mut self, subnet: u8, addr: u8, d: DeviceState)
        requires
            old(self).wf(),
            subnet >= 1,
            1 <= addr <= 64,
        ensures
            final(self).wf(),
            final(self)@ == spec_update_device(old(self)@, subnet as u32, addr as u32, d@),
    {
        let ghost v0 = self@;
        while self.subnets.len() <= subnet as usize
            invariant
                old(self).wf(),
                v0 == old(self)@,
                v0.len() <= self@.len(),
                self@.len() == v0.len() || self@.len() <= subnet + 1,
                forall|i: int| 0 <= i < v0.len() ==> self@[i] == v0[i],
                forall|i: int| v0.len() <= i < self@.len() ==> self@[i] is None,
            decreases subnet as int + 1 - self.subnets@.len(),
        {
            let ghost prev = self@;
            self.subnets.push(None);
            proof {
                assert(self@ =~= prev + seq![Option::<SubnetStateView>::None]);
            }
        }
        proof {
            if v0.len() <= subnet {
                assert(self@ =~= v0 + Seq::new((subnet + 1 - v0.len()) as nat, |i: int| None));
            } else {
                assert(self@ =~= v0);
            }
        }
        let ghost grown = self@;
        let idx = (subnet - 1) as usize;
        let ghost old_slot = self.subnets@[idx as int];
        let slot = &mut self.subnets[idx];
        match slot {
            Some(sn) => {
                proof {
                    assert(grown[idx as int] == Some(sn@));
                    if (idx as int) < v0.len() {
                        assert(v0[idx as int] == grown[idx as int]);
                    }
                    assert(sn@.devices.len() == SUBNET_SLOTS);
                    assert(sn.devices@.len() == SUBNET_SLOTS);
                }
                sn.devices.set((addr - 1) as usize, Some(d));
            },
            None => {
                let mut sn = SubnetState::new(subnet as u32);
                sn.devices.set((addr - 1) as usize, Some(d));
                *slot = Some(sn);
            },
        }
        proof {
            assert(self@ =~~= spec_update_device(v0, subnet as u32, addr as u32, d@));
            assert(self@ == spec_update_device(v0, subnet as u32, addr as u32, d@));
            assert forall|i: int|
                0 <= i < self@.len() implies match #[trigger] self@[i] {
                Some(sn) => sn.devices.len() == SUBNET_SLOTS,
                None => true,
            } by {
                if i < grown.len() && i != idx {
                    if i < v0.len() {
                        assert(grown[i] == v0[i]);
                    }
                }
            }
        }
    }

    /// Sets the cached intensity of the device at (`subnet`, `addr`), if it
    /// is cached; does nothing otherwise.  Used after a successful
    /// set-level command.
    pub fn set_device_intensity(&mut self, subnet: u32, addr: u32, level: u8)
        requires
            old(self).wf(),
        ensures
            final(self).wf(),
            spec_get_device(old(self)@, subnet, addr) is None ==> final(self)@ == old(self)@,
            spec_get_device(old(self)@, subnet, addr) is Some ==> final(self)@
                == spec_set_device_intensity(old(self)@, subnet, addr, level),
    {
        let ghost v0 = self@;
        if subnet == 0 {
            return ;
        }
        let sidx = (subnet - 1) as usize;
        if sidx >= self.subnets.len() {
            return ;
        }
        if addr == 0 || addr > 64 {
            return ;
        }
        let ghost old_slot = self.subnets@[sidx as int];
        let slot = &mut self.subnets[sidx];
        match slot {
            Some(sn) => {
                let didx = (addr - 1) as usize;
                if didx < sn.devices.len() {
                    let ghost old_dev = sn.devices@[didx as int];
                    let dev_slot = &mut sn.devices[didx];
                    match dev_slot {
                        Some(dev) => {
                            dev.intensity = level;
                        },
                        None => {},
                    }
                }
            },
            None => {},
        }
        proof {
            if spec_get_device(v0, subnet, addr) is None {
                assert(self@ =~~= v0);
            } else {
                assert(self@ =~~= spec_set_device_intensity(v0, subnet, addr, level));
            }
            assert forall|i: int|
                0 <= i < self@.len() implies match #[trigger] self@[i] {
                Some(sn) => sn.devices.len() == SUBNET_SLOTS,
                None => true,
            } by {
                if i != sidx {
                    assert(self@[i] == v0[i]);
                }
            }
        }
    }
}

/// Reading after writing: the slot just written holds exactly the written
/// value, and every other slot is untouched; a pair never written reads as
/// nothing, since the cache starts empty and writes touch only their slot.
pub proof fn lemma_cache_get_after_update(
    v: Seq<Option<SubnetStateView>>,
    subnet: u32,
    addr: u32,
    d: DeviceStateView,
    s2: u32,
    a2: u32,
)
    requires
        1 <= subnet,
        1 <= addr <= 64,
        forall|i: int|
            0 <= i < v.len() ==> match #[trigger] v[i] {
                Some(sn) => sn.devices.len() == SUBNET_SLOTS,
                None => true,
            },
    ensures
        spec_get_device(spec_update_device(v, subnet, addr, d), subnet, addr) == Some(d),
        !(s2 == subnet && a2 == addr) ==> spec_get_device(spec_update_device(v, subnet, addr, d), s2, a2)
            == spec_get_device(v, s2, a2),
{
    let v2 = spec_update_device(v, subnet, addr, d);
    let grown = if v.len() <= subnet {
        v + Seq::new((subnet + 1 - v.len()) as nat, |i: int| None)
    } else {
        v
    };
    assert(spec_get_device(v2, subnet, addr) == Some(d));
    if !(s2 == subnet && a2 == addr) {
        if s2 == subnet {
            assert(spec_get_device(v2, s2, a2) == spec_get_device(v, s2, a2));
        } else {
            if 1 <= s2 && s2 <= v.len() {
                assert(grown[s2 - 1] == v[s2 - 1]);
                assert(v2[s2 - 1] == v[s2 - 1]);
            } else if 1 <= s2 && s2 <= v2.len() {
                assert(v2[s2 - 1] is None);
            }
        }
    }
}

/// A pair never written reads as nothing: the empty cache holds no device.
pub proof fn lemma_cache_empty_get(subnet: u32, addr: u32)
    ensures
        spec_get_device(Seq::<Option<SubnetStateView>>::empty(), subnet, addr) is None,
{
}

} // verus!
