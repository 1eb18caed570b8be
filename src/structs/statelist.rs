use vstd::prelude::*;

use super::net::{Device, DeviceView, MacAddr};

verus! {

/// A list of items with an optional selection cursor for browsing.
pub struct StateList<T> {
    pub items: Vec<T>,
    pub selected: Option<usize>,
}

impl<T> StateList<T> {
    /// The cursor, when set, points at an item.
    pub open spec fn wf(&self) -> bool {
        self.selected matches Some(i) ==> i < self.items@.len()
    }

    pub fn new() -> (r: StateList<T>)
        ensures
            r.items@ == Seq::<T>::empty(),
            r.selected is None,
    {
        StateList { items: Vec::new(), selected: None }
    }

    /// Moves the cursor one item down, stopping at the last item; an unset
    /// cursor goes to the first item. No effect on an empty list.
    pub fn next(&mut self)
        ensures
            final(self).items == old(self).items,
            old(self).items@.len() == 0 ==> final(self).selected == old(self).selected,
            old(self).items@.len() > 0 ==> final(self).selected == Some(
                match old(self).selected {
                    Some(i) => if i + 1 < old(self).items@.len() {
                        (i + 1) as usize
                    } else {
                        i
                    },
                    None => 0usize,
                },
            ),
    {
        if self.items.len() == 0 {
            return;
        }
        let i = match self.selected {
            Some(i) => {
                if i < self.items.len() - 1 {
                    i + 1
                } else {
                    i
                }
            },
            None => 0,
        };
        self.selected = Some(i);
    }

    /// Moves the cursor one item up, stopping at the first item; an unset
    /// cursor goes to the first item. No effect on an empty list.
    pub fn prev(&mut self)
        ensures
            final(self).items == old(self).items,
            old(self).items@.len() == 0 ==> final(self).selected == old(self).selected,
            old(self).items@.len() > 0 ==> final(self).selected == Some(
                match old(self).selected {
                    Some(i) => if i > 0 {
                        (i - 1) as usize
                    } else {
                        0usize
                    },
                    None => 0usize,
                },
            ),
    {
        if self.items.len() == 0 {
            return;
        }
        let i = match self.selected {
            Some(i) => {
                if i > 0 {
                    i - 1
                } else {
                    0
                }
            },
            None => 0,
        };
        self.selected = Some(i);
    }

    /// Selects item `select`, clamped to the last item. No effect on an
    /// empty list.
    pub fn select(&mut self, select: usize)
        ensures
            final(self).items == old(self).items,
            old(self).items@.len() == 0 ==> final(self).selected == old(self).selected,
            old(self).items@.len() > 0 ==> final(self).selected == Some(
                if select < old(self).items@.len() {
                    select
                } else {
                    (old(self).items@.len() - 1) as usize
                },
            ),
    {
        if self.items.len() == 0 {
            return;
        }
        if select < self.items.len() {
            self.selected = Some(select);
        } else {
            self.selected = Some(self.items.len() - 1);
        }
    }

    pub fn unselect(&mut self)
        ensures
            final(self).items == old(self).items,
            final(self).selected is None,
    {
        self.selected = None;
    }
}

/// The views of a list of devices.
pub open spec fn device_views(items: Seq<Device>) -> Seq<DeviceView> {
    items.map_values(|d: Device| d@)
}

/// Index of the first device with hardware address `mac`.
pub open spec fn mac_position(devices: Seq<DeviceView>, mac: Seq<u8>) -> Option<int>
    decreases devices.len(),
{
    if devices.len() == 0 {
        None
    } else {
        match mac_position(devices.drop_last(), mac) {
            Some(i) => Some(i),
            None => if devices.last().mac == mac {
                Some(devices.len() - 1)
            } else {
                None
            },
        }
    }
}

/// `mac_position` finds the first match, and finds none only when no device
/// has that hardware address.
pub proof fn lemma_mac_position(devices: Seq<DeviceView>, mac: Seq<u8>)
    ensures
        match mac_position(devices, mac) {
            Some(i) => 0 <= i < devices.len() && devices[i].mac == mac && forall|j: int|
                0 <= j < i ==> devices[j].mac != mac,
            None => forall|j: int| 0 <= j < devices.len() ==> devices[j].mac != mac,
        },
    decreases devices.len(),
{
    if devices.len() > 0 {
        let rest = devices.drop_last();
        lemma_mac_position(rest, mac);
        assert(forall|j: int| 0 <= j < rest.len() ==> rest[j] == devices[j]);
    }
}

/// Any first match is the one `mac_position` gives.
pub proof fn lemma_mac_position_at(devices: Seq<DeviceView>, mac: Seq<u8>, k: int)
    requires
        0 <= k < devices.len(),
        devices[k].mac == mac,
        forall|j: int| 0 <= j < k ==> devices[j].mac != mac,
    ensures
        mac_position(devices, mac) == Some(k),
{
    lemma_mac_position(devices, mac);
}

impl StateList<Device> {
    pub(crate) fn position_of_mac(&self, searched: &MacAddr) -> (r: Option<usize>)
        ensures
            match r {
                Some(i) => mac_position(device_views(self.items@), searched@) == Some(i as int),
                None => mac_position(device_views(self.items@), searched@) is None,
            },
    {
        let ghost devs = device_views(self.items@);
        let mut i: usize = 0;
        while i < self.items.len()
            invariant
                i <= self.items@.len(),
                devs == device_views(self.items@),
                forall|j: int| 0 <= j < i ==> devs[j].mac != searched@,
            decreases self.items@.len() - i,
        {
            if self.items[i].mac == *searched {
                proof {
                    lemma_mac_position_at(devs, searched@, i as int);
                }
                return Some(i);
            }
            i = i + 1;
        }
        proof {
            lemma_mac_position(devs, searched@);
        }
        None
    }

    /// The first device bound to hardware address `searched`.
    pub fn get_by_mac(&self, searched: &MacAddr) -> (r: Option<&Device>)
        ensures
            r is Some <==> mac_position(device_views(self.items@), searched@) is Some,
            r matches Some(d) ==> *d == self.items@[mac_position(
                device_views(self.items@),
                searched@,
            )->0],
    {
        proof {
            lemma_mac_position(device_views(self.items@), searched@);
            assert(device_views(self.items@).len() == self.items@.len());
        }
        match self.position_of_mac(searched) {
            Some(i) => {
                Some(&self.items[i])
            },
            None => None,
        }
    }

    /// The first device equal to `searched` (same hardware and network
    /// address).
    pub fn get(&self, searched: &Device) -> (r: Option<&Device>)
        ensures
            match r {
                Some(d) => exists|i: int|
                    0 <= i < self.items@.len() && self.items@[i] == *d && d@ == searched@ && forall|
                        j: int,
                    | 0 <= j < i ==> self.items@[j]@ != searched@,
                None => forall|j: int| 0 <= j < self.items@.len() ==> self.items@[j]@ != searched@,
            },
    {
        let mut i: usize = 0;
        while i < self.items.len()
            invariant
                i <= self.items@.len(),
                forall|j: int| 0 <= j < i ==> self.items@[j]@ != searched@,
            decreases self.items@.len() - i,
        {
            if self.items[i] == *searched {
                return Some(&self.items[i]);
            }
            i = i + 1;
        }
        None
    }
}

} // verus!
