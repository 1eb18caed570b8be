use vstd::prelude::*;

use crate::structs::arp::ARPOperation;
use crate::structs::net::{DeviceView, IpAddr, IP_LEN, MAC_LEN};
use crate::structs::statelist::{lemma_mac_position, lemma_mac_position_at, mac_position};

verus! {

/// The devices believed to be on the segment, and the log of rebindings
/// (previous binding, new binding) in the order they were seen.
pub struct DirectoryView {
    pub devices: Seq<DeviceView>,
    pub rebindings: Seq<(DeviceView, DeviceView)>,
}

/// The unspecified address 0.0.0.0 and the broadcast address
/// 255.255.255.255 name no device.
pub open spec fn is_reserved_ip(ip: Seq<u8>) -> bool {
    ip == seq![0u8, 0u8, 0u8, 0u8] || ip == seq![255u8, 255u8, 255u8, 255u8]
}

impl DirectoryView {
    /// At most one device per hardware address, every address of its exact
    /// length.
    pub open spec fn wf(self) -> bool {
        &&& forall|i: int|
            0 <= i < self.devices.len() ==> #[trigger] self.devices[i].mac.len() == MAC_LEN
                && self.devices[i].ip.len() == IP_LEN
        &&& forall|i: int, j: int|
            0 <= i < j < self.devices.len() ==> #[trigger] self.devices[i].mac
                != #[trigger] self.devices[j].mac
    }

    /// The directory after a packet with operation `op` and sender `sender`.
    /// Only a reply claims a binding: an unseen hardware address is added
    /// (unless its network address is reserved), a known one with a new
    /// network address is rebound and the change logged.
    pub open spec fn observe(self, op: ARPOperation, sender: DeviceView) -> DirectoryView {
        if op == ARPOperation::Request {
            self
        } else {
            match mac_position(self.devices, sender.mac) {
                None => if is_reserved_ip(sender.ip) {
                    self
                } else {
                    DirectoryView { devices: self.devices.push(sender), rebindings: self.rebindings }
                },
                Some(i) => if self.devices[i].ip == sender.ip {
                    self
                } else {
                    DirectoryView {
                        devices: self.devices.update(i, sender),
                        rebindings: self.rebindings.push((self.devices[i], sender)),
                    }
                },
            }
        }
    }
}

/// Observing the same reply twice in a row changes nothing the second time.
pub proof fn lemma_reply_idempotent(dir: DirectoryView, sender: DeviceView)
    ensures
        dir.observe(ARPOperation::Reply, sender).observe(ARPOperation::Reply, sender)
            == dir.observe(ARPOperation::Reply, sender),
{
    let once = dir.observe(ARPOperation::Reply, sender);
    lemma_mac_position(dir.devices, sender.mac);
    match mac_position(dir.devices, sender.mac) {
        None => {
            if !is_reserved_ip(sender.ip) {
                lemma_mac_position_at(once.devices, sender.mac, dir.devices.len() as int);
            }
        },
        Some(i) => {
            if dir.devices[i].ip != sender.ip {
                lemma_mac_position_at(once.devices, sender.mac, i);
            }
        },
    }
}

/// A reply that binds a known hardware address to a new network address
/// replaces that device in place and logs exactly one rebinding, from the
/// previous binding to the new one.
pub proof fn lemma_rebinding_recorded(dir: DirectoryView, sender: DeviceView, i: int)
    requires
        dir.wf(),
        0 <= i < dir.devices.len(),
        dir.devices[i].mac == sender.mac,
        dir.devices[i].ip != sender.ip,
    ensures
        dir.observe(ARPOperation::Reply, sender).devices == dir.devices.update(i, sender),
        dir.observe(ARPOperation::Reply, sender).rebindings == dir.rebindings.push(
            (dir.devices[i], sender),
        ),
{
    assert forall|j: int| 0 <= j < i implies dir.devices[j].mac != sender.mac by {
        assert(dir.devices[j].mac != dir.devices[i].mac);
    }
    lemma_mac_position_at(dir.devices, sender.mac, i);
}

/// A reply from an unseen hardware address with a usable network address
/// adds one device and logs no rebinding.
pub proof fn lemma_new_device_inserted(dir: DirectoryView, sender: DeviceView)
    requires
        forall|j: int| 0 <= j < dir.devices.len() ==> dir.devices[j].mac != sender.mac,
        !is_reserved_ip(sender.ip),
    ensures
        dir.observe(ARPOperation::Reply, sender).devices == dir.devices.push(sender),
        dir.observe(ARPOperation::Reply, sender).devices.len() == dir.devices.len() + 1,
        dir.observe(ARPOperation::Reply, sender).rebindings == dir.rebindings,
{
    lemma_mac_position(dir.devices, sender.mac);
}

/// Observing a packet keeps one device per hardware address.
pub proof fn lemma_observe_wf(dir: DirectoryView, op: ARPOperation, sender: DeviceView)
    requires
        dir.wf(),
        sender.mac.len() == MAC_LEN,
        sender.ip.len() == IP_LEN,
    ensures
        dir.observe(op, sender).wf(),
{
    lemma_mac_position(dir.devices, sender.mac);
    let after = dir.observe(op, sender);
    assert forall|i: int, j: int| 0 <= i < j < after.devices.len() implies after.devices[i].mac
        != after.devices[j].mac by {
        if op == ARPOperation::Reply && mac_position(dir.devices, sender.mac) is Some {
            let k = mac_position(dir.devices, sender.mac)->0;
            if i == k || j == k {
                assert(dir.devices[i].mac != dir.devices[j].mac);
            }
        }
    }
    assert forall|i: int| 0 <= i < after.devices.len() implies #[trigger] after.devices[i].mac.len()
        == MAC_LEN && after.devices[i].ip.len() == IP_LEN by {
        if i < dir.devices.len() {
            assert(dir.devices[i].mac.len() == MAC_LEN);
        }
    }
}

pub(crate) fn is_reserved(ip: &IpAddr) -> (r: bool)
    ensures
        r == is_reserved_ip(ip@),
{
    if ip.field.len() != IP_LEN {
        return false;
    }
    let zero = ip.field[0] == 0 && ip.field[1] == 0 && ip.field[2] == 0 && ip.field[3] == 0;
    let ones = ip.field[0] == 255 && ip.field[1] == 255 && ip.field[2] == 255 && ip.field[3]
        == 255;
    proof {
        if zero {
            assert(ip@ =~= seq![0u8, 0u8, 0u8, 0u8]);
        }
        if ones {
            assert(ip@ =~= seq![255u8, 255u8, 255u8, 255u8]);
        }
    }
    zero || ones
}

} // verus!
