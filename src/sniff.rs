use vstd::prelude::*;

use crate::structs::arp::{
    decoded, encoded, ARPOperation, ArpPacket, ArpPacketView, HardwareType, ProtocolType,
    ARP_PAYLOAD_LEN, ETHERNET_HEADER_LEN,
};
use crate::structs::net::{IpAddr, MacAddr, IP_LEN, MAC_LEN};

verus! {

/// First last-octet of the default sweep.
pub const SWEEP_FIRST: u8 = 0;

/// End (exclusive) of the default sweep.
pub const SWEEP_END: u8 = 254;

pub open spec fn broadcast_mac() -> Seq<u8> {
    seq![0xffu8, 0xffu8, 0xffu8, 0xffu8, 0xffu8, 0xffu8]
}

/// The address of the local /24 whose last octet is `octet`.
pub open spec fn candidate_ip(local_ip: Seq<u8>, octet: u8) -> Seq<u8> {
    seq![local_ip[0], local_ip[1], local_ip[2], octet]
}

/// The broadcast request that asks who has `target_ip`.
pub open spec fn probe_frame(local_mac: Seq<u8>, local_ip: Seq<u8>, target_ip: Seq<u8>) -> Seq<u8> {
    encoded(
        ArpPacketView {
            hardware_type: HardwareType::Ether,
            proto_type: ProtocolType::V4,
            hardware_len: MAC_LEN,
            proto_len: IP_LEN,
            operation: ARPOperation::Request,
            sender_mac: local_mac,
            sender_ip: local_ip,
            target_mac: broadcast_mac(),
            target_ip,
        },
        local_mac,
        broadcast_mac(),
    )
}

/// Walks the last octet of the local /24 over `[first, end)` and back to
/// `first`, forever.
pub struct ProbeScheduler {
    pub local_mac: MacAddr,
    pub local_ip: IpAddr,
    pub first: u8,
    pub end: u8,
    pub cursor: u8,
}

pub struct ProbeSchedulerView {
    pub local_mac: Seq<u8>,
    pub local_ip: Seq<u8>,
    pub first: u8,
    pub end: u8,
    pub cursor: u8,
}

impl View for ProbeScheduler {
    type V = ProbeSchedulerView;

    open spec fn view(&self) -> ProbeSchedulerView {
        ProbeSchedulerView {
            local_mac: self.local_mac@,
            local_ip: self.local_ip@,
            first: self.first,
            end: self.end,
            cursor: self.cursor,
        }
    }
}

impl ProbeSchedulerView {
    pub open spec fn wf(self) -> bool {
        &&& self.local_mac.len() == MAC_LEN
        &&& self.local_ip.len() == IP_LEN
        &&& self.first <= self.cursor < self.end
    }

    /// The frame sent for the current candidate; none for the local address.
    pub open spec fn emission_at(self, octet: u8) -> Option<Seq<u8>> {
        if candidate_ip(self.local_ip, octet) == self.local_ip {
            None
        } else {
            Some(probe_frame(self.local_mac, self.local_ip, candidate_ip(self.local_ip, octet)))
        }
    }

    pub open spec fn advanced(self) -> ProbeSchedulerView {
        ProbeSchedulerView {
            cursor: if self.cursor + 1 >= self.end {
                self.first
            } else {
                (self.cursor + 1) as u8
            },
            ..self
        }
    }

    /// What `n` calls of `next_probe` return, in order.
    pub open spec fn emissions(self, n: nat) -> Seq<Option<Seq<u8>>>
        decreases n,
    {
        if n == 0 {
            seq![]
        } else {
            seq![self.emission_at(self.cursor)] + self.advanced().emissions((n - 1) as nat)
        }
    }

    /// The state after `n` calls of `next_probe`.
    pub open spec fn after(self, n: nat) -> ProbeSchedulerView
        decreases n,
    {
        if n == 0 {
            self
        } else {
            self.advanced().after((n - 1) as nat)
        }
    }
}

proof fn lemma_sweep_from(s: ProbeSchedulerView, m: nat)
    requires
        s.wf(),
        s.cursor + m <= s.end,
    ensures
        s.emissions(m).len() == m,
        forall|k: int| 0 <= k < m ==> s.emissions(m)[k] == s.emission_at((s.cursor + k) as u8),
        s.after(m) == (if s.cursor + m == s.end {
            ProbeSchedulerView { cursor: s.first, ..s }
        } else {
            ProbeSchedulerView { cursor: (s.cursor + m) as u8, ..s }
        }),
    decreases m,
{
    if m > 0 {
        let t = s.advanced();
        if s.cursor + 1 < s.end {
            lemma_sweep_from(t, (m - 1) as nat);
            assert forall|k: int| 0 <= k < m implies s.emissions(m)[k] == s.emission_at(
                (s.cursor + k) as u8,
            ) by {
                if k > 0 {
                    assert(s.emissions(m)[k] == t.emissions((m - 1) as nat)[k - 1]);
                }
            }
        } else {
            assert(m == 1);
            assert(t.emissions(0) =~= seq![]);
            assert(t.after(0) == t);
        }
    }
}

proof fn lemma_probe_frame_target(local_mac: Seq<u8>, local_ip: Seq<u8>, target_ip: Seq<u8>)
    requires
        local_mac.len() == MAC_LEN,
        local_ip.len() == IP_LEN,
        target_ip.len() == IP_LEN,
    ensures
        probe_frame(local_mac, local_ip, target_ip).len() == 42,
        probe_frame(local_mac, local_ip, target_ip).subrange(38, 42) == target_ip,
{
    assert(probe_frame(local_mac, local_ip, target_ip).subrange(38, 42) =~= target_ip);
}

/// One full sweep from the first octet sends one request for every candidate
/// address of the range but the local one, each exactly once, in order, and
/// ends where it started.
pub proof fn lemma_sweep_coverage(s: ProbeSchedulerView)
    requires
        s.wf(),
        s.cursor == s.first,
    ensures
        s.emissions((s.end - s.first) as nat).len() == s.end - s.first,
        forall|k: int|
            0 <= k < s.end - s.first ==> #[trigger] s.emissions((s.end - s.first) as nat)[k]
                == s.emission_at((s.first + k) as u8),
        forall|c: u8|
            s.first <= c < s.end && candidate_ip(s.local_ip, c) != s.local_ip ==> {
                &&& s.emissions((s.end - s.first) as nat)[c - s.first] == Some(
                    probe_frame(s.local_mac, s.local_ip, candidate_ip(s.local_ip, c)),
                )
                &&& forall|k: int|
                    0 <= k < s.end - s.first && k != c - s.first ==> #[trigger] s.emissions(
                        (s.end - s.first) as nat,
                    )[k] != Some(probe_frame(s.local_mac, s.local_ip, candidate_ip(s.local_ip, c)))
            },
        s.after((s.end - s.first) as nat) == s,
{
    let n = (s.end - s.first) as nat;
    lemma_sweep_from(s, n);
    assert forall|c: u8|
        s.first <= c < s.end && candidate_ip(s.local_ip, c) != s.local_ip implies forall|k: int|
        0 <= k < n && k != c - s.first ==> s.emissions(n)[k] != Some(
            probe_frame(s.local_mac, s.local_ip, candidate_ip(s.local_ip, c)),
        ) by {
        assert forall|k: int| 0 <= k < n && k != c - s.first implies s.emissions(n)[k] != Some(
            probe_frame(s.local_mac, s.local_ip, candidate_ip(s.local_ip, c)),
        ) by {
            let d = (s.first + k) as u8;
            let tc = candidate_ip(s.local_ip, c);
            let td = candidate_ip(s.local_ip, d);
            lemma_probe_frame_target(s.local_mac, s.local_ip, tc);
            lemma_probe_frame_target(s.local_mac, s.local_ip, td);
            assert(tc[3] != td[3]);
        }
    }
}

impl ProbeScheduler {
    /// A scheduler for the last octets `[first, end)`, starting at `first`.
    pub fn new(local_mac: MacAddr, local_ip: IpAddr, first: u8, end: u8) -> (r: ProbeScheduler)
        requires
            local_mac.wf(),
            local_ip.wf(),
            first < end,
        ensures
            r@ == (ProbeSchedulerView {
                local_mac: local_mac@,
                local_ip: local_ip@,
                first,
                end,
                cursor: first,
            }),
            r@.wf(),
    {
        ProbeScheduler { local_mac, local_ip, first, end, cursor: first }
    }

    /// Advances to the next candidate and returns the request frame to send
    /// for the current one, or nothing when it is the local address.
    pub fn next_probe(&mut self) -> (r: Option<Vec<u8>>)
        requires
            old(self)@.wf(),
        ensures
            final(self)@ == old(self)@.advanced(),
            final(self)@.wf(),
            match r {
                Some(f) => old(self)@.emission_at(old(self).cursor) == Some(f@),
                None => old(self)@.emission_at(old(self).cursor) is None,
            },
    {
        let target_ip = IpAddr {
            field: vec![
                self.local_ip.field[0],
                self.local_ip.field[1],
                self.local_ip.field[2],
                self.cursor,
            ],
        };
        assert(target_ip@ =~= candidate_ip(self.local_ip@, self.cursor));
        let frame = if target_ip == self.local_ip {
            None
        } else {
            let mut broadcast = MacAddr { field: vec![0xffu8, 0xff, 0xff, 0xff, 0xff, 0xff] };
            assert(broadcast@ =~= broadcast_mac());
            let mut src = self.local_mac.clone();
            let packet = ArpPacket {
                hardware_type: HardwareType::Ether,
                proto_type: ProtocolType::V4,
                hardware_len: MAC_LEN,
                proto_len: IP_LEN,
                operation: ARPOperation::Request,
                sender_mac: self.local_mac.clone(),
                sender_ip: self.local_ip.clone(),
                target_mac: broadcast.clone(),
                target_ip,
            };
            Some(packet.raw(&mut src, &mut broadcast))
        };
        if self.cursor >= self.end - 1 {
            self.cursor = self.first;
        } else {
            self.cursor = self.cursor + 1;
        }
        frame
    }
}

/// An Ethernet frame long enough to hold an ARP payload, with the ARP
/// EtherType 0x0806 at bytes 12 and 13.
pub open spec fn is_arp_frame(frame: Seq<u8>) -> bool {
    &&& frame.len() >= ETHERNET_HEADER_LEN + ARP_PAYLOAD_LEN
    &&& frame[12] == 0x08
    &&& frame[13] == 0x06
}

/// The frame without its Ethernet header.
pub open spec fn payload(frame: Seq<u8>) -> Seq<u8> {
    frame.subrange(ETHERNET_HEADER_LEN as int, frame.len() as int)
}

/// Keeps the ARP frames that decode, as packets; drops everything else.
pub fn classify_frame(frame: &[u8]) -> (r: Option<ArpPacket>)
    ensures
        match r {
            Some(p) => is_arp_frame(frame@) && decoded(payload(frame@)) == Ok::<
                ArpPacketView,
                crate::structs::arp::ArpParseError,
            >(p@),
            None => !is_arp_frame(frame@) || decoded(payload(frame@)) is Err,
        },
{
    if frame.len() < ETHERNET_HEADER_LEN + ARP_PAYLOAD_LEN {
        return None;
    }
    if frame[12] != 0x08 || frame[13] != 0x06 {
        return None;
    }
    match ArpPacket::from(&frame[ETHERNET_HEADER_LEN..frame.len()]) {
        Ok(p) => Some(p),
        Err(_) => None,
    }
}

} // verus!
