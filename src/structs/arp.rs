use vstd::prelude::*;

use super::net::{IpAddr, MacAddr, IP_LEN, MAC_LEN};

verus! {

// Byte offsets inside the ARP payload:
//   0 hardware type, 2 protocol type, 4 hardware address length,
//   5 protocol address length, 6 operation, 8 sender hardware address,
//   14 sender protocol address, 18 target hardware address,
//   24 target protocol address; 28 bytes in all.

/// Length of an ARP payload for Ethernet/IPv4.
pub const ARP_PAYLOAD_LEN: usize = 28;

/// Length of the Ethernet II header that precedes the payload in a frame.
pub const ETHERNET_HEADER_LEN: usize = 14;

#[derive(Debug, PartialEq, Eq, Structural, Clone, Copy)]
pub enum HardwareType {
    Ether,
    P2PP,
    HDLC,
    ADCCP,
}

#[derive(Debug, PartialEq, Eq, Structural, Clone, Copy)]
pub enum ProtocolType {
    V4,
    V6,
}

#[derive(Debug, PartialEq, Eq, Structural, Clone, Copy)]
pub enum ARPOperation {
    Request,
    Reply,
}

/// Why a payload could not be decoded.
#[derive(Debug, PartialEq, Eq, Structural, Clone, Copy)]
pub enum ArpParseCause {
    TooShort,
    UnsupportedHardwareType,
    UnsupportedProtocolType,
    UnsupportedOperation,
}

#[derive(Debug, PartialEq, Eq, Structural, Clone, Copy)]
pub struct ArpParseError {
    pub cause: ArpParseCause,
}

/// Raised by `ArpPacketBuilder::build` when the sender, the target or the
/// operation was never set.
#[derive(Debug, PartialEq, Eq, Structural, Clone, Copy)]
pub struct IncompletePacket;

#[derive(Debug)]
pub struct ArpPacket {
    pub hardware_type: HardwareType,
    pub proto_type: ProtocolType,
    pub hardware_len: usize,
    pub proto_len: usize,
    pub operation: ARPOperation,
    pub sender_mac: MacAddr,
    pub sender_ip: IpAddr,
    pub target_mac: MacAddr,
    pub target_ip: IpAddr,
}

/// The mathematical content of an `ArpPacket`: addresses as byte sequences.
pub struct ArpPacketView {
    pub hardware_type: HardwareType,
    pub proto_type: ProtocolType,
    pub hardware_len: usize,
    pub proto_len: usize,
    pub operation: ARPOperation,
    pub sender_mac: Seq<u8>,
    pub sender_ip: Seq<u8>,
    pub target_mac: Seq<u8>,
    pub target_ip: Seq<u8>,
}

impl View for ArpPacket {
    type V = ArpPacketView;

    open spec fn view(&self) -> ArpPacketView {
        ArpPacketView {
            hardware_type: self.hardware_type,
            proto_type: self.proto_type,
            hardware_len: self.hardware_len,
            proto_len: self.proto_len,
            operation: self.operation,
            sender_mac: self.sender_mac@,
            sender_ip: self.sender_ip@,
            target_mac: self.target_mac@,
            target_ip: self.target_ip@,
        }
    }
}

impl ArpPacketView {
    /// An Ethernet/IPv4 packet whose addresses have their exact lengths.
    pub open spec fn is_valid(self) -> bool {
        &&& self.hardware_type == HardwareType::Ether
        &&& self.proto_type == ProtocolType::V4
        &&& self.hardware_len == MAC_LEN
        &&& self.proto_len == IP_LEN
        &&& self.sender_mac.len() == MAC_LEN
        &&& self.sender_ip.len() == IP_LEN
        &&& self.target_mac.len() == MAC_LEN
        &&& self.target_ip.len() == IP_LEN
    }
}

/// The two operation bytes on the wire.
pub open spec fn op_code(op: ARPOperation) -> Seq<u8> {
    match op {
        ARPOperation::Request => seq![0x00u8, 0x01u8],
        ARPOperation::Reply => seq![0x00u8, 0x02u8],
    }
}

/// The Ethernet II frame that carries `p` from `src` to `dst`.
pub open spec fn encoded(p: ArpPacketView, src: Seq<u8>, dst: Seq<u8>) -> Seq<u8> {
    dst + src + seq![0x08u8, 0x06u8] + seq![0x00u8, 0x01u8, 0x08u8, 0x00u8, 0x06u8, 0x04u8]
        + op_code(p.operation) + p.sender_mac + p.sender_ip + p.target_mac + p.target_ip
}

/// What decoding the ARP payload `b` gives. Bytes 4 and 5 (the address
/// lengths) are not read: they are fixed by the address family.
pub open spec fn decoded(b: Seq<u8>) -> Result<ArpPacketView, ArpParseError> {
    if b.len() < ARP_PAYLOAD_LEN {
        Err(ArpParseError { cause: ArpParseCause::TooShort })
    } else if b[0] != 0x00 || b[1] != 0x01 {
        Err(ArpParseError { cause: ArpParseCause::UnsupportedHardwareType })
    } else if b[2] != 0x08 || b[3] != 0x00 {
        Err(ArpParseError { cause: ArpParseCause::UnsupportedProtocolType })
    } else if b[6] != 0x00 || (b[7] != 0x01 && b[7] != 0x02) {
        Err(ArpParseError { cause: ArpParseCause::UnsupportedOperation })
    } else {
        Ok(
            ArpPacketView {
                hardware_type: HardwareType::Ether,
                proto_type: ProtocolType::V4,
                hardware_len: MAC_LEN,
                proto_len: IP_LEN,
                operation: if b[7] == 0x01 {
                    ARPOperation::Request
                } else {
                    ARPOperation::Reply
                },
                sender_mac: b.subrange(8, 14),
                sender_ip: b.subrange(14, 18),
                target_mac: b.subrange(18, 24),
                target_ip: b.subrange(24, 28),
            },
        )
    }
}

/// Decoding the payload of an encoded frame gives back the packet.
pub proof fn lemma_round_trip(p: ArpPacketView, src: Seq<u8>, dst: Seq<u8>)
    requires
        p.is_valid(),
        src.len() == MAC_LEN,
        dst.len() == MAC_LEN,
    ensures
        encoded(p, src, dst).len() == ETHERNET_HEADER_LEN + ARP_PAYLOAD_LEN,
        decoded(encoded(p, src, dst).subrange(ETHERNET_HEADER_LEN as int, encoded(p, src, dst).len() as int))
            == Ok::<ArpPacketView, ArpParseError>(p),
{
    let f = encoded(p, src, dst);
    let b = f.subrange(14, f.len() as int);
    assert(b.subrange(8, 14) =~= p.sender_mac);
    assert(b.subrange(14, 18) =~= p.sender_ip);
    assert(b.subrange(18, 24) =~= p.target_mac);
    assert(b.subrange(24, 28) =~= p.target_ip);
}

fn push_all(out: &mut Vec<u8>, bytes: &[u8])
    ensures
        final(out)@ == old(out)@ + bytes@,
{
    let mut i: usize = 0;
    while i < bytes.len()
        invariant
            i <= bytes@.len(),
            out@ == old(out)@ + bytes@.subrange(0, i as int),
        decreases bytes@.len() - i,
    {
        out.push(bytes[i]);
        i = i + 1;
        assert(out@ =~= old(out)@ + bytes@.subrange(0, i as int));
    }
    assert(bytes@.subrange(0, i as int) =~= bytes@);
}

/// Assembles an `ArpPacket` in stages; `build` fails unless the sender, the
/// target and the operation were all set.
#[derive(Debug)]
pub struct ArpPacketBuilder {
    pub hardware_type: HardwareType,
    pub proto_type: ProtocolType,
    pub hardware_len: usize,
    pub proto_len: usize,
    pub operation: Option<ARPOperation>,
    pub sender_mac: Option<MacAddr>,
    pub sender_ip: Option<IpAddr>,
    pub target_mac: Option<MacAddr>,
    pub target_ip: Option<IpAddr>,
}

impl ArpPacketBuilder {
    /// An Ethernet/IPv4 builder with nothing else set.
    pub fn default() -> (r: ArpPacketBuilder)
        ensures
            r.hardware_type == HardwareType::Ether,
            r.proto_type == ProtocolType::V4,
            r.hardware_len == MAC_LEN,
            r.proto_len == IP_LEN,
            r.operation is None,
            r.sender_mac is None,
            r.sender_ip is None,
            r.target_mac is None,
            r.target_ip is None,
    {
        ArpPacketBuilder {
            hardware_type: HardwareType::Ether,
            proto_type: ProtocolType::V4,
            hardware_len: MAC_LEN,
            proto_len: IP_LEN,
            operation: None,
            sender_mac: None,
            sender_ip: None,
            target_mac: None,
            target_ip: None,
        }
    }

    pub fn sender(self, mac: MacAddr, ip: IpAddr) -> (r: ArpPacketBuilder)
        ensures
            r == (ArpPacketBuilder { sender_mac: Some(mac), sender_ip: Some(ip), ..self }),
    {
        let mut b = self;
        b.sender_mac = Some(mac);
        b.sender_ip = Some(ip);
        b
    }

    pub fn target(self, mac: MacAddr, ip: IpAddr) -> (r: ArpPacketBuilder)
        ensures
            r == (ArpPacketBuilder { target_mac: Some(mac), target_ip: Some(ip), ..self }),
    {
        let mut b = self;
        b.target_mac = Some(mac);
        b.target_ip = Some(ip);
        b
    }

    pub fn operation(self, operation: ARPOperation) -> (r: ArpPacketBuilder)
        ensures
            r == (ArpPacketBuilder { operation: Some(operation), ..self }),
    {
        let mut b = self;
        b.operation = Some(operation);
        b
    }

    pub open spec fn is_complete(&self) -> bool {
        &&& self.operation is Some
        &&& self.sender_mac is Some
        &&& self.sender_ip is Some
        &&& self.target_mac is Some
        &&& self.target_ip is Some
    }

    pub fn build(self) -> (r: Result<ArpPacket, IncompletePacket>)
        ensures
            self.is_complete() <==> r is Ok,
            r matches Ok(p) ==> p == (ArpPacket {
                hardware_type: self.hardware_type,
                proto_type: self.proto_type,
                hardware_len: self.hardware_len,
                proto_len: self.proto_len,
                operation: self.operation->0,
                sender_mac: self.sender_mac->0,
                sender_ip: self.sender_ip->0,
                target_mac: self.target_mac->0,
                target_ip: self.target_ip->0,
            }),
    {
        match (self.operation, self.sender_mac, self.sender_ip, self.target_mac, self.target_ip) {
            (Some(operation), Some(sender_mac), Some(sender_ip), Some(target_mac), Some(target_ip)) => {
                Ok(
                    ArpPacket {
                        hardware_type: self.hardware_type,
                        proto_type: self.proto_type,
                        hardware_len: self.hardware_len,
                        proto_len: self.proto_len,
                        operation,
                        sender_mac,
                        sender_ip,
                        target_mac,
                        target_ip,
                    },
                )
            },
            _ => Err(IncompletePacket),
        }
    }
}

impl ArpPacket {
    /// Decodes an ARP payload (the bytes that follow the Ethernet header).
    pub fn from(packet: &[u8]) -> (r: Result<ArpPacket, ArpParseError>)
        ensures
            match r {
                Ok(p) => decoded(packet@) == Ok::<ArpPacketView, ArpParseError>(p@),
                Err(e) => decoded(packet@) == Err::<ArpPacketView, ArpParseError>(e),
            },
            packet@.len() < ARP_PAYLOAD_LEN ==> r == Err::<ArpPacket, ArpParseError>(
                ArpParseError { cause: ArpParseCause::TooShort },
            ),
            packet@.len() >= ARP_PAYLOAD_LEN && (packet@[0] != 0x00 || packet@[1] != 0x01) ==> r
                == Err::<ArpPacket, ArpParseError>(
                ArpParseError { cause: ArpParseCause::UnsupportedHardwareType },
            ),
            packet@.len() >= ARP_PAYLOAD_LEN && packet@[0] == 0x00 && packet@[1] == 0x01 && (
            packet@[2] != 0x08 || packet@[3] != 0x00) ==> r == Err::<ArpPacket, ArpParseError>(
                ArpParseError { cause: ArpParseCause::UnsupportedProtocolType },
            ),
            packet@.len() >= ARP_PAYLOAD_LEN && packet@[0] == 0x00 && packet@[1] == 0x01
                && packet@[2] == 0x08 && packet@[3] == 0x00 && (packet@[6] != 0x00 || (packet@[7]
                != 0x01 && packet@[7] != 0x02)) ==> r == Err::<ArpPacket, ArpParseError>(
                ArpParseError { cause: ArpParseCause::UnsupportedOperation },
            ),
            r matches Ok(p) ==> p@.is_valid(),
    {
        if packet.len() < ARP_PAYLOAD_LEN {
            return Err(ArpParseError { cause: ArpParseCause::TooShort });
        }
        if packet[0] != 0x00 || packet[1] != 0x01 {
            return Err(ArpParseError { cause: ArpParseCause::UnsupportedHardwareType });
        }
        if packet[2] != 0x08 || packet[3] != 0x00 {
            return Err(ArpParseError { cause: ArpParseCause::UnsupportedProtocolType });
        }
        let operation = if packet[6] == 0x00 && packet[7] == 0x01 {
            ARPOperation::Request
        } else if packet[6] == 0x00 && packet[7] == 0x02 {
            ARPOperation::Reply
        } else {
            return Err(ArpParseError { cause: ArpParseCause::UnsupportedOperation });
        };
        // Each slice has the exact length of its address, so the four
        // constructors succeed and the last arm is never taken.
        match (
            MacAddr::new(&packet[8..14]),
            IpAddr::new(&packet[14..18]),
            MacAddr::new(&packet[18..24]),
            IpAddr::new(&packet[24..28]),
        ) {
            (Ok(sender_mac), Ok(sender_ip), Ok(target_mac), Ok(target_ip)) => {
                let p = ArpPacket {
                    hardware_type: HardwareType::Ether,
                    proto_type: ProtocolType::V4,
                    hardware_len: MAC_LEN,
                    proto_len: IP_LEN,
                    operation,
                    sender_mac,
                    sender_ip,
                    target_mac,
                    target_ip,
                };
                assert(decoded(packet@) == Ok::<ArpPacketView, ArpParseError>(p@));
                Ok(p)
            },
            _ => Err(ArpParseError { cause: ArpParseCause::TooShort }),
        }
    }

    /// Encodes the packet as an Ethernet II frame from `src` to `dst`.
    pub fn raw(&self, src: &mut MacAddr, dst: &mut MacAddr) -> (r: Vec<u8>)
        ensures
            r@ == encoded(self@, old(src)@, old(dst)@),
            *final(src) == *old(src),
            *final(dst) == *old(dst),
    {
        let mut vec: Vec<u8> = Vec::new();
        push_all(&mut vec, dst.field.as_slice());
        push_all(&mut vec, src.field.as_slice());
        push_all(&mut vec, &[0x08u8, 0x06u8]);
        push_all(&mut vec, &[0x00u8, 0x01u8, 0x08u8, 0x00u8, 0x06u8, 0x04u8]);
        let op: [u8; 2] = match self.operation {
            ARPOperation::Request => [0x00u8, 0x01u8],
            ARPOperation::Reply => [0x00u8, 0x02u8],
        };
        push_all(&mut vec, &op);
        push_all(&mut vec, self.sender_mac.field.as_slice());
        push_all(&mut vec, self.sender_ip.field.as_slice());
        push_all(&mut vec, self.target_mac.field.as_slice());
        push_all(&mut vec, self.target_ip.field.as_slice());
        assert(vec@ =~= encoded(self@, src@, dst@));
        vec
    }
}

} // verus!
