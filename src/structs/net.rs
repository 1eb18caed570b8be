use vstd::prelude::*;

verus! {

/// Number of octets in a hardware (MAC) address.
pub const MAC_LEN: usize = 6;

/// Number of octets in a network (IPv4) address.
pub const IP_LEN: usize = 4;

/// A 6-octet link-layer address.
#[derive(Debug)]
pub struct MacAddr {
    pub field: Vec<u8>,
}

/// A 4-octet IPv4 address.
#[derive(Debug)]
pub struct IpAddr {
    pub field: Vec<u8>,
}

/// Raised when an address is built from a byte slice of the wrong length.
#[derive(Debug, PartialEq, Eq, Structural, Clone, Copy)]
pub struct AddressParseError;

impl View for MacAddr {
    type V = Seq<u8>;

    open spec fn view(&self) -> Seq<u8> {
        self.field@
    }
}

impl View for IpAddr {
    type V = Seq<u8>;

    open spec fn view(&self) -> Seq<u8> {
        self.field@
    }
}

impl MacAddr {
    pub open spec fn wf(&self) -> bool {
        self@.len() == MAC_LEN
    }

    pub fn new(field: &[u8]) -> (r: Result<MacAddr, AddressParseError>)
        ensures
            field@.len() == MAC_LEN <==> r is Ok,
            r matches Ok(m) ==> m@ == field@,
    {
        if field.len() != MAC_LEN {
            return Err(AddressParseError);
        }
        Ok(MacAddr { field: vstd::slice::slice_to_vec(field) })
    }
}

impl IpAddr {
    pub open spec fn wf(&self) -> bool {
        self@.len() == IP_LEN
    }

    pub fn new(field: &[u8]) -> (r: Result<IpAddr, AddressParseError>)
        ensures
            field@.len() == IP_LEN <==> r is Ok,
            r matches Ok(a) ==> a@ == field@,
    {
        if field.len() != IP_LEN {
            return Err(AddressParseError);
        }
        Ok(IpAddr { field: vstd::slice::slice_to_vec(field) })
    }
}

impl Clone for MacAddr {
    fn clone(&self) -> (r: MacAddr)
        ensures
            r@ == self@,
    {
        MacAddr { field: self.field.clone() }
    }
}

impl PartialEq for MacAddr {
    fn eq(&self, other: &MacAddr) -> (r: bool)
        ensures
            r == (self@ == other@),
    {
        let r = self.field == other.field;
        proof {
            if r {
                assert(self@ =~= other@);
            }
        }
        r
    }
}

impl vstd::std_specs::cmp::PartialEqSpecImpl for MacAddr {
    open spec fn obeys_eq_spec() -> bool {
        true
    }

    open spec fn eq_spec(&self, other: &MacAddr) -> bool {
        self@ == other@
    }
}

impl Clone for IpAddr {
    fn clone(&self) -> (r: IpAddr)
        ensures
            r@ == self@,
    {
        IpAddr { field: self.field.clone() }
    }
}

impl PartialEq for IpAddr {
    fn eq(&self, other: &IpAddr) -> (r: bool)
        ensures
            r == (self@ == other@),
    {
        let r = self.field == other.field;
        proof {
            if r {
                assert(self@ =~= other@);
            }
        }
        r
    }
}

impl vstd::std_specs::cmp::PartialEqSpecImpl for IpAddr {
    open spec fn obeys_eq_spec() -> bool {
        true
    }

    open spec fn eq_spec(&self, other: &IpAddr) -> bool {
        self@ == other@
    }
}

impl From<MacAddr> for Vec<u8> {
    fn from(m: MacAddr) -> Vec<u8> {
        m.field
    }
}

impl vstd::std_specs::convert::FromSpecImpl<MacAddr> for Vec<u8> {
    open spec fn obeys_from_spec() -> bool {
        true
    }

    open spec fn from_spec(m: MacAddr) -> Vec<u8> {
        m.field
    }
}

impl From<IpAddr> for Vec<u8> {
    fn from(a: IpAddr) -> Vec<u8> {
        a.field
    }
}

impl vstd::std_specs::convert::FromSpecImpl<IpAddr> for Vec<u8> {
    open spec fn obeys_from_spec() -> bool {
        true
    }

    open spec fn from_spec(a: IpAddr) -> Vec<u8> {
        a.field
    }
}

/// One observed binding of a hardware address to a network address.
#[derive(Debug)]
pub struct Device {
    pub mac: MacAddr,
    pub ip: IpAddr,
}

pub struct DeviceView {
    pub mac: Seq<u8>,
    pub ip: Seq<u8>,
}

impl View for Device {
    type V = DeviceView;

    open spec fn view(&self) -> DeviceView {
        DeviceView { mac: self.mac@, ip: self.ip@ }
    }
}

impl Device {
    pub open spec fn wf(&self) -> bool {
        self.mac.wf() && self.ip.wf()
    }

    pub fn new(mac: &[u8], ip: &[u8]) -> (r: Result<Device, AddressParseError>)
        ensures
            mac@.len() == MAC_LEN && ip@.len() == IP_LEN <==> r is Ok,
            r matches Ok(d) ==> d@ == (DeviceView { mac: mac@, ip: ip@ }),
    {
        let mac = MacAddr::new(mac)?;
        let ip = IpAddr::new(ip)?;
        Ok(Device { mac, ip })
    }
}

impl Clone for Device {
    fn clone(&self) -> (r: Device)
        ensures
            r@ == self@,
    {
        Device { mac: self.mac.clone(), ip: self.ip.clone() }
    }
}

impl PartialEq for Device {
    fn eq(&self, other: &Device) -> (r: bool)
        ensures
            r == (self@ == other@),
    {
        self.mac == other.mac && self.ip == other.ip
    }
}

impl vstd::std_specs::cmp::PartialEqSpecImpl for Device {
    open spec fn obeys_eq_spec() -> bool {
        true
    }

    open spec fn eq_spec(&self, other: &Device) -> bool {
        self@ == other@
    }
}

/// The digits used to render addresses, by value.
pub open spec fn digits() -> Seq<char> {
    seq!['0', '1', '2', '3', '4', '5', '6', '7', '8', '9', 'A', 'B', 'C', 'D', 'E', 'F']
}

/// Two uppercase hexadecimal digits.
pub open spec fn hex_pair(b: u8) -> Seq<char> {
    seq![digits()[(b / 16) as int], digits()[(b % 16) as int]]
}

/// Decimal digits without leading zeros.
pub open spec fn decimal(b: u8) -> Seq<char> {
    if b >= 100 {
        seq![digits()[(b / 100) as int], digits()[((b / 10) % 10) as int], digits()[(b % 10) as int]]
    } else if b >= 10 {
        seq![digits()[(b / 10) as int], digits()[(b % 10) as int]]
    } else {
        seq![digits()[b as int]]
    }
}

/// Hexadecimal pairs joined by `::`.
pub open spec fn mac_text(m: Seq<u8>) -> Seq<char>
    decreases m.len(),
{
    if m.len() == 0 {
        seq![]
    } else if m.len() == 1 {
        hex_pair(m[0])
    } else {
        mac_text(m.drop_last()) + seq![':', ':'] + hex_pair(m.last())
    }
}

/// Decimal octets joined by `.`.
pub open spec fn ip_text(a: Seq<u8>) -> Seq<char>
    decreases a.len(),
{
    if a.len() == 0 {
        seq![]
    } else if a.len() == 1 {
        decimal(a[0])
    } else {
        ip_text(a.drop_last()) + seq!['.'] + decimal(a.last())
    }
}

pub open spec fn device_text(d: DeviceView) -> Seq<char> {
    seq!['['] + mac_text(d.mac) + seq![']', ' ', '@', ' '] + ip_text(d.ip)
}

fn digit_str(d: u8) -> (r: &'static str)
    requires
        d < 16,
    ensures
        r@ == seq![digits()[d as int]],
{
    let all = "0123456789ABCDEF";
    proof {
        reveal_strlit("0123456789ABCDEF");
        assert(all@ =~= digits());
    }
    let r = all.substring_ascii(d as usize, d as usize + 1);
    assert(r@ =~= seq![digits()[d as int]]);
    r
}

fn push_hex_pair(s: &mut String, b: u8)
    ensures
        final(s)@ == old(s)@ + hex_pair(b),
{
    s.append(digit_str(b / 16));
    s.append(digit_str(b % 16));
    assert(s@ =~= old(s)@ + hex_pair(b));
}

fn push_decimal(s: &mut String, b: u8)
    ensures
        final(s)@ == old(s)@ + decimal(b),
{
    if b >= 100 {
        s.append(digit_str(b / 100));
        s.append(digit_str((b / 10) % 10));
        s.append(digit_str(b % 10));
    } else if b >= 10 {
        s.append(digit_str(b / 10));
        s.append(digit_str(b % 10));
    } else {
        s.append(digit_str(b));
    }
    assert(s@ =~= old(s)@ + decimal(b));
}

/// The value of an ASCII hexadecimal digit, either case.
pub open spec fn hex_value(c: u8) -> Option<u8> {
    if 0x30 <= c <= 0x39 {
        Some((c - 0x30) as u8)
    } else if 0x61 <= c <= 0x66 {
        Some((c - 0x61 + 10) as u8)
    } else if 0x41 <= c <= 0x46 {
        Some((c - 0x41 + 10) as u8)
    } else {
        None
    }
}

/// The octet written by the two digits of group `k` of a `xx:xx:..` text.
pub open spec fn text_octet(t: Seq<u8>, k: int) -> Option<u8> {
    match (hex_value(t[3 * k]), hex_value(t[3 * k + 1])) {
        (Some(h), Some(l)) => Some((h * 16 + l) as u8),
        _ => None,
    }
}

/// Group `k` is followed by `:` (0x3a).
pub open spec fn text_separator(t: Seq<u8>, k: int) -> bool {
    t[3 * k + 2] == 0x3a
}

/// Text that starts with six two-digit hexadecimal groups joined by `:`
/// (0x3a); whatever follows (a line break) is ignored.
pub open spec fn is_mac_text(t: Seq<u8>) -> bool {
    &&& t.len() >= 17
    &&& forall|k: int| 0 <= k < MAC_LEN ==> (#[trigger] text_octet(t, k)) is Some
    &&& forall|k: int| 0 <= k < MAC_LEN - 1 ==> #[trigger] text_separator(t, k)
}

fn hex_digit_value(c: u8) -> (r: Option<u8>)
    ensures
        r == hex_value(c),
{
    if 0x30 <= c && c <= 0x39 {
        Some(c - 0x30)
    } else if 0x61 <= c && c <= 0x66 {
        Some(c - 0x61 + 10)
    } else if 0x41 <= c && c <= 0x46 {
        Some(c - 0x41 + 10)
    } else {
        None
    }
}

impl MacAddr {
    /// Reads an address written as `aa:bb:cc:dd:ee:ff`, the form the
    /// operating system reports for an interface.
    pub fn from_text(text: &[u8]) -> (r: Result<MacAddr, AddressParseError>)
        ensures
            r is Ok <==> is_mac_text(text@),
            r matches Ok(m) ==> m@.len() == MAC_LEN && forall|k: int|
                0 <= k < MAC_LEN ==> m@[k] == (#[trigger] text_octet(text@, k))->0,
    {
        if text.len() < 17 {
            return Err(AddressParseError);
        }
        let mut field: Vec<u8> = Vec::new();
        let mut k: usize = 0;
        while k < MAC_LEN
            invariant
                text@.len() >= 17,
                k <= MAC_LEN,
                field@.len() == k,
                forall|j: int| 0 <= j < k ==> (#[trigger] text_octet(text@, j)) is Some,
                forall|j: int| 0 <= j < k ==> field@[j] == (#[trigger] text_octet(text@, j))->0,
                forall|j: int| 0 <= j < k && j < MAC_LEN - 1 ==> #[trigger] text_separator(text@, j),
            decreases MAC_LEN - k,
        {
            let hi = hex_digit_value(text[3 * k]);
            let lo = hex_digit_value(text[3 * k + 1]);
            match (hi, lo) {
                (Some(h), Some(l)) => {
                    field.push(h * 16 + l);
                },
                _ => {
                    assert(text_octet(text@, k as int) is None);
                    return Err(AddressParseError);
                },
            }
            if k < MAC_LEN - 1 && text[3 * k + 2] != 0x3a {
                assert(!text_separator(text@, k as int));
                return Err(AddressParseError);
            }
            k = k + 1;
        }
        Ok(MacAddr { field })
    }

    /// Renders the address as six uppercase hexadecimal pairs, `AA::BB::...`.
    pub fn to_string(&self) -> (r: String)
        ensures
            r@ == mac_text(self@),
    {
        let mut s = String::new();
        let mut i: usize = 0;
        while i < self.field.len()
            invariant
                i <= self@.len(),
                s@ == mac_text(self@.subrange(0, i as int)),
            decreases self@.len() - i,
        {
            let ghost prev = self@.subrange(0, i as int);
            if i > 0 {
                let sep = "::";
                proof {
                    reveal_strlit("::");
                }
                s.append(sep);
            }
            push_hex_pair(&mut s, self.field[i]);
            i = i + 1;
            assert(self@.subrange(0, i as int).drop_last() =~= prev);
        }
        assert(self@.subrange(0, i as int) =~= self@);
        s
    }
}

impl IpAddr {
    /// Renders the address as dot-separated decimal octets.
    pub fn to_string(&self) -> (r: String)
        ensures
            r@ == ip_text(self@),
    {
        let mut s = String::new();
        let mut i: usize = 0;
        while i < self.field.len()
            invariant
                i <= self@.len(),
                s@ == ip_text(self@.subrange(0, i as int)),
            decreases self@.len() - i,
        {
            let ghost prev = self@.subrange(0, i as int);
            if i > 0 {
                let sep = ".";
                proof {
                    reveal_strlit(".");
                }
                s.append(sep);
            }
            push_decimal(&mut s, self.field[i]);
            i = i + 1;
            assert(self@.subrange(0, i as int).drop_last() =~= prev);
        }
        assert(self@.subrange(0, i as int) =~= self@);
        s
    }
}

impl Device {
    /// Renders the binding as `[<hardware>] @ <network>`.
    pub fn to_string(&self) -> (r: String)
        ensures
            r@ == device_text(self@),
    {
        let mut s = String::new();
        let open = "[";
        let close = "] @ ";
        proof {
            reveal_strlit("[");
            reveal_strlit("] @ ");
        }
        s.append(open);
        let mac = self.mac.to_string();
        s.append(mac.as_str());
        s.append(close);
        let ip = self.ip.to_string();
        s.append(ip.as_str());
        assert(s@ =~= device_text(self@));
        s
    }
}

#[derive(Debug, PartialEq, Eq, Structural, Clone, Copy)]
pub enum ArpOperation {
    Request,
    Reply,
}

/// A packet reduced to its operation and its two endpoints.
#[derive(Debug)]
pub struct ArpPacket {
    pub sender: Device,
    pub target: Device,
    pub op: ArpOperation,
}

impl ArpPacket {
    pub fn devices(&self) -> (r: (&Device, &Device))
        ensures
            *r.0 == self.sender,
            *r.1 == self.target,
    {
        (&self.sender, &self.target)
    }
}

} // verus!
