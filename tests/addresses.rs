use arp_watch::structs::net::{AddressParseError, ArpOperation, ArpPacket, Device, IpAddr, MacAddr};

#[test]
fn mac_new_checks_length() {
    assert_eq!(MacAddr::new(&[1, 2, 3, 4, 5]).unwrap_err(), AddressParseError);
    assert_eq!(MacAddr::new(&[1, 2, 3, 4, 5, 6, 7]).unwrap_err(), AddressParseError);
    assert_eq!(MacAddr::new(&[]).unwrap_err(), AddressParseError);
    assert_eq!(MacAddr::new(&[1, 2, 3, 4, 5, 6]).unwrap().field, vec![1, 2, 3, 4, 5, 6]);
}

#[test]
fn ip_new_checks_length() {
    assert_eq!(IpAddr::new(&[10, 0, 0]).unwrap_err(), AddressParseError);
    assert_eq!(IpAddr::new(&[10, 0, 0, 1, 2]).unwrap_err(), AddressParseError);
    assert_eq!(IpAddr::new(&[10, 0, 0, 1]).unwrap().field, vec![10, 0, 0, 1]);
}

#[test]
fn device_new_checks_both_lengths() {
    assert!(Device::new(&[1, 2, 3, 4, 5], &[10, 0, 0, 1]).is_err());
    assert!(Device::new(&[1, 2, 3, 4, 5, 6], &[10, 0, 0]).is_err());
    let d = Device::new(&[1, 2, 3, 4, 5, 6], &[10, 0, 0, 1]).unwrap();
    assert_eq!(d.mac.field, vec![1, 2, 3, 4, 5, 6]);
    assert_eq!(d.ip.field, vec![10, 0, 0, 1]);
}

#[test]
fn address_equality_by_bytes() {
    let a = MacAddr::new(&[1, 2, 3, 4, 5, 6]).unwrap();
    let b = MacAddr::new(&[1, 2, 3, 4, 5, 6]).unwrap();
    let c = MacAddr::new(&[1, 2, 3, 4, 5, 7]).unwrap();
    assert!(a == b);
    assert!(a != c);
    let d1 = Device::new(&[1, 2, 3, 4, 5, 6], &[10, 0, 0, 1]).unwrap();
    let d2 = Device::new(&[1, 2, 3, 4, 5, 6], &[10, 0, 0, 2]).unwrap();
    assert!(d1 != d2);
    assert!(d1 == d1.clone());
}

#[test]
fn mac_rendering() {
    let m = MacAddr::new(&[0xaa, 0xbb, 0x0c, 0x00, 0x9e, 0xff]).unwrap();
    assert_eq!(m.to_string(), "AA::BB::0C::00::9E::FF");
}

#[test]
fn ip_rendering() {
    assert_eq!(IpAddr::new(&[10, 0, 0, 5]).unwrap().to_string(), "10.0.0.5");
    assert_eq!(IpAddr::new(&[192, 168, 1, 254]).unwrap().to_string(), "192.168.1.254");
    assert_eq!(IpAddr::new(&[255, 99, 100, 9]).unwrap().to_string(), "255.99.100.9");
}

#[test]
fn device_rendering() {
    let d = Device::new(&[0xaa, 0xbb, 0xcc, 0xdd, 0xee, 0xff], &[10, 0, 0, 5]).unwrap();
    assert_eq!(d.to_string(), "[AA::BB::CC::DD::EE::FF] @ 10.0.0.5");
}

#[test]
fn mac_from_text() {
    let m = MacAddr::from_text(b"3c:a9:f4:0B:7e:21\n").unwrap();
    assert_eq!(m.field, vec![0x3c, 0xa9, 0xf4, 0x0b, 0x7e, 0x21]);
    let exact = MacAddr::from_text(b"00:00:00:00:00:01").unwrap();
    assert_eq!(exact.field, vec![0, 0, 0, 0, 0, 1]);
}

#[test]
fn mac_from_text_rejects() {
    assert_eq!(MacAddr::from_text(b"3c:a9:f4:0b:7e:2").unwrap_err(), AddressParseError);
    assert_eq!(MacAddr::from_text(b"3c-a9-f4-0b-7e-21").unwrap_err(), AddressParseError);
    assert_eq!(MacAddr::from_text(b"3g:a9:f4:0b:7e:21").unwrap_err(), AddressParseError);
    assert_eq!(MacAddr::from_text(b"").unwrap_err(), AddressParseError);
}

#[test]
fn addresses_into_bytes() {
    let m: Vec<u8> = MacAddr::new(&[1, 2, 3, 4, 5, 6]).unwrap().into();
    assert_eq!(m, vec![1, 2, 3, 4, 5, 6]);
    let a: Vec<u8> = IpAddr::new(&[10, 0, 0, 1]).unwrap().into();
    assert_eq!(a, vec![10, 0, 0, 1]);
}

#[test]
fn packet_devices() {
    let p = ArpPacket {
        sender: Device::new(&[1; 6], &[10, 0, 0, 1]).unwrap(),
        target: Device::new(&[2; 6], &[10, 0, 0, 2]).unwrap(),
        op: ArpOperation::Reply,
    };
    let (s, t) = p.devices();
    assert_eq!(s.ip.field, vec![10, 0, 0, 1]);
    assert_eq!(t.ip.field, vec![10, 0, 0, 2]);
    assert!(p.op == ArpOperation::Reply);
}
