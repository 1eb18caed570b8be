use arp_watch::sniff::{classify_frame, ProbeScheduler, SWEEP_END, SWEEP_FIRST};
use arp_watch::structs::arp::{ARPOperation, ArpPacket};
use arp_watch::structs::net::{IpAddr, MacAddr};

const LOCAL_MAC: [u8; 6] = [0x02, 0x11, 0x22, 0x33, 0x44, 0x55];

fn scheduler(last: u8) -> ProbeScheduler {
    ProbeScheduler::new(
        MacAddr::new(&LOCAL_MAC).unwrap(),
        IpAddr::new(&[192, 168, 1, last]).unwrap(),
        SWEEP_FIRST,
        SWEEP_END,
    )
}

#[test]
fn sweep_covers_range_once_skipping_local() {
    let mut s = scheduler(10);
    let mut seen = vec![0usize; 256];
    let mut sent = 0usize;
    for _ in SWEEP_FIRST..SWEEP_END {
        if let Some(frame) = s.next_probe() {
            sent += 1;
            let p = classify_frame(&frame).unwrap();
            assert_eq!(p.operation, ARPOperation::Request);
            assert_eq!(p.sender_mac.field, LOCAL_MAC.to_vec());
            assert_eq!(p.sender_ip.field, vec![192, 168, 1, 10]);
            assert_eq!(p.target_mac.field, vec![0xff; 6]);
            assert_eq!(&p.target_ip.field[..3], &[192, 168, 1]);
            seen[p.target_ip.field[3] as usize] += 1;
            assert_eq!(&frame[0..6], &[0xff; 6]);
            assert_eq!(&frame[6..12], &LOCAL_MAC);
        }
    }
    assert_eq!(sent, 253);
    for c in 0..256usize {
        let expected = if c < 254 && c != 10 { 1 } else { 0 };
        assert_eq!(seen[c], expected, "octet {}", c);
    }
    assert_eq!(s.cursor, SWEEP_FIRST);
}

#[test]
fn sweep_order_and_wrap() {
    let mut s = ProbeScheduler::new(
        MacAddr::new(&LOCAL_MAC).unwrap(),
        IpAddr::new(&[10, 0, 0, 2]).unwrap(),
        1,
        4,
    );
    let mut targets = Vec::new();
    for _ in 0..6 {
        match s.next_probe() {
            Some(frame) => targets.push(Some(frame[41])),
            None => targets.push(None),
        }
    }
    assert_eq!(targets, vec![Some(1), None, Some(3), Some(1), None, Some(3)]);
}

#[test]
fn classify_accepts_arp_frame() {
    let mut frame = vec![0xff; 6];
    frame.extend_from_slice(&[1, 2, 3, 4, 5, 6]);
    frame.extend_from_slice(&[0x08, 0x06]);
    frame.extend_from_slice(&[
        0x00, 0x01, 0x08, 0x00, 0x06, 0x04, 0x00, 0x02, 1, 2, 3, 4, 5, 6, 10, 0, 0, 5, 7, 7, 7,
        7, 7, 7, 10, 0, 0, 1,
    ]);
    let p = classify_frame(&frame).unwrap();
    assert_eq!(p.operation, ARPOperation::Reply);
    assert_eq!(p.sender_ip.field, vec![10, 0, 0, 5]);
}

#[test]
fn classify_drops_other_frames() {
    let mut frame = vec![0xff; 6];
    frame.extend_from_slice(&[1, 2, 3, 4, 5, 6]);
    frame.extend_from_slice(&[0x08, 0x00]);
    frame.extend_from_slice(&[0u8; 28]);
    assert!(classify_frame(&frame).is_none());
    assert!(classify_frame(&[0x08, 0x06]).is_none());
    assert!(classify_frame(&[]).is_none());
    let mut short = vec![0u8; 41];
    short[12] = 0x08;
    short[13] = 0x06;
    assert!(classify_frame(&short).is_none());
}

#[test]
fn classify_drops_malformed_arp() {
    let mut frame = vec![0u8; 42];
    frame[12] = 0x08;
    frame[13] = 0x06;
    frame[14] = 0x00;
    frame[15] = 0x01;
    frame[16] = 0x08;
    frame[17] = 0x00;
    frame[20] = 0x00;
    frame[21] = 0x07;
    assert!(classify_frame(&frame).is_none());
    frame[21] = 0x01;
    let p: ArpPacket = classify_frame(&frame).unwrap();
    assert_eq!(p.operation, ARPOperation::Request);
}
