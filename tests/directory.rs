use arp_watch::structs::arp::{ARPOperation, ArpPacket, ArpPacketBuilder};
use arp_watch::structs::net::{Device, IpAddr, MacAddr};
use arp_watch::structs::statelist::StateList;
use arp_watch::{App, InputMode, Popup};

fn packet(op: ARPOperation, mac: [u8; 6], ip: [u8; 4]) -> ArpPacket {
    ArpPacketBuilder::default()
        .sender(MacAddr::new(&mac).unwrap(), IpAddr::new(&ip).unwrap())
        .target(MacAddr::new(&[0xff; 6]).unwrap(), IpAddr::new(&[10, 0, 0, 1]).unwrap())
        .operation(op)
        .build()
        .unwrap()
}

const AA: [u8; 6] = [0xaa, 0xbb, 0xcc, 0xdd, 0xee, 0xff];

#[test]
fn new_app_is_empty() {
    let (app, _tx) = App::new();
    assert!(app.list.items.is_empty());
    assert!(app.changement_list.items.is_empty());
    assert_eq!(app.list.selected, None);
    assert_eq!(app.scroll(), 0);
    assert_eq!(app.arp_frame_counter, 0);
    assert_eq!(app.popup, Popup::Hidden);
    assert_eq!(app.mode, InputMode::NormalMode);
    assert!(app.input.is_empty());
}

#[test]
fn channel_delivers_packets() {
    let (app, tx) = App::new();
    tx.send(packet(ARPOperation::Reply, AA, [10, 0, 0, 5])).unwrap();
    let got = app.rx.try_recv().unwrap();
    assert_eq!(got.sender_ip.field, vec![10, 0, 0, 5]);
    assert!(app.rx.try_recv().is_err());
}

#[test]
fn reply_twice_is_idempotent() {
    let (mut app, _tx) = App::new();
    app.handle_packet(packet(ARPOperation::Reply, AA, [10, 0, 0, 5]));
    assert_eq!(app.list.items.len(), 1);
    assert_eq!(app.changement_list.items.len(), 0);
    app.handle_packet(packet(ARPOperation::Reply, AA, [10, 0, 0, 5]));
    assert_eq!(app.list.items.len(), 1);
    assert_eq!(app.changement_list.items.len(), 0);
    assert_eq!(app.arp_frame_counter, 2);
}

#[test]
fn rebinding_is_detected() {
    let (mut app, _tx) = App::new();
    app.handle_packet(packet(ARPOperation::Reply, AA, [10, 0, 0, 5]));
    app.handle_packet(packet(ARPOperation::Reply, AA, [10, 0, 0, 9]));
    assert_eq!(app.list.items.len(), 1);
    assert_eq!(app.list.items[0].mac.field, AA.to_vec());
    assert_eq!(app.list.items[0].ip.field, vec![10, 0, 0, 9]);
    assert_eq!(app.changement_list.items.len(), 1);
    let (old, new) = &app.changement_list.items[0];
    assert_eq!(old.mac.field, AA.to_vec());
    assert_eq!(old.ip.field, vec![10, 0, 0, 5]);
    assert_eq!(new.mac.field, AA.to_vec());
    assert_eq!(new.ip.field, vec![10, 0, 0, 9]);
}

#[test]
fn rebinding_keeps_other_devices() {
    let (mut app, _tx) = App::new();
    app.handle_packet(packet(ARPOperation::Reply, [1; 6], [10, 0, 0, 1]));
    app.handle_packet(packet(ARPOperation::Reply, AA, [10, 0, 0, 5]));
    app.handle_packet(packet(ARPOperation::Reply, [3; 6], [10, 0, 0, 3]));
    app.handle_packet(packet(ARPOperation::Reply, AA, [10, 0, 0, 9]));
    let ips: Vec<Vec<u8>> = app.list.items.iter().map(|d| d.ip.field.clone()).collect();
    assert_eq!(ips, vec![vec![10, 0, 0, 1], vec![10, 0, 0, 9], vec![10, 0, 0, 3]]);
    assert_eq!(app.changement_list.items.len(), 1);
}

#[test]
fn new_device_is_inserted() {
    let (mut app, _tx) = App::new();
    app.handle_packet(packet(ARPOperation::Reply, AA, [10, 0, 0, 5]));
    app.handle_packet(packet(ARPOperation::Reply, [0x10, 0x20, 0x30, 0x40, 0x50, 0x60], [10, 0, 0, 20]));
    assert_eq!(app.list.items.len(), 2);
    assert_eq!(app.list.items[1].ip.field, vec![10, 0, 0, 20]);
    assert_eq!(app.changement_list.items.len(), 0);
}

#[test]
fn requests_only_count() {
    let (mut app, _tx) = App::new();
    app.handle_packet(packet(ARPOperation::Request, AA, [10, 0, 0, 5]));
    assert!(app.list.items.is_empty());
    assert!(app.changement_list.items.is_empty());
    assert_eq!(app.arp_frame_counter, 1);
}

#[test]
fn reserved_addresses_are_not_inserted() {
    let (mut app, _tx) = App::new();
    app.handle_packet(packet(ARPOperation::Reply, AA, [0, 0, 0, 0]));
    app.handle_packet(packet(ARPOperation::Reply, [2; 6], [255, 255, 255, 255]));
    assert!(app.list.items.is_empty());
    assert_eq!(app.arp_frame_counter, 2);
}

fn list_of(n: usize) -> StateList<Device> {
    let mut l = StateList::new();
    for i in 0..n {
        l.items.push(Device::new(&[i as u8; 6], &[10, 0, 0, i as u8]).unwrap());
    }
    l
}

#[test]
fn select_clamps_to_last() {
    let mut l = list_of(3);
    l.select(10);
    assert_eq!(l.selected, Some(2));
    l.select(3);
    assert_eq!(l.selected, Some(2));
    l.select(1);
    assert_eq!(l.selected, Some(1));
    let mut one = list_of(1);
    one.select(usize::MAX);
    assert_eq!(one.selected, Some(0));
}

#[test]
fn empty_list_navigation_is_noop() {
    let mut l = list_of(0);
    l.next();
    assert_eq!(l.selected, None);
    l.prev();
    assert_eq!(l.selected, None);
    l.select(4);
    assert_eq!(l.selected, None);
}

#[test]
fn next_and_prev_stop_at_ends() {
    let mut l = list_of(2);
    l.next();
    assert_eq!(l.selected, Some(0));
    l.next();
    assert_eq!(l.selected, Some(1));
    l.next();
    assert_eq!(l.selected, Some(1));
    l.prev();
    assert_eq!(l.selected, Some(0));
    l.prev();
    assert_eq!(l.selected, Some(0));
    l.unselect();
    assert_eq!(l.selected, None);
    l.prev();
    assert_eq!(l.selected, Some(0));
}

#[test]
fn lookup_by_mac_and_device() {
    let l = list_of(3);
    let found = l.get_by_mac(&MacAddr::new(&[1; 6]).unwrap()).unwrap();
    assert_eq!(found.ip.field, vec![10, 0, 0, 1]);
    assert!(l.get_by_mac(&MacAddr::new(&[9; 6]).unwrap()).is_none());
    let same = Device::new(&[2; 6], &[10, 0, 0, 2]).unwrap();
    assert!(l.get(&same).is_some());
    let other_ip = Device::new(&[2; 6], &[10, 0, 0, 7]).unwrap();
    assert!(l.get(&other_ip).is_none());
}

#[test]
fn scroll_clamps_past_device_count() {
    let (mut app, _tx) = App::new();
    app.handle_packet(packet(ARPOperation::Reply, [1; 6], [10, 0, 0, 1]));
    app.handle_packet(packet(ARPOperation::Reply, [2; 6], [10, 0, 0, 2]));
    app.set_scroll(1);
    assert_eq!(app.scroll(), 1);
    app.set_scroll(9);
    assert_eq!(app.scroll(), 1);
}
