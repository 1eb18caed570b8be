use std::sync::mpsc::{Receiver, Sender};

use vstd::prelude::*;

pub mod directory;
pub mod sniff;
pub mod structs;

use crate::directory::{is_reserved, lemma_observe_wf, DirectoryView};
use crate::structs::arp::{ARPOperation, ArpPacket};
use crate::structs::net::{Device, DeviceView};
use crate::structs::statelist::{device_views, StateList};

verus! {

/// The receiving end of std::sync::mpsc's queue, carried as an opaque value.
#[verifier::external_type_specification]
#[verifier::external_body]
#[verifier::reject_recursive_types(T)]
pub struct ExReceiver<T>(std::sync::mpsc::Receiver<T>);

/// The sending end of std::sync::mpsc's queue, carried as an opaque value.
#[verifier::external_type_specification]
#[verifier::external_body]
#[verifier::reject_recursive_types(T)]
pub struct ExSender<T>(std::sync::mpsc::Sender<T>);

/// Relies on std::sync::mpsc::channel: a new unbounded queue, as its sending
/// and its receiving end.
#[verifier::external_body]
fn packet_channel() -> (Sender<ArpPacket>, Receiver<ArpPacket>) {
    std::sync::mpsc::channel()
}

#[derive(Debug, PartialEq, Eq, Structural, Clone, Copy)]
pub enum InputMode {
    EditMode,
    NormalMode,
}

#[derive(Debug, PartialEq, Eq, Structural, Clone, Copy)]
pub enum Popup {
    GotoCommand,
    Hidden,
}

/// The consumer's state: the device directory (live devices and rebinding
/// log, each with a selection cursor), the receiving end of the packet queue
/// and what the display needs.
pub struct App {
    pub list: StateList<Device>,
    pub changement_list: StateList<(Device, Device)>,
    pub rx: Receiver<ArpPacket>,
    pub scroll: usize,
    pub mode: InputMode,
    pub popup: Popup,
    pub input: String,
    pub arp_frame_counter: usize,
}

/// The views of a rebinding log.
pub open spec fn rebinding_views(items: Seq<(Device, Device)>) -> Seq<(DeviceView, DeviceView)> {
    items.map_values(|p: (Device, Device)| (p.0@, p.1@))
}

impl App {
    pub open spec fn directory(&self) -> DirectoryView {
        DirectoryView {
            devices: device_views(self.list.items@),
            rebindings: rebinding_views(self.changement_list.items@),
        }
    }

    pub open spec fn wf(&self) -> bool {
        &&& self.directory().wf()
        &&& self.list.wf()
        &&& self.changement_list.wf()
    }

    /// An empty directory with no selection, and the sending end of its
    /// packet queue.
    pub fn new() -> (r: (App, Sender<ArpPacket>))
        ensures
            r.0.directory().devices.len() == 0,
            r.0.directory().rebindings.len() == 0,
            r.0.list.selected is None,
            r.0.changement_list.selected is None,
            r.0.scroll == 0,
            r.0.mode == InputMode::NormalMode,
            r.0.popup == Popup::Hidden,
            r.0.input@.len() == 0,
            r.0.arp_frame_counter == 0,
            r.0.wf(),
    {
        let (tx, rx) = packet_channel();
        (
            App {
                list: StateList::new(),
                changement_list: StateList::new(),
                rx,
                scroll: 0,
                mode: InputMode::NormalMode,
                popup: Popup::Hidden,
                input: String::new(),
                arp_frame_counter: 0,
            },
            tx,
        )
    }

    pub fn scroll(&self) -> (r: usize)
        ensures
            r == self.scroll,
    {
        self.scroll
    }

    /// Sets the scroll offset; a value past the device count is taken back
    /// to the last device.
    pub fn set_scroll(&mut self, to: usize)
        requires
            to <= old(self).list.items@.len() || old(self).list.items@.len() > 0,
        ensures
            final(self).scroll == if to > old(self).list.items@.len() {
                (old(self).list.items@.len() - 1) as usize
            } else {
                to
            },
            final(self).list == old(self).list,
            final(self).changement_list == old(self).changement_list,
            final(self).arp_frame_counter == old(self).arp_frame_counter,
    {
        if to > self.list.items.len() {
            self.scroll = self.list.items.len() - 1;
        } else {
            self.scroll = to;
        }
    }

    /// Applies one decoded packet to the directory (see
    /// `DirectoryView::observe`) and counts it.
    pub fn handle_packet(&mut self, packet: ArpPacket)
        ensures
            final(self).directory() == old(self).directory().observe(
                packet.operation,
                DeviceView { mac: packet.sender_mac@, ip: packet.sender_ip@ },
            ),
            final(self).arp_frame_counter == if old(self).arp_frame_counter < usize::MAX {
                (old(self).arp_frame_counter + 1) as usize
            } else {
                old(self).arp_frame_counter
            },
            final(self).list.selected == old(self).list.selected,
            final(self).changement_list.selected == old(self).changement_list.selected,
            final(self).scroll == old(self).scroll,
            final(self).mode == old(self).mode,
            final(self).popup == old(self).popup,
            final(self).input == old(self).input,
            old(self).wf() && packet@.is_valid() ==> final(self).wf(),
    {
        let ghost before = self.directory();
        let ghost sender = DeviceView { mac: packet.sender_mac@, ip: packet.sender_ip@ };
        proof {
            crate::structs::statelist::lemma_mac_position(before.devices, sender.mac);
        }
        match packet.operation {
            ARPOperation::Request => {},
            ARPOperation::Reply => {
                let dev = Device { mac: packet.sender_mac, ip: packet.sender_ip };
                match self.list.position_of_mac(&dev.mac) {
                    Some(i) => {
                        if self.list.items[i].ip != dev.ip {
                            let previous = self.list.items[i].clone();
                            self.list.items.set(i, dev.clone());
                            self.changement_list.items.push((previous, dev));
                            assert(self.directory().devices =~= before.devices.update(
                                i as int,
                                sender,
                            ));
                            assert(self.directory().rebindings =~= before.rebindings.push(
                                (before.devices[i as int], sender),
                            ));
                        }
                    },
                    None => {
                        if !is_reserved(&dev.ip) {
                            self.list.items.push(dev);
                            assert(self.directory().devices =~= before.devices.push(sender));
                        }
                    },
                }
            },
        }
        if self.arp_frame_counter < usize::MAX {
            self.arp_frame_counter = self.arp_frame_counter + 1;
        }
        proof {
            if before.wf() && packet@.is_valid() {
                lemma_observe_wf(before, packet.operation, sender);
            }
        }
    }
}

} // verus!
