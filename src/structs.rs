pub mod net;
pub mod arp;
pub mod statelist;
