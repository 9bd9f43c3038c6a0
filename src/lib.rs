pub mod arp;
pub mod ethernet;
pub mod icmp;
pub mod ipv4;
pub mod net_util;
pub mod udp;
pub mod udp_socket;
