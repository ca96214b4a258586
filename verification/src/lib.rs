//! Forging DHCP Discover frames, recognising DHCP Offers, and the retry and
//! scheduling rules of an address-pool exhaustion run.

pub mod address;
pub mod bytes;
pub mod checksum;
pub mod dhcp_forge;
pub mod dhcp_parser;
pub mod mac_list;
pub mod scheduler;
pub mod utils;
pub mod worker;
