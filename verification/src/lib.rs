//! Multi-protocol local-network service discovery.
//!
//! The crate advertises services a host runs and locates services advertised
//! by other hosts, over multicast DNS (mDNS / DNS-SD) and the UPnP Simple
//! Service Discovery Protocol (SSDP).  Wire-format parsing and printing, the
//! service registry with TTL expiry and capacity eviction, the per-protocol
//! engine state, and the manager's dispatch rules all live here, each with a
//! contract; the sockets and the mDNS daemon that move the datagrams are kept
//! outside the verified core and hand plain values in and out.

pub mod config;
pub mod discovery;
pub mod error;
pub mod manager;
pub mod mdns;
pub mod registry;
pub mod service;
pub mod ssdp;
pub mod strutil;
pub mod types;
pub mod utils;
