//! Node agent logic for the Ports project: the RPC protocol and the routing
//! of requests, configuration paths, nftables port forwarding, the parsers
//! for the system facts and telemetry the agent reports, the DHCP, DNS,
//! certificate and backup procedures, the node's signing key, and the logic
//! of the `portsctl` command. The agent's reads, writes and command runs are
//! left to its callers: each function here computes from what they found.

pub mod json;
pub mod text;
pub mod config;
pub mod msg;
pub mod protocol;
pub mod firewall;
pub mod store;
pub mod traffic;
pub mod telemetry;
pub mod system;
pub mod discovery;
pub mod tailscale;
pub mod dhcp;
pub mod coredns;
pub mod backup;
pub mod acme;
pub mod keys;
pub mod ctl;
pub mod router;
pub mod transport;
