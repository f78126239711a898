//! Data-path and control-plane logic of a layer-4 load balancer for virtual
//! service addresses: connection tracking, backend selection, address
//! rewriting and the tables shared by the two planes.
pub mod types;
pub mod tcp_state;
pub mod checksum;
pub mod packet;
pub mod maps;
pub mod ingress;
pub mod egress;
pub mod server;
