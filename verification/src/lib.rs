//! Packet handling, configuration and route planning for a transparent
//! Shadowsocks routing daemon.

pub mod addr;
pub mod addr_laws;
pub mod addr_text;
pub mod answer_laws;
pub mod bytes;
pub mod checksum;
pub mod cli;
pub mod config;
pub mod config_laws;
pub mod conn;
pub mod daemon;
pub mod echo_laws;
pub mod flow_laws;
pub mod icmp;
pub mod ip_laws;
pub mod loader_laws;
pub mod message_laws;
pub mod order;
pub mod packet;
pub mod plugin;
pub mod program_laws;
pub mod response;
pub mod response_laws;
pub mod route;
pub mod route_file;
pub mod route_laws;
pub mod route_loader;
pub mod server;
pub mod server_laws;
pub mod stats;
pub mod text;
pub mod text_laws;
pub mod tun;
pub mod tunnel;
pub mod tunnel_laws;
pub mod wire_laws;
