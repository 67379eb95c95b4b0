//! Verified core of the mint mod-integration tooling for Deep Rock Galactic:
//! the editor file-server wire protocol, the Kismet bytecode reader, models of
//! Unreal Engine containers, and installation detection.

pub mod wire;
pub mod pak;
pub mod kismet;
pub mod listing;
pub mod ue;
pub mod server_list;
pub mod installation;
pub mod nav;
pub mod saves;
pub mod debugger;
pub mod update;
pub mod integration;
pub mod crc;
