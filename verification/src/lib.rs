//! Verified core of the RoboScape Online simulation services: identifiers,
//! wire formats, room bookkeeping and the API server's load balancing.

pub mod util;
pub mod netsblox_api;
pub mod service_type;
pub mod robot_protocol;
pub mod ids;
pub mod common;
pub mod scenarios;
pub mod server_api;
pub mod registry;
pub mod room;
pub mod world;
pub mod clients;
pub mod room_update;
pub mod metadata;
pub mod service_definition;
pub mod vm;
pub mod requests;
pub mod client_ui;
