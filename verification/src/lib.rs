//! Camera fleet orchestration: grid layouts, filter graphs for the external
//! transcoder, the activation life cycle of mosaics, and snapshot retention.

pub mod camera;
pub mod capture;
pub mod clock;
pub mod error;
pub mod filter_graph;
pub mod layout;
pub mod location;
pub mod models;
pub mod mosaic;
pub mod mosaic_share;
pub mod retention;
pub mod security;
pub mod sync;
pub mod text;
pub mod thumbnail;
pub mod user;
