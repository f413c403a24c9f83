//! Sample library management: the data model shared by the sample server and
//! its terminal client, and the verified logic of both.
pub mod model;
pub mod text;
pub mod library;
pub mod ids;
pub mod paths;
pub mod pairs;
pub mod scan;
pub mod server;
pub mod client;
pub mod player;
pub mod ui;
pub mod render;
pub mod probe;
pub mod laws;
