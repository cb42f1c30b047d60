//! The verified core of a small online game: the server's registry of
//! players, how server and client answer each other's messages, combat,
//! enemy spawning and tracking, and the client's camera and menu rules.
pub mod decimal;
pub mod defaults;
pub mod tables;
pub mod messages;
pub mod players;
pub mod server;
pub mod combat;
pub mod world;
pub mod client;
pub mod entities;
pub mod camera;
pub mod menu;
