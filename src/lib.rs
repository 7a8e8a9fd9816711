//! Control-plane model of an audio server's object graph: devices, nodes,
//! ports, links, profiles and default selections, with the rules that keep
//! them consistent.
pub mod controller;
pub mod devices;
pub mod engine;
pub mod graph;
pub mod icons;
pub mod launcher;
pub mod links;
pub mod menu;
pub mod metadata;
pub mod model;
pub mod nodes;
pub mod ports;
pub mod registry;
pub mod restoration;
pub mod store;
pub mod text;
pub mod volume;
