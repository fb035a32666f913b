//! The rules of a game-server node daemon, stated and proved.
//!
//! The daemon sits between a central panel and the container runtime of
//! one host. This crate holds what it decides: where a path may lead
//! ([`sandbox`], [`path`]), what an archive is and what unpacking it does
//! ([`archive`]), how a backup is named, summed and put back ([`backup`]),
//! how a directory is listed and files are renamed ([`listing`],
//! [`rename`]), how the panel is addressed and a paged answer is read
//! ([`remote`]), and how the fleet is loaded, started and checkpointed
//! ([`manager`], [`boot`], [`server`], [`state`]).
//!
//! Reading files, talking to the network and running containers are left to
//! the caller, which hands in plain values and carries out the actions that
//! come back.

pub mod api;
pub mod archive;
pub mod backup;
pub mod boot;
pub mod digest;
pub mod encode;
pub mod ident;
pub mod listing;
pub mod manager;
pub mod path;
pub mod remote;
pub mod rename;
pub mod sandbox;
pub mod server;
pub mod state;
pub mod text;
