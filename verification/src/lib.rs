//! The decisions of a Minecraft lobby server with parkour courses, verified.

pub mod config;
pub mod decimal;
pub mod legacy;
pub mod outside;
pub mod parkour;
pub mod text;
pub mod world;
