//! Verified map, editor and gameplay-rule logic of a 2D platformer.

pub mod animation;
pub mod editor;
pub mod gameplay;
pub mod geometry;
pub mod level;
pub mod menu;
pub mod paths;
pub mod player;
pub mod search;
pub mod text;
pub mod tiles;
pub mod tileset;
pub mod validation;
