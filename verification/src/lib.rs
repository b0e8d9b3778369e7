//! Verified core of a Rogue dungeon crawler: level geometry, room and
//! corridor generation, the terminal screen model, key decoding and message
//! layout, the hero's pack and the names of items, the decisions of moving,
//! hunger, traps, potions, scrolls and sticks, options, save
//! files and the score file.

pub mod armor;
pub mod command;
pub mod effects;
pub mod format;
pub mod geom;
pub mod help;
pub mod hunger;
pub mod level;
pub mod look;
pub mod mapping;
pub mod moves;
pub mod naming;
pub mod options;
pub mod pack;
pub mod potions;
pub mod quaff;
pub mod rnd;
pub mod savefile;
pub mod score;
pub mod scrolls;
pub mod reading;
pub mod rings;
pub mod rip;
pub mod sticks;
pub mod structure;
mod text;
pub mod things;
pub mod traps;
pub mod tile;
pub mod ui;
pub mod vers;
pub mod wizard;
pub mod zap;
