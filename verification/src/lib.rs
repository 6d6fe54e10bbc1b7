//! Rules engine of a small hacking-themed game: bounded resources, timed
//! buffs, quests, procedurally generated contacts, task resolution and
//! turn-based combat. The functions here carry contracts that Verus proves.
//! Two are taken on trust instead: the calls into the `rand` crate in
//! `utils`, of which only the range of the outcome is assumed. The
//! graphical front-end lives outside this crate.

pub mod buffs;
pub mod combat;
pub mod conversation;
pub mod game;
pub mod lines;
pub mod pieces;
pub mod player;
pub mod quests;
pub mod text;
pub mod utils;
