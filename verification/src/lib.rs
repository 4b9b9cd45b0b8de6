use vstd::prelude::*;

pub mod item_data;
pub mod loot;
pub mod mail;
pub mod motd;
pub mod movement;
pub mod navmesh;
pub mod pet_battle;
pub mod profession;
pub mod quest;
pub mod reputation;
pub mod spell_data;
pub mod ticket;
pub mod trade;

verus! {

} // verus!
