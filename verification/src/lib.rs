//! Engine-independent gameplay rules: inventory stacking, equipment, loot,
//! gathering yield, crowd-control gates, movement decisions and the
//! settings overlay state.

pub mod abilities;
pub mod crowd_control;
pub mod equipment;
pub mod gathering;
pub mod inventory;
pub mod inventory_model;
pub mod items;
pub mod loot;
pub mod movement;
pub mod placeables;
pub mod settings;
pub mod stats;
pub mod status;
pub mod tally;
