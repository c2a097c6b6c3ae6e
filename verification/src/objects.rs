//! Things an actor can carry, wear, wield or consume.

pub mod clothing;
pub mod consumable;
pub mod object;
pub mod weapons;
