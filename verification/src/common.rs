//! Value types shared by actors and objects.

pub mod arithmetic;
pub mod damage;
pub mod float;
pub mod position;
pub mod rounding;
pub mod stats;
pub mod status;
