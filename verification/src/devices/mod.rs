//! Legacy devices offered to the guest.

pub mod i8042;
pub mod i8042_behaviour;
pub mod i8042_laws;
pub mod keyboard_map;
pub mod reset;
