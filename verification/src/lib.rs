pub mod machine;
pub mod state;
pub mod gb;
pub mod bytes;
pub mod bits;
pub mod gba;
