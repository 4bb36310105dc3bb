pub mod controls;
pub mod decoder;
pub mod events;
pub mod fade;
pub mod float_bits;
pub mod float_ops;
pub mod json;
pub mod output;
pub mod player;
pub mod seek;
pub mod settings;
pub mod shared;
pub mod spatial;
pub mod tempo;
pub mod text;
