pub mod solar;
pub mod frontlight;
pub mod terminal;
pub mod sun;
