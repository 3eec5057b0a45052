pub mod clock;
pub mod events;
pub mod frame;
pub mod picture;
pub mod pixels;
pub mod player;
pub mod status;
pub mod text;
