pub mod game;
pub mod input;
pub mod session;
pub mod text;
