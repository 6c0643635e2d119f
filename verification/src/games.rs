//! The rules of the games.

pub mod pong;
pub mod quit;
pub mod render_test;
pub mod snake;
