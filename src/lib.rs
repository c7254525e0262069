pub mod block;
pub mod command;
pub mod generation;
pub mod level;
pub mod packet;
pub mod player;
pub mod rng;
pub mod rules;
pub mod server;
pub mod session;
pub mod stream;
pub mod tick;
pub mod util;
