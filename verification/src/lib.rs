pub mod units;
pub mod shape;
pub mod engine;
pub mod store;
pub mod trace;
pub mod world;
pub mod sync;
pub mod aim;
pub mod common;
pub mod chance;
pub mod sounds;
pub mod peg;
pub mod layout;
pub mod input;
pub mod path;
