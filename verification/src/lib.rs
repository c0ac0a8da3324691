pub mod blocks;
pub mod codec;
pub mod engine;
pub mod grid;
pub mod laws;

pub use blocks::Air;
pub use blocks::Block;
pub use blocks::Direction;
pub use blocks::Iron;
pub use blocks::RedstoneBlock;
pub use blocks::RedstoneDust;
pub use blocks::Repeater;
