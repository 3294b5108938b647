pub mod arith;
pub mod item;
pub mod collect;
pub mod flexible;
pub mod place;
pub mod lines;
pub mod align;
pub mod cross;
