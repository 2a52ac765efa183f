pub mod arith;
pub mod color_transform;
pub mod color_validate;
pub mod fraction;
pub mod grammar;
pub mod pointer;
pub mod text;
