//! Text blocks: a lighter block form whose hash covers its fields as text.

pub mod block;
