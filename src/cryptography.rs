//! Falcon signatures at degree 512, with keys drawn from a seed.

pub mod falcon512;
