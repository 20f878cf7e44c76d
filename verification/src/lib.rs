//! Deterministic core of a tick-driven arcade game for a 128x64 monochrome
//! display: a fixed-capacity entity pool, an xorshift128+ random stream, a
//! per-frame simulation step, a tone-envelope scheduler, and a packed-bitmap
//! renderer. The surrounding program samples input, forwards the pixel and
//! tone commands this crate computes, and owns every piece of hardware.

pub mod entities;
pub mod input;
pub mod seed_rand;
pub mod sound;
pub mod render;
pub mod sprites;
pub mod world;
