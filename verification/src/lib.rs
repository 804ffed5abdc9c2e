//! Verified integer core of a divergence-free SPH fluid solver: the spatial
//! hash grid used for neighbour queries, the per-frame pass schedule, and a few
//! small utilities of the surrounding engine.

pub mod camera_commands;
pub mod controller;
pub mod device;
pub mod double_buffer;
pub mod fps_counter;
pub mod frame_schedule;
pub mod gpu_sort;
pub mod kernel_config;
pub mod neighbor_laws;
pub mod neighbor_search;
pub mod particle_set;
pub mod primes;
pub mod spatial_hash;
pub mod swapchain;
