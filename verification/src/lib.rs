//! The decisions of the NeuralForge Vulkan layer.
//!
//! Everything that the layer decides or computes without talking to a device, a file or the
//! helper process stands here with its contract. The code that performs the decisions is in
//! `app/`.

pub mod activation;
pub mod apply;
pub mod blueprints;
pub mod breadcrumbs;
pub mod building;
pub mod capabilities;
pub mod capture_step;
pub mod commands;
pub mod compose_recording;
pub mod compose_slots;
pub mod contents;
pub mod downscale;
pub mod dump;
pub mod encode;
pub mod hotkey;
pub mod logging;
pub mod memory;
pub mod meter;
pub mod ownership;
pub mod present;
pub mod present_runs;
pub mod present_steps;
pub mod present_sync;
pub mod primary;
pub mod readback;
pub mod readback_runs;
pub mod recording;
pub mod scaling;
pub mod shader;
pub mod submission;
pub mod swapchains;
pub mod synchronisation;
pub mod tap;
pub mod text;
pub mod vulkan;
