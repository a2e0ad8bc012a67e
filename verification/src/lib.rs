//! Scroll-screenshot engine: frame matching, stitching, capture-loop
//! decisions, pixel helpers and the small state kept by the capture tool.

pub mod text;
pub mod column_match;
pub mod stitcher;
pub mod controller;
pub mod pixels;
pub mod desktop;
pub mod hitbox;
pub mod pins;
pub mod config;
pub mod fft;
pub mod encoding;
pub mod cache;
