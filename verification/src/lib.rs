//! Input routing and workspace composition for a touchscreen window shell.
//!
//! Everything here decides and nothing here acts: events and surfaces come
//! in as plain values, and what goes out says which notifications the seat
//! is owed and what is to be drawn in which order. Talking to the backend,
//! drawing, and the clock are left to the embedding.

pub mod geometry;
pub mod view;
pub mod event;
pub mod spring;
pub mod home_bar;
pub mod space;
pub mod server;
pub mod input_manager;
pub mod status;
pub mod gl;
