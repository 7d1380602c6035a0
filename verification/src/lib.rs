//! Watering controller: devices (valves) with their plants, a shared pump,
//! and the scheduling rules that open and close them.
pub mod config;
pub mod device;
pub mod handlers;
pub mod json;
pub mod laws;
pub mod listener;
pub mod plant;
pub mod system;
pub mod text;
pub mod time;
