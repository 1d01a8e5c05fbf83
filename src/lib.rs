//! Voice-channel call tracking: an activity log per participant and room, and
//! the pure steps that turn a room into a timeline report.

pub mod activity;
pub mod participant;
pub mod room;
pub mod view;
pub mod transformer;
pub mod tracker;
pub mod report;
pub mod room_manager;
pub mod layout;
pub mod ticks;
pub mod summary;
pub mod events;
pub mod render;
