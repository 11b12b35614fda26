//! Sessions: the state machine of one, what one holds and does, the frames that it sends, and
//! all of them together.
pub mod device;
pub mod device_control;
pub mod device_input;
pub mod frame_events;
pub mod manager;
pub mod state;
