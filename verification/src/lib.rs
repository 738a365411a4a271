//! Push-to-talk voice capture: the decisions of the capture pipeline, the
//! chunked upload protocol and the trigger coordinator, with their contracts.

pub mod audio;
pub mod auth;
pub mod coordinator;
pub mod error;
pub mod history;
pub mod keyboard_hook;
pub mod splitter;
pub mod transcribe;
pub mod wav;
