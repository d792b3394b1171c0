//! A minimal tiling window manager's verified core.
//!
//! The crate is pure logic: `layout` computes per-window geometries from the
//! screen size, the tracked windows and the tiling mode, and `manager` is the
//! state machine that turns each display-server event into the next state and
//! the commands to issue back. Connecting to the server, waiting for events
//! and issuing the commands is the surrounding process's job.

pub mod layout;
pub mod manager;
