//! Core simulation logic for a bull actor: a finite state machine driving
//! velocity integration, event-driven state transitions, and collision
//! response, written over fixed-point (scaled integer) arithmetic.

pub mod bull;
pub mod fixed;
pub mod sim;
pub mod vector;
