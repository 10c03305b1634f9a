//! Core of a 2D shape-layout editor: integer geometry, the shape registry,
//! reversible edit commands, the interaction-mode state machine, and the
//! pointer gestures that produce its messages.

pub mod controller;
pub mod message;
pub mod model;
pub mod program;
