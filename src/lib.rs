//! Command composition and selection arithmetic for a modal editing layer:
//! paragraph motions over a read-only text view, collapsing selections to a
//! single point, and the pending operator/motion/count state machine.
pub mod collapse;
pub mod motion;
pub mod pending;
pub mod range;
pub mod view;
