//! Verified core of a touch-driven application switcher for an e-paper
//! tablet: rectangle algebra, gesture recognition, a draw-plan interpreter,
//! process-tree supervision and the orchestrator's event handling.
pub mod geometry;
pub mod gesture;
pub mod ui;
pub mod process;
pub mod text;
pub mod draft;
pub mod supervisor;
pub mod orchestrator;
pub mod stat;
pub mod tray;
