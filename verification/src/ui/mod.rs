//! The decision logic of the user interface: what the next step is, given the
//! state of the screen and the action the user took.
pub mod controller;
pub mod documents;
pub mod modals;
pub mod viz;
