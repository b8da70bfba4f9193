//! Verified core of a terminal system monitor: the data model of a refresh,
//! process ordering, the "rapid change" activity list, navigation state, and
//! the text and gauge arithmetic that the panels show.
pub mod system;
pub mod text;
pub mod order;
pub mod app;
pub mod theme;
pub mod ui;
pub mod cli;
