//! An interactive key-value form: a small state machine that turns key
//! presses into edits of an in-progress key/value pair, a committed pair
//! list, and a JSON rendering of that list for output on exit.

pub mod app;
pub mod json;
pub mod laws;
