//! What the handlers of the periodic ranking decide.

pub mod periodic;
