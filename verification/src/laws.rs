//! What the operations of the library are for.
//!
//! Each law speaks of the calls themselves: of what goes into a function and what comes out of it.

pub mod actions;
pub mod files;
pub mod marked_files;
pub mod marking;
pub mod reading;
pub mod request;
pub mod run;
