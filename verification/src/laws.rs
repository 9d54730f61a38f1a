//! What the library promises as a whole, said in terms of what goes in and what comes out.

pub mod dates;
pub mod reports;
pub mod requests;
pub mod steps;
pub mod words;
