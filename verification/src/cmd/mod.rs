//! The logic of each command: what it searches for, what it asks the model,
//! and how it reads the answers.
pub mod ask;
pub mod explain;
pub mod index;
pub mod patch;
pub mod review;
pub mod run;
pub mod search;
pub mod test;
