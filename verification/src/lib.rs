//! A priority work queue, the steps of a dog picture download, and a student
//! record.
//!
//! Threads, locks, the network and the disk are left to the program that uses
//! this library: it asks the library what to do next, does it, and reports back.
pub mod dog_image;
pub mod laws;
pub mod model;
pub mod queue;
pub mod retry_laws;
pub mod simple_payload;
pub mod step_laws;
pub mod student;
pub mod task;
pub mod text;
