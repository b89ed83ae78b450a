//! Training engine of a one-hidden-layer binary classifier: turning parsed
//! table rows into a dataset, the epoch loop's decisions and stop protocol,
//! accuracy counting, and the run state shared with an observer.

pub mod dataset;
pub mod progress;
pub mod training;
