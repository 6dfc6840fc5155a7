//! A fixed-size worker pool with an exactly-once graceful shutdown, and a
//! collection of small verified exercises around it.

pub mod basics;
pub mod generics;
pub mod grep;
pub mod iteration;
pub mod pool;
pub mod post;
pub mod quota;
pub mod restaurant;
pub mod shapes;
pub mod sorting;
pub mod summary;
