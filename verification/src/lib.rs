//! Linearly separable datasets and a margin perceptron that records every update,
//! generic over the number type they compute with.

pub mod scalar;
pub mod exact;
pub mod error;
pub mod utils;
pub mod structs;
pub mod dataset;
pub mod perceptron;
pub mod lehmer;
