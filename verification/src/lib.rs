//! A fully-connected feed-forward classifier trained by mini-batch gradient
//! descent: the verified core.
//!
//! This crate holds everything about the trainer that is decided over
//! integers and bytes: the layer layout and the shape of every parameter and
//! scratch buffer, the forward pass, the backward pass and the parameter
//! update as sequences of steps, how an epoch is cut into batches, the epoch
//! loop as a state machine, the top-1 decision of the evaluator, and the
//! decoding of the image and label files. The real-valued arithmetic of each
//! step is performed by the caller, which follows the shapes, the steps and
//! the schedule computed here.

pub mod error;
pub mod shape;
pub mod network;
pub mod plan;
pub mod evaluate;
pub mod batch;
pub mod driver;
pub mod mnist;
