//! The cooperative runtime: reactor, task queue, executor, and the async
//! adapter over non-blocking sockets.

pub mod executor;
pub mod iotask;
pub mod reactor;
pub mod sim;
pub mod tcp;
