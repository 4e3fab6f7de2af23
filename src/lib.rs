//! Connection state for a single-threaded native event loop: a window
//! registry, window-id allocation, a table of pending tasks, a FIFO of
//! deferred work, and the lifecycle of repeating timers.
pub mod connection;
pub mod ids;
pub mod registry;
pub mod tasks;
pub mod timer;
