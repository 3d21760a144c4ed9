//! A durable, time-based task dispatcher: tasks wait in a store until their
//! due time, a single loop wakes when the earliest one is due (or when an
//! earlier one is scheduled), and a batch dispatcher hands every due task to
//! the message bus and removes it from the store.
pub mod dispatch;
pub mod id;
pub mod metrics;
pub mod request;
pub mod scheduler;
pub mod service;
pub mod signal;
pub mod store;
pub mod task;
pub mod time;
