//! Interactive image triage: a catalog of image files, the decisions of the
//! workers that decode them, and the consumer state machine that moves or
//! skips each delivered image and tracks progress.

pub mod app;
pub mod catalog;
pub mod path;
pub mod pool;
pub mod viewmodel;
