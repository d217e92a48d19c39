//! Event ingestion, view-count bookkeeping and request planning for the YRAL
//! multi-service backend.

pub mod client;
pub mod error;
pub mod event;
pub mod events;
pub mod handlers;
pub mod notification;
pub mod recsys;
pub mod run;
pub mod signing;
pub mod state;
pub mod text;
pub mod view_counts;
