//! Moderation of group chat messages.

pub mod api;
pub mod api_laws;
pub mod batch;
pub mod batch_laws;
pub mod call_laws;
pub mod config;
pub mod kinds;
pub mod kinds_laws;
pub mod listing_laws;
pub mod moderation;
pub mod moderation_laws;
pub mod rules;
pub mod score_laws;
pub mod seqs;
pub mod standing_laws;
pub mod table_laws;
pub mod text;
pub mod text_laws;
pub mod user_tracker;
pub mod user_tracker_laws;
