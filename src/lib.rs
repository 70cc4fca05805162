//! Scheduled push of new image files to a media server: a cron-like time
//! matcher, directory listing rules, content digests, the bulk existence check
//! and the run controller, each stated and proved.
pub mod text;
pub mod cron;
pub mod digest;
pub mod dedup;
pub mod upload;
pub mod scan;
pub mod control;
pub mod pipeline;
