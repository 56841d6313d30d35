//! A bounded cache of files on disk: what is in it, and what has to leave.

pub mod file_inventory;
pub mod paths;
pub mod quota_manager;
