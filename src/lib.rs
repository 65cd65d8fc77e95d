//! A personal roadmap tracker: milestones grouped into folders, tasks grouped
//! into projects, and the rules for loading and migrating what was stored.
pub mod clock;
pub mod commands;
pub mod id_list;
pub mod keys;
pub mod roadmap;
pub mod roadmap_store;
pub mod task_store;
pub mod tasks;
pub mod ui;
