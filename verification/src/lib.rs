//! Offline-first quick notes and reminders: the verified core of the
//! application (validation, scheduling, delivery rules and report text).
pub mod text;
pub mod error;
pub mod clock;
pub mod domain;
pub mod schedule;
pub mod records;
pub mod mail;
pub mod scheduler;
pub mod startup;
pub mod summary;
pub mod export;
pub mod email_rules;
pub mod repository;
pub mod due;
pub mod notify;
pub mod settings_update;
pub mod commands;
pub mod timeline;
pub mod shell;
pub mod item_rules;
pub mod summary_report;
pub mod taxonomy;
pub mod docx;
