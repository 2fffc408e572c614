//! Verified core of a personal-finance tracker: password hashing, the
//! encrypted backup/sync file format, the multi-device merge and duplicate
//! cleanup rules, schema migration scripts, the CSV holdings importers, the
//! reminder calendar, the XP/streak/badge and challenge rules, and the
//! insight feed's rules.

pub mod error;
pub mod codec;
pub mod crypto;
pub mod text;
pub mod numeric;
pub mod clocks;
pub mod auth;
pub mod backup_file;
pub mod sync_tables;
pub mod rows;
pub mod row_sql;
pub mod merge_sql;
pub mod merge;
pub mod dedupe;
pub mod migrations;
pub mod csv_import;
pub mod csv_table;
pub mod holdings_csv;
pub mod oauth;
pub mod calendar;
pub mod periods;
pub mod sync_schedule;
pub mod gamification;
pub mod challenges;
pub mod insights;
pub mod reports;
pub mod log_level;
pub mod models;
pub mod notifications;
pub mod payments;
pub mod itr;
pub mod database;
pub mod health;
pub mod prices;
