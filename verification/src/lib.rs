//! Helpers of a GnuCash-style money manager: GUID and date conversion,
//! SQL text, report and page building, verified with Verus.
pub mod text;
pub mod guid;
pub mod dates;
pub mod database;
pub mod account_types;
pub mod account_editor;
pub mod html;
pub mod settings;
pub mod transactions;
pub mod sql;
pub mod page;
pub mod tables;
pub mod sorting;
pub mod report;
pub mod backup;
